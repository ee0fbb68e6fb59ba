use vstd::prelude::*;

use crate::access::{rank, AccessReq, Privilege};
use crate::cluster::Cluster;
use crate::error::{Error, IMStatusCode};
use crate::level_control::{self, LevelControlCluster};
use crate::callbacks::matching;
use crate::on_off::{self, OnOffCluster, UpdateData};
use crate::tlv::TlvElement;

verus! {

/// Most endpoints a node holds.
pub const MAX_ENDPOINTS: usize = 16;
/// Most clusters an endpoint holds.
pub const MAX_CLUSTERS: usize = 16;

/// A cluster hosted on an endpoint.
pub enum AnyCluster {
    OnOff(OnOffCluster),
    LevelControl(LevelControlCluster),
}

/// Whether cluster `c` has a command with id `cmd_id`.
pub open spec fn knows(c: AnyCluster, cmd_id: Option<u32>) -> bool {
    cmd_id is Some && match c {
        AnyCluster::OnOff(_) => on_off::command_of(cmd_id->Some_0) is Some,
        AnyCluster::LevelControl(_) => level_control::command_of(cmd_id->Some_0) is Some,
    }
}

/// Whether the subject may invoke commands: it needs Operate privilege.
pub open spec fn may_invoke(req: AccessReq) -> bool {
    rank(req.privilege) >= rank(Privilege::Operate)
}

/// The status that handling `cmd_id` with `data` on cluster `c` on behalf of
/// `req` gives: an unknown command first, then a denied subject, then the
/// cluster's own status.
pub open spec fn status_for(c: AnyCluster, req: AccessReq, cmd_id: Option<u32>, data: Seq<TlvElement>) -> IMStatusCode {
    if !knows(c, cmd_id) {
        IMStatusCode::UnsupportedCommand
    } else if !may_invoke(req) {
        IMStatusCode::UnsupportedAccess
    } else {
        match c {
            AnyCluster::OnOff(_) => IMStatusCode::Success,
            AnyCluster::LevelControl(l) => match level_control::command_result(
                l.state(),
                l.min_level(),
                l.max_level(),
                level_control::command_of(cmd_id->Some_0)->Some_0,
                data,
            ) {
                Err(e) => e,
                Ok(_) => IMStatusCode::Success,
            },
        }
    }
}

/// `new` is cluster `old` after handling `cmd_id` with `data` on behalf of `req`:
/// unchanged where the command is unknown, denied or fails, else as the
/// cluster's own handler states.
pub open spec fn cluster_effect(old: AnyCluster, new: AnyCluster, req: AccessReq, cmd_id: Option<u32>, data: Seq<TlvElement>) -> bool {
    if !knows(old, cmd_id) || !may_invoke(req) {
        new == old
    } else {
        match (old, new) {
            (AnyCluster::OnOff(a), AnyCluster::OnOff(b)) => OnOffCluster::commanded(
                a,
                b,
                on_off::command_of(cmd_id->Some_0)->Some_0,
            ),
            (AnyCluster::LevelControl(a), AnyCluster::LevelControl(b)) => match level_control::command_result(
                a.state(),
                a.min_level(),
                a.max_level(),
                level_control::command_of(cmd_id->Some_0)->Some_0,
                data,
            ) {
                Err(_) => b == a,
                Ok(st) => LevelControlCluster::moved_to(a, b, st),
            },
            _ => false,
        }
    }
}

/// The On/Off command that coupling to state `on` amounts to.
pub open spec fn on_off_command(on: bool) -> on_off::Commands {
    if on {
        on_off::Commands::On
    } else {
        on_off::Commands::Off
    }
}

/// The On/Off state that handling `cmd_id` with `data` on `c` on behalf of `req`
/// asks of the endpoint's On/Off cluster: only a Level Control command coupled to
/// On/Off that succeeds asks one, on exactly when the level it reaches or heads
/// for is not 0.
pub open spec fn coupling(c: AnyCluster, req: AccessReq, cmd_id: Option<u32>, data: Seq<TlvElement>) -> Option<bool> {
    match c {
        AnyCluster::LevelControl(l) => if knows(c, cmd_id) && may_invoke(req)
            && level_control::couples_on_off(level_control::command_of(cmd_id->Some_0)->Some_0) {
            match level_control::command_result(
                l.state(),
                l.min_level(),
                l.max_level(),
                level_control::command_of(cmd_id->Some_0)->Some_0,
                data,
            ) {
                Ok(s) => Some(level_control::effective_level(s) != 0),
                Err(_) => None,
            }
        } else {
            None
        },
        _ => None,
    }
}

/// `b` is cluster `a` with its dirty marks collected and nothing else changed.
pub open spec fn cleaned(a: AnyCluster, b: AnyCluster) -> bool {
    match (a, b) {
        (AnyCluster::OnOff(x), AnyCluster::OnOff(y)) => {
            &&& y.base_spec().attrs() == x.base_spec().attrs()
            &&& y.base_spec().cluster_id() == x.base_spec().cluster_id()
            &&& y.base_spec().dirty_ids().len() == 0
            &&& y.callbacks_spec() == x.callbacks_spec()
            &&& y.shared() == x.shared()
        },
        (AnyCluster::LevelControl(x), AnyCluster::LevelControl(y)) => {
            &&& y.base_spec().attrs() == x.base_spec().attrs()
            &&& y.base_spec().cluster_id() == x.base_spec().cluster_id()
            &&& y.base_spec().dirty_ids().len() == 0
            &&& y.transition_spec() == x.transition_spec()
        },
        _ => false,
    }
}

/// (endpoint id, cluster id, attribute id) of each dirty mark of the clusters `cs`
/// on endpoint `id`, cluster by cluster, each in the order written.
pub open spec fn dirty_in(id: u16, cs: Seq<AnyCluster>) -> Seq<(u16, u32, u16)>
    decreases cs.len(),
{
    if cs.len() == 0 {
        Seq::empty()
    } else {
        let c = cs.last();
        dirty_in(id, cs.drop_last()) + c.dirty().map_values(|a: u16| (id, c.cid(), a))
    }
}

/// The dirty marks of every cluster of `eps`, endpoint by endpoint.
pub open spec fn dirty_paths(eps: Seq<Endpoint>) -> Seq<(u16, u32, u16)>
    decreases eps.len(),
{
    if eps.len() == 0 {
        Seq::empty()
    } else {
        dirty_paths(eps.drop_last()) + dirty_in(eps.last().ep_id(), eps.last().clusters_spec())
    }
}

impl AnyCluster {
    /// Ids of the persistent attributes written since the store last collected them.
    pub open spec fn dirty(&self) -> Seq<u16> {
        match self {
            AnyCluster::OnOff(c) => c.base_spec().dirty_ids(),
            AnyCluster::LevelControl(c) => c.base_spec().dirty_ids(),
        }
    }

    /// The base cluster.
    pub open spec fn base_of(&self) -> Cluster {
        match self {
            AnyCluster::OnOff(c) => c.base_spec(),
            AnyCluster::LevelControl(c) => c.base_spec(),
        }
    }

    /// What reading attribute `id` returns; On/Off answers `OnOff` from a fresh
    /// peripheral state.
    pub open spec fn read_result(&self, req: AccessReq, id: u16) -> Result<TlvElement, IMStatusCode> {
        match self {
            AnyCluster::OnOff(c) => c.read_result(req, id),
            AnyCluster::LevelControl(c) => c.base_spec().read_result(req, id),
        }
    }

    /// Whether the cluster has a command with id `cmd_id`.
    pub fn knows(&self, cmd_id: Option<u32>) -> (r: bool)
        ensures
            r == knows(*self, cmd_id),
    {
        match cmd_id {
            None => false,
            Some(id) => match self {
                AnyCluster::OnOff(_) => on_off::Commands::from_u32(id).is_some(),
                AnyCluster::LevelControl(_) => level_control::Commands::from_u32(id).is_some(),
            },
        }
    }

    /// The base cluster.
    pub fn base(&self) -> (r: &Cluster)
        ensures
            *r == self.base_of(),
    {
        match self {
            AnyCluster::OnOff(c) => c.base(),
            AnyCluster::LevelControl(c) => c.base(),
        }
    }

    /// An Interaction Model read of attribute `id` on behalf of `req`.
    pub fn read_attribute(&self, req: &AccessReq, id: u16) -> (r: Result<TlvElement, IMStatusCode>)
        requires
            self.wf(),
        ensures
            r == self.read_result(*req, id),
    {
        match self {
            AnyCluster::OnOff(c) => c.read_attribute(req, id),
            AnyCluster::LevelControl(c) => c.read_attribute(req, id),
        }
    }

    /// An Interaction Model write of `t` to attribute `id` on behalf of `req`.
    pub fn write_attribute(&mut self, req: &AccessReq, id: u16, t: &TlvElement) -> (r: Result<(), IMStatusCode>)
        requires
            old(self).wf(),
        ensures
            final(self).wf(),
            final(self).cid() == old(self).cid(),
            r is Ok <==> old(self).base_of().write_result(*req, id, *t) is Ok,
            r is Err ==> r->Err_0 == old(self).base_of().write_result(*req, id, *t)->Err_0,
            r is Err ==> *final(self) == *old(self),
            r is Ok ==> Cluster::written(
                old(self).base_of(),
                final(self).base_of(),
                id,
                old(self).base_of().write_result(*req, id, *t)->Ok_0,
            ),
    {
        match self {
            AnyCluster::OnOff(c) => c.write_attribute(req, id, t),
            AnyCluster::LevelControl(c) => c.write_attribute(req, id, t),
        }
    }

    /// Collects the dirty marks.
    pub fn take_dirty(&mut self) -> (r: Vec<u16>)
        requires
            old(self).wf(),
        ensures
            r@ == old(self).dirty(),
            cleaned(*old(self), *final(self)),
            final(self).wf(),
            final(self).cid() == old(self).cid(),
    {
        match self {
            AnyCluster::OnOff(c) => c.take_dirty(),
            AnyCluster::LevelControl(c) => c.take_dirty(),
        }
    }

    /// The cluster id.
    pub open spec fn cid(&self) -> u32 {
        match self {
            AnyCluster::OnOff(_) => on_off::ID,
            AnyCluster::LevelControl(_) => level_control::ID,
        }
    }

    /// The cluster is well formed.
    pub open spec fn wf(&self) -> bool {
        match self {
            AnyCluster::OnOff(c) => c.wf(),
            AnyCluster::LevelControl(c) => c.wf(),
        }
    }

    /// The cluster id.
    pub fn id(&self) -> (r: u32)
        ensures
            r == self.cid(),
    {
        match self {
            AnyCluster::OnOff(_) => on_off::ID,
            AnyCluster::LevelControl(_) => level_control::ID,
        }
    }
}

/// The device type an endpoint announces.
#[derive(Debug, Clone, Copy, PartialEq, Eq, Structural)]
pub struct DeviceType {
    pub dtype: u32,
    pub drev: u16,
}

/// The status of a command on one endpoint, with the handles of that endpoint's
/// On/Off callbacks to run.
#[derive(Debug, Clone, PartialEq, Eq)]
pub struct CommandStatus {
    pub endpoint_id: u16,
    pub status: IMStatusCode,
    pub callbacks: Vec<usize>,
}

/// The cluster ids of `s` ascend strictly.
pub open spec fn ascending(s: Seq<AnyCluster>) -> bool {
    forall|a: int, b: int| 0 <= a < b < s.len() ==> (#[trigger] s[a]).cid() < (#[trigger] s[b]).cid()
}

/// The handles of the On/Off callbacks that handling `cmd_id` with `data` on
/// cluster `cid` of endpoint `e` asks to run, in registration order: the On/Off
/// cluster's own for its command, or the companion On/Off cluster's for the
/// state that a coupled Level Control command asks.
pub open spec fn callbacks_for(e: Endpoint, cid: u32, req: AccessReq, cmd_id: Option<u32>, data: Seq<TlvElement>) -> Seq<usize> {
    let c = e.cluster(cid);
    match c {
        AnyCluster::OnOff(o) => if knows(c, cmd_id) && may_invoke(req) {
            matching(o.callbacks_spec(), on_off::command_of(cmd_id->Some_0)->Some_0)
        } else {
            Seq::empty()
        },
        AnyCluster::LevelControl(_) => match coupling(c, req, cmd_id, data) {
            Some(on) => if e.hosts(on_off::ID) {
                match e.cluster(on_off::ID) {
                    AnyCluster::OnOff(o) => matching(o.callbacks_spec(), on_off_command(on)),
                    _ => Seq::empty(),
                }
            } else {
                Seq::empty()
            },
            None => Seq::empty(),
        },
    }
}

/// `new` is endpoint `old` after handling `cmd_id` with `data` on its cluster
/// `cid`: that cluster changes as its handler states, a coupled On/Off cluster
/// takes the command the coupling asks, and nothing else changes.
pub open spec fn endpoint_effect(
    old: Endpoint,
    new: Endpoint,
    cid: u32,
    req: AccessReq,
    cmd_id: Option<u32>,
    data: Seq<TlvElement>,
) -> bool {
    let c = old.cluster(cid);
    let k = coupling(c, req, cmd_id, data);
    &&& new.ep_id() == old.ep_id()
    &&& new.device_type_spec() == old.device_type_spec()
    &&& new.hosts(cid)
    &&& cluster_effect(c, new.cluster(cid), req, cmd_id, data)
    &&& (k is Some && old.hosts(on_off::ID) ==> new.hosts(on_off::ID) && match (
        old.cluster(on_off::ID),
        new.cluster(on_off::ID),
    ) {
        (AnyCluster::OnOff(a), AnyCluster::OnOff(b)) => OnOffCluster::commanded(a, b, on_off_command(k->Some_0)),
        _ => false,
    })
    &&& new.clusters_spec().len() == old.clusters_spec().len()
    &&& forall|j: int|
        0 <= j < old.clusters_spec().len() && (#[trigger] old.clusters_spec()[j]).cid() != cid && !(k is Some
            && old.clusters_spec()[j].cid() == on_off::ID) ==> new.clusters_spec()[j] == old.clusters_spec()[j]
}

/// Cluster ids of `s`, in order.
pub open spec fn ids_of(s: Seq<AnyCluster>) -> Seq<u32> {
    s.map_values(|c: AnyCluster| c.cid())
}

/// A sub-device of a node: its id, device type and clusters.
pub struct Endpoint {
    id: u16,
    device_type: DeviceType,
    clusters: Vec<AnyCluster>,
}

impl Endpoint {
    /// The endpoint id.
    pub closed spec fn ep_id(&self) -> u16 {
        self.id
    }

    /// The device type.
    pub closed spec fn device_type_spec(&self) -> DeviceType {
        self.device_type
    }

    /// The clusters, in the order added.
    pub closed spec fn clusters_spec(&self) -> Seq<AnyCluster> {
        self.clusters@
    }

    /// Whether the endpoint hosts a cluster with id `cid`.
    pub open spec fn hosts(&self, cid: u32) -> bool {
        exists|i: int| 0 <= i < self.clusters_spec().len() && (#[trigger] self.clusters_spec()[i]).cid() == cid
    }

    /// The cluster with id `cid`, where the endpoint hosts one.
    pub open spec fn cluster(&self, cid: u32) -> AnyCluster {
        self.clusters_spec()[choose|i: int|
            0 <= i < self.clusters_spec().len() && (#[trigger] self.clusters_spec()[i]).cid() == cid]
    }

    /// Cluster ids are unique and ascending, within bounds, and every cluster is well formed.
    pub open spec fn wf(&self) -> bool {
        let s = self.clusters_spec();
        &&& s.len() <= MAX_CLUSTERS
        &&& ascending(s)
        &&& forall|i: int, j: int|
            0 <= i < s.len() && 0 <= j < s.len() && i != j ==> (#[trigger] s[i]).cid() != (#[trigger] s[j]).cid()
        &&& forall|i: int| 0 <= i < s.len() ==> (#[trigger] s[i]).wf()
    }

    /// The endpoint id.
    pub fn id(&self) -> (r: u16)
        ensures
            r == self.ep_id(),
    {
        self.id
    }

    /// The device type.
    pub fn device_type(&self) -> (r: DeviceType)
        ensures
            r == self.device_type_spec(),
    {
        self.device_type
    }

    /// Collects the dirty marks of every cluster, cluster by cluster.
    fn take_dirty(&mut self) -> (r: Vec<(u16, u32, u16)>)
        requires
            old(self).wf(),
        ensures
            r@ == dirty_in(old(self).ep_id(), old(self).clusters_spec()),
            final(self).wf(),
            final(self).ep_id() == old(self).ep_id(),
            final(self).device_type_spec() == old(self).device_type_spec(),
            final(self).clusters_spec().len() == old(self).clusters_spec().len(),
            forall|k: int| 0 <= k < old(self).clusters_spec().len() ==> cleaned(
                #[trigger] old(self).clusters_spec()[k],
                final(self).clusters_spec()[k],
            ),
    {
        let ghost s0 = self.clusters@;
        let mut r: Vec<(u16, u32, u16)> = Vec::new();
        let mut k: usize = 0;
        while k < self.clusters.len()
            invariant
                self.wf(),
                self.id == old(self).id,
                self.device_type == old(self).device_type,
                s0 == old(self).clusters@,
                self.clusters@.len() == s0.len(),
                k <= s0.len(),
                ids_of(self.clusters@) == ids_of(s0),
                forall|j: int| k <= j < s0.len() ==> #[trigger] self.clusters@[j] == s0[j],
                forall|j: int| 0 <= j < k ==> cleaned(#[trigger] s0[j], self.clusters@[j]),
                r@ == dirty_in(self.id, s0.subrange(0, k as int)),
            decreases s0.len() - k,
        {
            let ghost before = self.clusters@;
            let mut c = self.clusters.remove(k);
            let ids = c.take_dirty();
            let cid = c.id();
            self.clusters.insert(k, c);
            proof {
                lemma_replace(before, k as int, c);
                assert(self.clusters@ =~= before.update(k as int, c));
            }
            let ghost start = r@;
            let mut m: usize = 0;
            while m < ids.len()
                invariant
                    m <= ids@.len(),
                    r@ == start + ids@.subrange(0, m as int).map_values(|a: u16| (self.id, cid, a)),
                decreases ids@.len() - m,
            {
                r.push((self.id, cid, ids[m]));
                proof {
                    assert(ids@.subrange(0, m + 1).map_values(|a: u16| (self.id, cid, a)) =~= ids@.subrange(
                        0,
                        m as int,
                    ).map_values(|a: u16| (self.id, cid, a)).push((self.id, cid, ids@[m as int])));
                }
                m = m + 1;
            }
            proof {
                assert(ids@.subrange(0, m as int) =~= ids@);
                assert(s0.subrange(0, k + 1).drop_last() =~= s0.subrange(0, k as int));
                assert(s0.subrange(0, k + 1).last() == s0[k as int]);
                assert(ids_of(s0)[k as int] == s0[k as int].cid());
            }
            k = k + 1;
        }
        assert(s0.subrange(0, k as int) =~= s0);
        r
    }

    /// The position of the cluster with id `cid`, if hosted.
    fn find(&self, cid: u32) -> (r: Option<usize>)
        requires
            self.wf(),
        ensures
            r is None <==> !self.hosts(cid),
            r is Some ==> r->Some_0 < self.clusters_spec().len() && self.clusters_spec()[r->Some_0 as int].cid() == cid
                && self.cluster(cid) == self.clusters_spec()[r->Some_0 as int],
    {
        let mut i: usize = 0;
        while i < self.clusters.len()
            invariant
                self.wf(),
                i <= self.clusters@.len(),
                forall|j: int| 0 <= j < i ==> (#[trigger] self.clusters@[j]).cid() != cid,
            decreases self.clusters@.len() - i,
        {
            if self.clusters[i].id() == cid {
                proof {
                    let k = choose|k: int|
                        0 <= k < self.clusters_spec().len() && (#[trigger] self.clusters_spec()[k]).cid() == cid;
                    assert(k == i);
                }
                return Some(i);
            }
            i = i + 1;
        }
        None
    }
    /// Handles a command on the hosted cluster `cid`. A Level Control command
    /// coupled to On/Off then drives this endpoint's On/Off cluster, if there is one.
    fn handle(&mut self, cid: u32, req: &AccessReq, cmd_id: Option<u32>, data: &Vec<TlvElement>) -> (r: CommandStatus)
        requires
            old(self).wf(),
            old(self).hosts(cid),
        ensures
            final(self).wf(),
            ids_of(final(self).clusters_spec()) == ids_of(old(self).clusters_spec()),
            final(self).ep_id() == old(self).ep_id(),
            final(self).device_type_spec() == old(self).device_type_spec(),
            r.endpoint_id == old(self).ep_id(),
            r.status == status_for(old(self).cluster(cid), *req, cmd_id, data@),
            r.callbacks@ == callbacks_for(*old(self), cid, *req, cmd_id, data@),
            endpoint_effect(*old(self), *final(self), cid, *req, cmd_id, data@),
    {
        let i = match self.find(cid) {
            Some(i) => i,
            None => return CommandStatus { endpoint_id: self.id, status: IMStatusCode::Failure, callbacks: Vec::new() },
        };
        if self.clusters[i].knows(cmd_id) && !req.allow_invoke() {
            return CommandStatus { endpoint_id: self.id, status: IMStatusCode::UnsupportedAccess, callbacks: Vec::new() };
        }
        let ghost s0 = self.clusters@;
        let c = self.clusters.remove(i);
        match c {
            AnyCluster::OnOff(mut oc) => {
                let resp = oc.handle_command(cmd_id);
                self.clusters.insert(i, AnyCluster::OnOff(oc));
                proof {
                    lemma_replace(s0, i as int, AnyCluster::OnOff(oc));
                    assert(self.clusters@ =~= s0.update(i as int, AnyCluster::OnOff(oc)));
                    lemma_cluster_at(*self, i as int);
                    assert(ids_of(s0)[i as int] == s0[i as int].cid());
                }
                CommandStatus { endpoint_id: self.id, status: resp.status, callbacks: resp.callbacks }
            },
            AnyCluster::LevelControl(mut lc) => {
                let resp = lc.handle_command(cmd_id, data);
                self.clusters.insert(i, AnyCluster::LevelControl(lc));
                proof {
                    lemma_replace(s0, i as int, AnyCluster::LevelControl(lc));
                    assert(self.clusters@ =~= s0.update(i as int, AnyCluster::LevelControl(lc)));
                }
                let ghost mid = *self;
                proof {
                    assert(ids_of(s0)[i as int] == s0[i as int].cid());
                    if old(self).hosts(on_off::ID) {
                        let k = choose|k: int|
                            0 <= k < old(self).clusters_spec().len() && (#[trigger] old(self).clusters_spec()[k]).cid()
                                == on_off::ID;
                        lemma_cluster_at(*old(self), k);
                        assert(mid.clusters_spec()[k] == old(self).clusters_spec()[k]);
                        lemma_cluster_at(mid, k);
                    }
                }
                let callbacks = match resp.on_off {
                    Some(b) => self.couple(b),
                    None => Vec::new(),
                };
                proof {
                    assert(ids_of(self.clusters@).len() == ids_of(mid.clusters@).len());
                    assert(ids_of(mid.clusters@)[i as int] == mid.clusters@[i as int].cid());
                    assert(self.clusters@[i as int] == mid.clusters@[i as int]);
                    lemma_cluster_at(*self, i as int);
                }
                CommandStatus { endpoint_id: self.id, status: resp.status, callbacks }
            },
        }
    }

    /// Turns this endpoint's On/Off cluster on or off, as a Level Control command
    /// coupled to it asks; returns the handles of the callbacks to run.
    fn couple(&mut self, on: bool) -> (r: Vec<usize>)
        requires
            old(self).wf(),
        ensures
            final(self).wf(),
            ids_of(final(self).clusters_spec()) == ids_of(old(self).clusters_spec()),
            final(self).ep_id() == old(self).ep_id(),
            final(self).device_type_spec() == old(self).device_type_spec(),
            forall|j: int|
                0 <= j < old(self).clusters_spec().len() && (#[trigger] old(self).clusters_spec()[j]).cid() != on_off::ID
                    ==> final(self).clusters_spec()[j] == old(self).clusters_spec()[j],
            !old(self).hosts(on_off::ID) ==> r@.len() == 0,
            old(self).hosts(on_off::ID) ==> final(self).hosts(on_off::ID) && match (
                old(self).cluster(on_off::ID),
                final(self).cluster(on_off::ID),
            ) {
                (AnyCluster::OnOff(a), AnyCluster::OnOff(b)) => OnOffCluster::commanded(a, b, on_off_command(on))
                    && r@ == matching(a.callbacks_spec(), on_off_command(on)),
                _ => false,
            },
    {
        let i = match self.find(on_off::ID) {
            Some(i) => i,
            None => return Vec::new(),
        };
        let ghost s0 = self.clusters@;
        let c = self.clusters.remove(i);
        match c {
            AnyCluster::OnOff(mut oc) => {
                let resp = oc.handle_command(Some(if on { 0x01 } else { 0x00 }));
                self.clusters.insert(i, AnyCluster::OnOff(oc));
                proof {
                    lemma_replace(s0, i as int, AnyCluster::OnOff(oc));
                    assert(self.clusters@ =~= s0.update(i as int, AnyCluster::OnOff(oc)));
                    lemma_cluster_at(*self, i as int);
                }
                resp.callbacks
            },
            AnyCluster::LevelControl(lc) => {
                self.clusters.insert(i, AnyCluster::LevelControl(lc));
                proof {
                    assert(self.clusters@ =~= s0);
                }
                Vec::new()
            },
        }
    }
}

/// In a well-formed endpoint, the cluster at a position is the one its id names.
proof fn lemma_cluster_at(e: Endpoint, i: int)
    requires
        e.wf(),
        0 <= i < e.clusters_spec().len(),
    ensures
        e.hosts(e.clusters_spec()[i].cid()),
        e.cluster(e.clusters_spec()[i].cid()) == e.clusters_spec()[i],
{
    let cid = e.clusters_spec()[i].cid();
    let j = choose|j: int| 0 <= j < e.clusters_spec().len() && (#[trigger] e.clusters_spec()[j]).cid() == cid;
    if j != i {
        assert(e.clusters_spec()[j].cid() != e.clusters_spec()[i].cid());
    }
}

/// Replacing a cluster by a well-formed one of the same id keeps the ids and the
/// endpoint's well-formedness.
proof fn lemma_replace(s: Seq<AnyCluster>, i: int, c: AnyCluster)
    requires
        0 <= i < s.len(),
        c.cid() == s[i].cid(),
        c.wf(),
        forall|a: int, b: int|
            0 <= a < s.len() && 0 <= b < s.len() && a != b ==> (#[trigger] s[a]).cid() != (#[trigger] s[b]).cid(),
        forall|a: int| 0 <= a < s.len() ==> (#[trigger] s[a]).wf(),
        ascending(s),
    ensures
        ascending(s.update(i, c)),
        ids_of(s.update(i, c)) == ids_of(s),
        forall|a: int, b: int|
            0 <= a < s.len() && 0 <= b < s.len() && a != b ==> (#[trigger] s.update(i, c)[a]).cid() != (#[trigger] s.update(i, c)[b]).cid(),
        forall|a: int| 0 <= a < s.len() ==> (#[trigger] s.update(i, c)[a]).wf(),
{
    let t = s.update(i, c);
    assert(ids_of(t) =~= ids_of(s));
    assert forall|a: int, b: int|
        0 <= a < s.len() && 0 <= b < s.len() && a != b implies (#[trigger] t[a]).cid() != (#[trigger] t[b]).cid() by {
        assert(t[a].cid() == s[a].cid());
        assert(t[b].cid() == s[b].cid());
    }
    assert forall|a: int, b: int| 0 <= a < b < t.len() implies (#[trigger] t[a]).cid() < (#[trigger] t[b]).cid() by {
        assert(t[a].cid() == s[a].cid());
        assert(t[b].cid() == s[b].cid());
    }
}

/// The responses that a wildcard dispatch to cluster `cid` gives over `eps`: one per
/// endpoint that hosts it, in order.
pub open spec fn wildcard(eps: Seq<Endpoint>, cid: u32, req: AccessReq, cmd_id: Option<u32>, data: Seq<TlvElement>) -> Seq<(u16, IMStatusCode, Seq<usize>)>
    decreases eps.len(),
{
    if eps.len() == 0 {
        Seq::empty()
    } else {
        let w = wildcard(eps.drop_last(), cid, req, cmd_id, data);
        let e = eps.last();
        if e.hosts(cid) {
            w.push((e.ep_id(), status_for(e.cluster(cid), req, cmd_id, data), callbacks_for(e, cid, req, cmd_id, data)))
        } else {
            w
        }
    }
}

/// The responses that a dispatch gives over `eps`: for one endpoint, its response or
/// the path error; for none, the wildcard expansion.
pub open spec fn dispatched(
    eps: Seq<Endpoint>,
    endpoint_id: Option<u16>,
    cid: u32,
    req: AccessReq,
    cmd_id: Option<u32>,
    data: Seq<TlvElement>,
) -> Seq<(u16, IMStatusCode, Seq<usize>)> {
    match endpoint_id {
        None => wildcard(eps, cid, req, cmd_id, data),
        Some(e) => if e == 0 || e > eps.len() {
            seq![(e, IMStatusCode::UnsupportedEndpoint, Seq::empty())]
        } else if !eps[e - 1].hosts(cid) {
            seq![(e, IMStatusCode::UnsupportedCluster, Seq::empty())]
        } else {
            seq![(e, status_for(eps[e - 1].cluster(cid), req, cmd_id, data), callbacks_for(eps[e - 1], cid, req, cmd_id, data))]
        },
    }
}

/// The (endpoint id, cluster id) of every cluster in `eps`, endpoint by endpoint.
pub open spec fn paths(eps: Seq<Endpoint>) -> Seq<(u16, u32)>
    decreases eps.len(),
{
    if eps.len() == 0 {
        Seq::empty()
    } else {
        let e = eps.last();
        paths(eps.drop_last()) + e.clusters_spec().map_values(|c: AnyCluster| (e.ep_id(), c.cid()))
    }
}

/// `(e1, c1)` comes strictly before `(e2, c2)` in endpoint-then-cluster order.
pub open spec fn path_before(x: (u16, u32), y: (u16, u32)) -> bool {
    x.0 < y.0 || (x.0 == y.0 && x.1 < y.1)
}

/// Paths over endpoints numbered from 1 in order name endpoints no later than the last.
proof fn lemma_paths_bound(eps: Seq<Endpoint>)
    requires
        forall|i: int| 0 <= i < eps.len() ==> (#[trigger] eps[i]).ep_id() == i + 1,
    ensures
        forall|a: int| 0 <= a < paths(eps).len() ==> 1 <= (#[trigger] paths(eps)[a]).0 <= eps.len(),
    decreases eps.len(),
{
    if eps.len() > 0 {
        let pre = eps.drop_last();
        assert forall|i: int| 0 <= i < pre.len() implies (#[trigger] pre[i]).ep_id() == i + 1 by {
            assert(pre[i] == eps[i]);
        }
        lemma_paths_bound(pre);
        let e = eps.last();
        assert(e == eps[eps.len() - 1]);
        let tail = e.clusters_spec().map_values(|c: AnyCluster| (e.ep_id(), c.cid()));
        assert forall|a: int| 0 <= a < paths(eps).len() implies 1 <= (#[trigger] paths(eps)[a]).0 <= eps.len() by {
            if a >= paths(pre).len() {
                assert(paths(eps)[a] == tail[a - paths(pre).len()]);
            } else {
                assert(paths(eps)[a] == paths(pre)[a]);
            }
        }
    }
}

/// Paths over endpoints numbered from 1 in order, each with ascending cluster ids,
/// come in strictly ascending endpoint-then-cluster order.
proof fn lemma_paths_sorted(eps: Seq<Endpoint>)
    requires
        forall|i: int| 0 <= i < eps.len() ==> (#[trigger] eps[i]).ep_id() == i + 1 && ascending(eps[i].clusters_spec()),
    ensures
        forall|a: int, b: int| 0 <= a < b < paths(eps).len() ==> path_before(#[trigger] paths(eps)[a], #[trigger] paths(eps)[b]),
    decreases eps.len(),
{
    if eps.len() > 0 {
        let pre = eps.drop_last();
        assert forall|i: int| 0 <= i < pre.len() implies (#[trigger] pre[i]).ep_id() == i + 1 && ascending(pre[i].clusters_spec()) by {
            assert(pre[i] == eps[i]);
        }
        lemma_paths_sorted(pre);
        lemma_paths_bound(pre);
        let e = eps.last();
        assert(e == eps[eps.len() - 1]);
        let n = paths(pre).len();
        let tail = e.clusters_spec().map_values(|c: AnyCluster| (e.ep_id(), c.cid()));
        let all = paths(eps);
        assert(all == paths(pre) + tail);
        assert forall|a: int, b: int| 0 <= a < b < all.len() implies path_before(#[trigger] all[a], #[trigger] all[b]) by {
            if b < n {
                assert(all[a] == paths(pre)[a]);
                assert(all[b] == paths(pre)[b]);
            } else if a < n {
                assert(all[a] == paths(pre)[a]);
                assert(all[b] == tail[b - n]);
                assert(paths(pre)[a].0 <= pre.len());
            } else {
                assert(all[a] == tail[a - n]);
                assert(all[b] == tail[b - n]);
                assert(e.clusters_spec()[a - n].cid() < e.clusters_spec()[b - n].cid());
            }
        }
    }
}

/// The paths of a well-formed node come in strictly ascending order of endpoint id,
/// then cluster id.
pub proof fn lemma_cluster_paths_ascend(n: Node)
    requires
        n.wf(),
    ensures
        forall|a: int, b: int|
            0 <= a < b < paths(n.endpoints_spec()).len() ==> path_before(
                #[trigger] paths(n.endpoints_spec())[a],
                #[trigger] paths(n.endpoints_spec())[b],
            ),
{
    lemma_paths_sorted(n.endpoints_spec());
}

/// What reading attribute `attr_id` of cluster `cid` on endpoint `endpoint_id` returns.
pub open spec fn attr_read(eps: Seq<Endpoint>, req: AccessReq, endpoint_id: u16, cid: u32, attr_id: u16) -> Result<TlvElement, IMStatusCode> {
    if endpoint_id == 0 || endpoint_id > eps.len() {
        Err(IMStatusCode::UnsupportedEndpoint)
    } else if !eps[endpoint_id - 1].hosts(cid) {
        Err(IMStatusCode::UnsupportedCluster)
    } else {
        eps[endpoint_id - 1].cluster(cid).read_result(req, attr_id)
    }
}

/// The endpoint, status and callback handles of each response.
pub open spec fn responses(r: Seq<CommandStatus>) -> Seq<(u16, IMStatusCode, Seq<usize>)> {
    r.map_values(|x: CommandStatus| (x.endpoint_id, x.status, x.callbacks@))
}

/// The root of the data model: its endpoints, numbered from 1 in the order added.
pub struct Node {
    endpoints: Vec<Endpoint>,
}

impl Node {
    /// The endpoints, in the order added.
    pub closed spec fn endpoints_spec(&self) -> Seq<Endpoint> {
        self.endpoints@
    }

    /// Endpoint `i` (from 0) has id `i + 1`, each is well formed, and there are at most 16.
    pub open spec fn wf(&self) -> bool {
        let s = self.endpoints_spec();
        &&& s.len() <= MAX_ENDPOINTS
        &&& forall|i: int| 0 <= i < s.len() ==> (#[trigger] s[i]).ep_id() == i + 1 && s[i].wf()
    }

    /// An empty node.
    pub fn new() -> (r: Node)
        ensures
            r.wf(),
            r.endpoints_spec().len() == 0,
    {
        Node { endpoints: Vec::new() }
    }

    /// Adds an empty endpoint with the next id, which it returns; fails once 16 are there.
    pub fn add_endpoint(&mut self, device_type: DeviceType) -> (r: Result<u16, Error>)
        requires
            old(self).wf(),
        ensures
            final(self).wf(),
            old(self).endpoints_spec().len() >= MAX_ENDPOINTS ==> r == Err::<u16, Error>(Error::TooManyEndpoints)
                && *final(self) == *old(self),
            old(self).endpoints_spec().len() < MAX_ENDPOINTS ==> r == Ok::<u16, Error>((old(self).endpoints_spec().len() + 1) as u16)
                && final(self).endpoints_spec().len() == old(self).endpoints_spec().len() + 1
                && final(self).endpoints_spec().subrange(0, old(self).endpoints_spec().len() as int) == old(self).endpoints_spec()
                && final(self).endpoints_spec().last().device_type_spec() == device_type
                && final(self).endpoints_spec().last().clusters_spec().len() == 0,
    {
        if self.endpoints.len() >= MAX_ENDPOINTS {
            return Err(Error::TooManyEndpoints);
        }
        let id = (self.endpoints.len() + 1) as u16;
        self.endpoints.push(Endpoint { id, device_type, clusters: Vec::new() });
        proof {
            assert(self.endpoints@.subrange(0, old(self).endpoints@.len() as int) =~= old(self).endpoints@);
            let s = self.endpoints_spec();
            assert forall|i: int| 0 <= i < s.len() implies (#[trigger] s[i]).ep_id() == i + 1 && s[i].wf() by {
                if i < s.len() - 1 {
                    assert(s[i] == old(self).endpoints_spec()[i]);
                }
            }
        }
        Ok(id)
    }

    /// Adds a cluster to endpoint `endpoint_id`. Fails with `NoEndpoint` on an id
    /// that no endpoint has, `DuplicateCluster` when the endpoint hosts one of the
    /// same id and `TooManyClusters` when it holds 16.
    pub fn add_cluster(&mut self, endpoint_id: u16, cluster: AnyCluster) -> (r: Result<(), Error>)
        requires
            old(self).wf(),
            cluster.wf(),
        ensures
            final(self).wf(),
            r is Err ==> *final(self) == *old(self),
            endpoint_id == 0 || endpoint_id > old(self).endpoints_spec().len() ==> r == Err::<(), Error>(Error::NoEndpoint),
            1 <= endpoint_id <= old(self).endpoints_spec().len() ==> ({
                let e = old(self).endpoints_spec()[endpoint_id - 1];
                &&& e.hosts(cluster.cid()) ==> r == Err::<(), Error>(Error::DuplicateCluster)
                &&& !e.hosts(cluster.cid()) && e.clusters_spec().len() >= MAX_CLUSTERS ==> r == Err::<(), Error>(Error::TooManyClusters)
                &&& !e.hosts(cluster.cid()) && e.clusters_spec().len() < MAX_CLUSTERS ==> r is Ok
                    && final(self).endpoints_spec() == old(self).endpoints_spec().update(
                        endpoint_id - 1,
                        final(self).endpoints_spec()[endpoint_id - 1],
                    )
                    && exists|p: int|
                        0 <= p <= e.clusters_spec().len() && final(self).endpoints_spec()[endpoint_id - 1].clusters_spec()
                            == e.clusters_spec().insert(p, cluster)
                    && final(self).endpoints_spec()[endpoint_id - 1].ep_id() == e.ep_id()
                    && final(self).endpoints_spec()[endpoint_id - 1].device_type_spec() == e.device_type_spec()
            }),
    {
        if endpoint_id == 0 || endpoint_id as usize > self.endpoints.len() {
            return Err(Error::NoEndpoint);
        }
        let i = (endpoint_id - 1) as usize;
        if self.endpoints[i].find(cluster.id()).is_some() {
            return Err(Error::DuplicateCluster);
        }
        if self.endpoints[i].clusters.len() >= MAX_CLUSTERS {
            return Err(Error::TooManyClusters);
        }
        let ghost s0 = self.endpoints@;
        let mut e = self.endpoints.remove(i);
        let ghost c0 = e.clusters@;
        let cid = cluster.id();
        let mut p: usize = 0;
        while p < e.clusters.len() && e.clusters[p].id() < cid
            invariant
                p <= c0.len(),
                e.clusters@ == c0,
                forall|j: int| 0 <= j < p ==> (#[trigger] c0[j]).cid() < cid,
            decreases c0.len() - p,
        {
            p = p + 1;
        }
        proof {
            assert forall|j: int| 0 <= j < c0.len() implies (#[trigger] c0[j]).cid() != cid by {
                assert(!e.hosts(cid));
            }
        }
        e.clusters.insert(p, cluster);
        proof {
            let c = e.clusters@;
            assert(c == c0.insert(p as int, cluster));
            assert forall|a: int| 0 <= a < c.len() implies (#[trigger] c[a]).cid() == (if a < p {
                c0[a].cid()
            } else if a == p {
                cid
            } else {
                c0[a - 1].cid()
            }) && c[a].wf() by {
                if a > p {
                    assert(c[a] == c0[a - 1]);
                }
            }
            assert forall|a: int, b: int| 0 <= a < b < c.len() implies (#[trigger] c[a]).cid() < (#[trigger] c[b]).cid() by {
                assert(c[a].cid() == (if a < p { c0[a].cid() } else if a == p { cid } else { c0[a - 1].cid() }));
                assert(c[b].cid() == (if b < p { c0[b].cid() } else if b == p { cid } else { c0[b - 1].cid() }));
                if a > p {
                    assert(c0[a - 1].cid() < c0[b - 1].cid());
                } else if a == p && b > p {
                    if b - 1 > p {
                        assert(c0[p as int].cid() < c0[b - 1].cid());
                    }
                    assert(c0[p as int].cid() >= cid);
                } else if a < p && b > p {
                    assert(c0[a].cid() < c0[b - 1].cid());
                }
            }
            assert forall|a: int, b: int|
                0 <= a < c.len() && 0 <= b < c.len() && a != b implies (#[trigger] c[a]).cid() != (#[trigger] c[b]).cid() by {
                if a < b {
                    assert(c[a].cid() < c[b].cid());
                } else {
                    assert(c[b].cid() < c[a].cid());
                }
            }
        }
        self.endpoints.insert(i, e);
        proof {
            assert(self.endpoints@ =~= s0.update(i as int, e));
        }
        Ok(())
    }

    /// Endpoint `endpoint_id`, if the node has it.
    pub fn endpoint(&self, endpoint_id: u16) -> (r: Option<&Endpoint>)
        requires
            self.wf(),
        ensures
            endpoint_id == 0 || endpoint_id > self.endpoints_spec().len() ==> r is None,
            1 <= endpoint_id <= self.endpoints_spec().len() ==> r == Some(&self.endpoints_spec()[endpoint_id - 1]),
    {
        if endpoint_id == 0 || endpoint_id as usize > self.endpoints.len() {
            None
        } else {
            Some(&self.endpoints[(endpoint_id - 1) as usize])
        }
    }

    /// Cluster `cluster_id` on endpoint `endpoint_id`: `NoEndpoint` or `NotFound` where missing.
    pub fn get_cluster(&self, endpoint_id: u16, cluster_id: u32) -> (r: Result<&AnyCluster, Error>)
        requires
            self.wf(),
        ensures
            endpoint_id == 0 || endpoint_id > self.endpoints_spec().len() ==> r == Err::<&AnyCluster, Error>(Error::NoEndpoint),
            1 <= endpoint_id <= self.endpoints_spec().len() ==> ({
                let e = self.endpoints_spec()[endpoint_id - 1];
                &&& e.hosts(cluster_id) ==> r == Ok::<&AnyCluster, Error>(&e.cluster(cluster_id))
                &&& !e.hosts(cluster_id) ==> r == Err::<&AnyCluster, Error>(Error::NotFound)
            }),
    {
        if endpoint_id == 0 || endpoint_id as usize > self.endpoints.len() {
            return Err(Error::NoEndpoint);
        }
        let e = &self.endpoints[(endpoint_id - 1) as usize];
        match e.find(cluster_id) {
            Some(i) => Ok(&e.clusters[i]),
            None => Err(Error::NotFound),
        }
    }

    /// Hands the On/Off cluster of endpoint `endpoint_id` a state reported by a
    /// peripheral; `NoEndpoint` or `NotFound` where the path does not resolve.
    pub fn push_on_off_state(&mut self, endpoint_id: u16, state: bool) -> (r: Result<(), Error>)
        requires
            old(self).wf(),
        ensures
            final(self).wf(),
            r is Err ==> *final(self) == *old(self),
            endpoint_id == 0 || endpoint_id > old(self).endpoints_spec().len() ==> r == Err::<(), Error>(Error::NoEndpoint),
            1 <= endpoint_id <= old(self).endpoints_spec().len() && !old(self).endpoints_spec()[endpoint_id - 1].hosts(on_off::ID)
                ==> r == Err::<(), Error>(Error::NotFound),
            1 <= endpoint_id <= old(self).endpoints_spec().len() && old(self).endpoints_spec()[endpoint_id - 1].hosts(on_off::ID)
                ==> r is Ok && ({
                    let a = old(self).endpoints_spec()[endpoint_id - 1];
                    let b = final(self).endpoints_spec()[endpoint_id - 1];
                    &&& b.ep_id() == a.ep_id()
                    &&& b.device_type_spec() == a.device_type_spec()
                    &&& b.clusters_spec().len() == a.clusters_spec().len()
                    &&& b.hosts(on_off::ID)
                    &&& forall|k: int|
                        0 <= k < a.clusters_spec().len() && (#[trigger] a.clusters_spec()[k]).cid() != on_off::ID
                            ==> b.clusters_spec()[k] == a.clusters_spec()[k]
                    &&& match (a.cluster(on_off::ID), b.cluster(on_off::ID)) {
                        (AnyCluster::OnOff(x), AnyCluster::OnOff(y)) => {
                            &&& y.base_spec() == x.base_spec()
                            &&& y.callbacks_spec() == x.callbacks_spec()
                            &&& y.shared() == (UpdateData { on_off: state, is_fresh: true })
                        },
                        _ => false,
                    }
                }),
            final(self).endpoints_spec().len() == old(self).endpoints_spec().len(),
            forall|j: int|
                0 <= j < old(self).endpoints_spec().len() && j != endpoint_id - 1 ==> #[trigger] final(self).endpoints_spec()[j]
                    == old(self).endpoints_spec()[j],
    {
        if endpoint_id == 0 || endpoint_id as usize > self.endpoints.len() {
            return Err(Error::NoEndpoint);
        }
        let i = (endpoint_id - 1) as usize;
        let k = match self.endpoints[i].find(on_off::ID) {
            Some(k) => k,
            None => return Err(Error::NotFound),
        };
        let ghost s0 = self.endpoints@;
        let mut e = self.endpoints.remove(i);
        let ghost c0 = e.clusters@;
        let ghost e0 = e;
        proof {
            lemma_cluster_at(e0, k as int);
        }
        let c = e.clusters.remove(k);
        match c {
            AnyCluster::OnOff(mut oc) => {
                oc.push_state(state);
                e.clusters.insert(k, AnyCluster::OnOff(oc));
                proof {
                    lemma_replace(c0, k as int, AnyCluster::OnOff(oc));
                    assert(e.clusters@ =~= c0.update(k as int, AnyCluster::OnOff(oc)));
                    assert(e.clusters_spec()[k as int].cid() == on_off::ID);
                    lemma_cluster_at(e, k as int);
                    assert(ids_of(c0)[k as int] == c0[k as int].cid());
                }
            },
            AnyCluster::LevelControl(lc) => {
                e.clusters.insert(k, AnyCluster::LevelControl(lc));
                assert(e.clusters@ =~= c0);
            },
        }
        self.endpoints.insert(i, e);
        proof {
            assert(self.endpoints@ =~= s0.update(i as int, e));
        }
        Ok(())
    }

    /// Collects the dirty marks of every cluster as (endpoint id, cluster id,
    /// attribute id), endpoint by endpoint and cluster by cluster; each cluster is
    /// left as it was, with no marks.
    pub fn take_dirty(&mut self) -> (r: Vec<(u16, u32, u16)>)
        requires
            old(self).wf(),
        ensures
            r@ == dirty_paths(old(self).endpoints_spec()),
            final(self).wf(),
            final(self).endpoints_spec().len() == old(self).endpoints_spec().len(),
            forall|i: int| 0 <= i < old(self).endpoints_spec().len() ==> {
                let a = #[trigger] old(self).endpoints_spec()[i];
                let b = final(self).endpoints_spec()[i];
                &&& b.device_type_spec() == a.device_type_spec()
                &&& b.clusters_spec().len() == a.clusters_spec().len()
                &&& forall|k: int| 0 <= k < a.clusters_spec().len() ==> cleaned(
                    #[trigger] a.clusters_spec()[k],
                    b.clusters_spec()[k],
                )
            },
    {
        let ghost s0 = self.endpoints@;
        let mut r: Vec<(u16, u32, u16)> = Vec::new();
        let mut i: usize = 0;
        while i < self.endpoints.len()
            invariant
                self.wf(),
                s0 == old(self).endpoints@,
                self.endpoints@.len() == s0.len(),
                i <= s0.len(),
                forall|j: int| i <= j < s0.len() ==> #[trigger] self.endpoints@[j] == s0[j],
                forall|j: int| 0 <= j < i ==> {
                    let a = #[trigger] s0[j];
                    let b = self.endpoints@[j];
                    &&& b.device_type_spec() == a.device_type_spec()
                    &&& b.clusters_spec().len() == a.clusters_spec().len()
                    &&& forall|k: int| 0 <= k < a.clusters_spec().len() ==> cleaned(
                        #[trigger] a.clusters_spec()[k],
                        b.clusters_spec()[k],
                    )
                },
                r@ == dirty_paths(s0.subrange(0, i as int)),
            decreases s0.len() - i,
        {
            let ghost before = self.endpoints@;
            let mut e = self.endpoints.remove(i);
            let mut got = e.take_dirty();
            self.endpoints.insert(i, e);
            proof {
                assert(self.endpoints@ =~= before.update(i as int, e));
                assert(s0.subrange(0, i + 1).drop_last() =~= s0.subrange(0, i as int));
                assert(s0.subrange(0, i + 1).last() == s0[i as int]);
            }
            r.append(&mut got);
            i = i + 1;
        }
        assert(s0.subrange(0, i as int) =~= s0);
        r
    }

    /// Reads attribute `attr_id` of cluster `cluster_id` on endpoint `endpoint_id`.
    pub fn read_attribute(&self, req: &AccessReq, endpoint_id: u16, cluster_id: u32, attr_id: u16) -> (r: Result<TlvElement, IMStatusCode>)
        requires
            self.wf(),
        ensures
            r == attr_read(self.endpoints_spec(), *req, endpoint_id, cluster_id, attr_id),
    {
        match self.get_cluster(endpoint_id, cluster_id) {
            Err(Error::NoEndpoint) => Err(IMStatusCode::UnsupportedEndpoint),
            Err(_) => Err(IMStatusCode::UnsupportedCluster),
            Ok(c) => c.read_attribute(req, attr_id),
        }
    }

    /// Writes `t` to attribute `attr_id` of cluster `cluster_id` on endpoint
    /// `endpoint_id`: `UnsupportedEndpoint` or `UnsupportedCluster` where the path
    /// does not resolve, else as the cluster's write.
    pub fn write_attribute(
        &mut self,
        req: &AccessReq,
        endpoint_id: u16,
        cluster_id: u32,
        attr_id: u16,
        t: &TlvElement,
    ) -> (r: Result<(), IMStatusCode>)
        requires
            old(self).wf(),
        ensures
            final(self).wf(),
            r is Err ==> *final(self) == *old(self),
            endpoint_id == 0 || endpoint_id > old(self).endpoints_spec().len() ==> r == Err::<(), IMStatusCode>(
                IMStatusCode::UnsupportedEndpoint,
            ),
            1 <= endpoint_id <= old(self).endpoints_spec().len() ==> ({
                let e = old(self).endpoints_spec()[endpoint_id - 1];
                let b = e.cluster(cluster_id).base_of();
                &&& !e.hosts(cluster_id) ==> r == Err::<(), IMStatusCode>(IMStatusCode::UnsupportedCluster)
                &&& e.hosts(cluster_id) ==> (r is Ok <==> b.write_result(*req, attr_id, *t) is Ok)
                &&& e.hosts(cluster_id) && r is Err ==> r->Err_0 == b.write_result(*req, attr_id, *t)->Err_0
                &&& e.hosts(cluster_id) && r is Ok ==> Cluster::written(
                    b,
                    final(self).endpoints_spec()[endpoint_id - 1].cluster(cluster_id).base_of(),
                    attr_id,
                    b.write_result(*req, attr_id, *t)->Ok_0,
                )
                &&& forall|j: int| 0 <= j < old(self).endpoints_spec().len() && j != endpoint_id - 1
                    ==> #[trigger] final(self).endpoints_spec()[j] == old(self).endpoints_spec()[j]
            }),
    {
        if endpoint_id == 0 || endpoint_id as usize > self.endpoints.len() {
            return Err(IMStatusCode::UnsupportedEndpoint);
        }
        let i = (endpoint_id - 1) as usize;
        let k = match self.endpoints[i].find(cluster_id) {
            Some(k) => k,
            None => return Err(IMStatusCode::UnsupportedCluster),
        };
        if let Err(err) = self.endpoints[i].clusters[k].base().check_write(req, attr_id, t) {
            return Err(err);
        }
        let ghost s0 = self.endpoints@;
        let mut e = self.endpoints.remove(i);
        let ghost c0 = e.clusters@;
        let mut c = e.clusters.remove(k);
        let r = c.write_attribute(req, attr_id, t);
        e.clusters.insert(k, c);
        proof {
            lemma_replace(c0, k as int, c);
            assert(e.clusters@ =~= c0.update(k as int, c));
            lemma_cluster_at(e, k as int);
        }
        self.endpoints.insert(i, e);
        proof {
            assert(self.endpoints@ =~= s0.update(i as int, e));
        }
        r
    }

    /// Every (endpoint id, cluster id) the node hosts, in ascending endpoint and
    /// then cluster order.
    pub fn cluster_paths(&self) -> (r: Vec<(u16, u32)>)
        requires
            self.wf(),
        ensures
            r@ == paths(self.endpoints_spec()),
    {
        let mut r: Vec<(u16, u32)> = Vec::new();
        let mut i: usize = 0;
        while i < self.endpoints.len()
            invariant
                i <= self.endpoints@.len(),
                r@ == paths(self.endpoints@.subrange(0, i as int)),
            decreases self.endpoints@.len() - i,
        {
            let e = &self.endpoints[i];
            let ghost start = r@;
            let mut k: usize = 0;
            while k < e.clusters.len()
                invariant
                    k <= e.clusters@.len(),
                    r@ == start + e.clusters@.subrange(0, k as int).map_values(|c: AnyCluster| (e.id, c.cid())),
                decreases e.clusters@.len() - k,
            {
                r.push((e.id, e.clusters[k].id()));
                proof {
                    assert(e.clusters@.subrange(0, k + 1).map_values(|c: AnyCluster| (e.id, c.cid())) =~= e.clusters@.subrange(
                        0,
                        k as int,
                    ).map_values(|c: AnyCluster| (e.id, c.cid())).push((e.id, e.clusters@[k as int].cid())));
                }
                k = k + 1;
            }
            proof {
                assert(e.clusters@.subrange(0, k as int) =~= e.clusters@);
                assert(self.endpoints@.subrange(0, i + 1).drop_last() =~= self.endpoints@.subrange(0, i as int));
            }
            i = i + 1;
        }
        assert(self.endpoints@.subrange(0, i as int) =~= self.endpoints@);
        r
    }

    /// Handles the command on endpoint `i` (from 0), which hosts the cluster.
    fn handle_at(&mut self, i: usize, cid: u32, req: &AccessReq, cmd_id: Option<u32>, data: &Vec<TlvElement>) -> (r: CommandStatus)
        requires
            old(self).wf(),
            i < old(self).endpoints_spec().len(),
            old(self).endpoints_spec()[i as int].hosts(cid),
        ensures
            final(self).wf(),
            final(self).endpoints_spec().len() == old(self).endpoints_spec().len(),
            forall|j: int| 0 <= j < old(self).endpoints_spec().len() && j != i ==> #[trigger] final(self).endpoints_spec()[j]
                == old(self).endpoints_spec()[j],
            r.endpoint_id == old(self).endpoints_spec()[i as int].ep_id(),
            r.status == status_for(old(self).endpoints_spec()[i as int].cluster(cid), *req, cmd_id, data@),
            r.callbacks@ == callbacks_for(old(self).endpoints_spec()[i as int], cid, *req, cmd_id, data@),
            endpoint_effect(old(self).endpoints_spec()[i as int], final(self).endpoints_spec()[i as int], cid, *req, cmd_id, data@),
    {
        let ghost s0 = self.endpoints@;
        let mut e = self.endpoints.remove(i);
        let r = e.handle(cid, req, cmd_id, data);
        self.endpoints.insert(i, e);
        proof {
            assert(self.endpoints@ =~= s0.update(i as int, e));
        }
        r
    }

    /// Routes a command to cluster `cluster_id`: on endpoint `endpoint_id` when given,
    /// else on every endpoint that hosts the cluster, in ascending endpoint order.
    /// Each resolved endpoint gives one response: `UnsupportedEndpoint` or
    /// `UnsupportedCluster` where the path does not resolve, else the cluster's own
    /// status with the handles of the On/Off callbacks to run.
    pub fn dispatch(
        &mut self,
        req: &AccessReq,
        endpoint_id: Option<u16>,
        cluster_id: u32,
        cmd_id: Option<u32>,
        data: &Vec<TlvElement>,
    ) -> (r: Vec<CommandStatus>)
        requires
            old(self).wf(),
        ensures
            final(self).wf(),
            responses(r@) == dispatched(old(self).endpoints_spec(), endpoint_id, cluster_id, *req, cmd_id, data@),
            final(self).endpoints_spec().len() == old(self).endpoints_spec().len(),
            forall|j: int|
                0 <= j < old(self).endpoints_spec().len() && (endpoint_id is None || endpoint_id == Some((j + 1) as u16))
                    && #[trigger] old(self).endpoints_spec()[j].hosts(cluster_id) ==> endpoint_effect(
                    old(self).endpoints_spec()[j],
                    final(self).endpoints_spec()[j],
                    cluster_id,
                    *req,
                    cmd_id,
                    data@,
                ),
            forall|j: int|
                0 <= j < old(self).endpoints_spec().len() && !(endpoint_id is None || endpoint_id == Some((j + 1) as u16))
                    ==> #[trigger] final(self).endpoints_spec()[j] == old(self).endpoints_spec()[j],
            forall|j: int|
                0 <= j < old(self).endpoints_spec().len() && !old(self).endpoints_spec()[j].hosts(cluster_id)
                    ==> #[trigger] final(self).endpoints_spec()[j] == old(self).endpoints_spec()[j],
    {
        let mut r: Vec<CommandStatus> = Vec::new();
        match endpoint_id {
            Some(e) => {
                if e == 0 || e as usize > self.endpoints.len() {
                    r.push(CommandStatus { endpoint_id: e, status: IMStatusCode::UnsupportedEndpoint, callbacks: Vec::new() });
                } else if self.endpoints[(e - 1) as usize].find(cluster_id).is_none() {
                    r.push(CommandStatus { endpoint_id: e, status: IMStatusCode::UnsupportedCluster, callbacks: Vec::new() });
                } else {
                    let c = self.handle_at((e - 1) as usize, cluster_id, req, cmd_id, data);
                    r.push(c);
                }
                assert(responses(r@) =~= dispatched(old(self).endpoints_spec(), endpoint_id, cluster_id, *req, cmd_id, data@));
            },
            None => {
                let mut i: usize = 0;
                while i < self.endpoints.len()
                    invariant
                        self.wf(),
                        i <= self.endpoints_spec().len(),
                        self.endpoints_spec().len() == old(self).endpoints_spec().len(),
                        forall|j: int| i <= j < self.endpoints_spec().len() ==> #[trigger] self.endpoints_spec()[j]
                            == old(self).endpoints_spec()[j],
                        responses(r@) == wildcard(old(self).endpoints_spec().subrange(0, i as int), cluster_id, *req, cmd_id, data@),
                        endpoint_id is None,
                        forall|j: int|
                            0 <= j < i && #[trigger] old(self).endpoints_spec()[j].hosts(cluster_id) ==> endpoint_effect(
                                old(self).endpoints_spec()[j],
                                self.endpoints_spec()[j],
                                cluster_id,
                                *req,
                                cmd_id,
                                data@,
                            ),
                        forall|j: int|
                            0 <= j < i && !old(self).endpoints_spec()[j].hosts(cluster_id) ==> #[trigger] self.endpoints_spec()[j]
                                == old(self).endpoints_spec()[j],
                    decreases self.endpoints_spec().len() - i,
                {
                    let ghost olds = old(self).endpoints_spec();
                    proof {
                        assert(olds.subrange(0, i + 1).drop_last() =~= olds.subrange(0, i as int));
                    }
                    if self.endpoints[i].find(cluster_id).is_some() {
                        let c = self.handle_at(i, cluster_id, req, cmd_id, data);
                        r.push(c);
                        assert(responses(r@) =~= wildcard(olds.subrange(0, i + 1), cluster_id, *req, cmd_id, data@));
                    }
                    i = i + 1;
                }
                assert(old(self).endpoints_spec().subrange(0, i as int) =~= old(self).endpoints_spec());
            },
        }
        r
    }
}

} // verus!
