use vstd::prelude::*;

use crate::access::{rank, AccessReq, Privilege};
use crate::attribute::{
    consistent, has_bits16, has_bits8, AttrValue, Attribute, ACCESS_READ, ACCESS_RV, ACCESS_WRITE,
    QUALITY_FIXED,
    QUALITY_PERSISTENT,
};
use crate::callbacks::matching;
use crate::cluster::{lemma_lookup, lemma_lookup_push, Cluster, ATTR_CLUSTER_REVISION, ATTR_FEATURE_MAP};
use crate::error::{Error, IMStatusCode};
use crate::tlv::TlvElement;

verus! {

/// Cluster id of On/Off.
pub const ID: u32 = 0x0006;
/// Attribute id of `OnOff`.
pub const ATTR_ON_OFF: u16 = 0x0000;

/// Attributes of the On/Off cluster.
#[derive(Debug, Clone, Copy, PartialEq, Eq, Structural)]
pub enum Attributes {
    OnOff,
}

impl Attributes {
    /// The attribute's id.
    pub fn id(self) -> (r: u16)
        ensures
            r == ATTR_ON_OFF,
    {
        ATTR_ON_OFF
    }
}

/// Commands of the On/Off cluster.
#[derive(Debug, Clone, Copy, PartialEq, Eq, Structural)]
pub enum Commands {
    Off,
    On,
    Toggle,
}

/// The command that a command id names, if any.
pub open spec fn command_of(id: u32) -> Option<Commands> {
    if id == 0x00 {
        Some(Commands::Off)
    } else if id == 0x01 {
        Some(Commands::On)
    } else if id == 0x02 {
        Some(Commands::Toggle)
    } else {
        None
    }
}

impl Commands {
    /// The command that `id` names: 0x00 Off, 0x01 On, 0x02 Toggle.
    pub fn from_u32(id: u32) -> (r: Option<Commands>)
        ensures
            r == command_of(id),
    {
        if id == 0x00 {
            Some(Commands::Off)
        } else if id == 0x01 {
            Some(Commands::On)
        } else if id == 0x02 {
            Some(Commands::Toggle)
        } else {
            None
        }
    }
}

/// The state that a command leaves `OnOff` in.
pub open spec fn next_on_off(b: bool, cmd: Commands) -> bool {
    match cmd {
        Commands::Off => false,
        Commands::On => true,
        Commands::Toggle => !b,
    }
}

/// The `OnOff` attribute as the cluster starts with it: false, persistent, readable with View.
pub open spec fn on_off_attr(b: bool) -> Attribute {
    Attribute { id: ATTR_ON_OFF, value: AttrValue::Bool(b), access: ACCESS_RV, quality: QUALITY_PERSISTENT }
}

/// Builds the `OnOff` attribute, false at first.
fn attr_on_off_new() -> (r: Result<Attribute, Error>)
    ensures
        r == Ok::<Attribute, Error>(on_off_attr(false)),
{
    assert(consistent(ACCESS_RV, QUALITY_PERSISTENT)) by (bit_vector);
    Attribute::new(ATTR_ON_OFF, AttrValue::Bool(false), ACCESS_RV, QUALITY_PERSISTENT)
}

/// State pushed by a peripheral (a physical switch), newer than the attribute while fresh.
#[derive(Debug, Clone, Copy, PartialEq, Eq, Structural)]
pub struct UpdateData {
    pub on_off: bool,
    pub is_fresh: bool,
}

impl UpdateData {
    /// Records a state reported by the peripheral and marks it fresh.
    pub fn update_state(&mut self, state: bool)
        ensures
            *final(self) == (UpdateData { on_off: state, is_fresh: true }),
    {
        self.on_off = state;
        self.is_fresh = true;
    }
}

/// What a command handler hands back: the status, and the callbacks to run, by
/// the handle that `add_callback` gave them, in the order they were added.
#[derive(Debug, Clone, PartialEq, Eq)]
pub struct OnOffResponse {
    pub status: IMStatusCode,
    pub callbacks: Vec<usize>,
}

/// The On/Off cluster.
///
/// Besides its attributes it holds the state last reported by a peripheral.
/// While that state is fresh, reads of `OnOff` return it. Handling a command
/// clears the freshness: the stored attribute then holds the newest state.
pub struct OnOffCluster {
    base: Cluster,
    callbacks: Vec<Commands>,
    update_state: UpdateData,
}

impl OnOffCluster {
    /// The base cluster.
    pub closed spec fn base_spec(&self) -> Cluster {
        self.base
    }

    /// The command each registered callback is for, in the order registered.
    pub closed spec fn callbacks_spec(&self) -> Seq<Commands> {
        self.callbacks@
    }

    /// The state last pushed by the peripheral.
    pub closed spec fn shared(&self) -> UpdateData {
        self.update_state
    }

    /// The stored `OnOff` attribute.
    pub open spec fn on_off(&self) -> bool {
        match self.base_spec().value(ATTR_ON_OFF) {
            Some(AttrValue::Bool(b)) => b,
            _ => false,
        }
    }

    /// The base is well formed and holds `OnOff` as a persistent, readable boolean.
    pub open spec fn wf(&self) -> bool {
        &&& self.base_spec().wf()
        &&& self.base_spec().cluster_id() == ID
        &&& self.base_spec().get(ATTR_ON_OFF) == Some(on_off_attr(self.on_off()))
    }

    /// What reading attribute `id` returns: while the peripheral's state is fresh,
    /// `OnOff` reads as that state.
    pub open spec fn read_result(&self, req: AccessReq, id: u16) -> Result<TlvElement, IMStatusCode> {
        let base = self.base_spec().read_result(req, id);
        if id == ATTR_ON_OFF && base is Ok && self.shared().is_fresh {
            Ok(TlvElement::Bool(self.shared().on_off))
        } else {
            base
        }
    }

    /// `new` is `old` after a command `cmd` that it knows: `OnOff` holds the command's
    /// result, written only if it changed (or always, for Toggle), and the
    /// peripheral's state is no longer fresh.
    pub open spec fn commanded(old: OnOffCluster, new: OnOffCluster, cmd: Commands) -> bool {
        let b = next_on_off(old.on_off(), cmd);
        &&& new.wf()
        &&& new.on_off() == b
        &&& new.callbacks_spec() == old.callbacks_spec()
        &&& new.shared() == (UpdateData { on_off: old.shared().on_off, is_fresh: false })
        &&& if b == old.on_off() && cmd != Commands::Toggle {
            new.base_spec() == old.base_spec()
        } else {
            Cluster::written(old.base_spec(), new.base_spec(), ATTR_ON_OFF, AttrValue::Bool(b))
        }
    }

    /// A cluster with `OnOff` false, no callbacks and no fresh peripheral state.
    pub fn new() -> (r: Result<Box<OnOffCluster>, Error>)
        ensures
            r is Ok,
            r->Ok_0.wf(),
            r->Ok_0.on_off() == false,
            r->Ok_0.callbacks_spec().len() == 0,
            r->Ok_0.shared() == (UpdateData { on_off: false, is_fresh: false }),
            r->Ok_0.base_spec().attrs() == seq![
                Attribute {
                    id: ATTR_FEATURE_MAP,
                    value: AttrValue::Uint32(0),
                    access: ACCESS_RV,
                    quality: QUALITY_FIXED,
                },
                Attribute {
                    id: ATTR_CLUSTER_REVISION,
                    value: AttrValue::Uint16(1),
                    access: ACCESS_RV,
                    quality: QUALITY_FIXED,
                },
                on_off_attr(false),
            ],
            r->Ok_0.base_spec().dirty_ids().len() == 0,
    {
        let mut base = Cluster::new(ID);
        let a = attr_on_off_new()?;
        let ghost before = base.attrs();
        proof {
            lemma_lookup(before, ATTR_ON_OFF);
            assert(before[0].id != ATTR_ON_OFF && before[1].id != ATTR_ON_OFF);
        }
        assert(consistent(ACCESS_RV, QUALITY_PERSISTENT)) by (bit_vector);
        base.add_attribute(a)?;
        proof {
            lemma_lookup_push(before, a, ATTR_ON_OFF);
        }
        Ok(
            Box::new(
                OnOffCluster {
                    base,
                    callbacks: Vec::new(),
                    update_state: UpdateData { on_off: false, is_fresh: false },
                },
            ),
        )
    }
    /// The base cluster.
    pub fn base(&self) -> (r: &Cluster)
        ensures
            *r == self.base_spec(),
    {
        &self.base
    }

    /// Registers a callback for `cmd`; the handle returned is its position among the callbacks.
    pub fn add_callback(&mut self, cmd: Commands) -> (r: usize)
        requires
            old(self).callbacks_spec().len() < usize::MAX,
        ensures
            r == old(self).callbacks_spec().len(),
            final(self).callbacks_spec() == old(self).callbacks_spec().push(cmd),
            final(self).base_spec() == old(self).base_spec(),
            final(self).shared() == old(self).shared(),
    {
        let r = self.callbacks.len();
        self.callbacks.push(cmd);
        r
    }

    /// The handles of the callbacks registered for `cmd`, in the order registered.
    pub fn run_callback(&self, cmd: Commands) -> (r: Vec<usize>)
        ensures
            r@ == matching(self.callbacks_spec(), cmd),
    {
        let mut r: Vec<usize> = Vec::new();
        let mut i: usize = 0;
        while i < self.callbacks.len()
            invariant
                i <= self.callbacks@.len(),
                r@ == matching(self.callbacks@.subrange(0, i as int), cmd),
            decreases self.callbacks@.len() - i,
        {
            proof {
                let next = self.callbacks@.subrange(0, i + 1);
                assert(next.drop_last() =~= self.callbacks@.subrange(0, i as int));
            }
            if self.callbacks[i] == cmd {
                r.push(i);
            }
            i = i + 1;
        }
        assert(self.callbacks@.subrange(0, i as int) =~= self.callbacks@);
        r
    }

    /// The state last pushed by the peripheral.
    pub fn shared_state(&self) -> (r: UpdateData)
        ensures
            r == self.shared(),
    {
        self.update_state
    }

    /// The ids of persistent attributes written since the last call, in the order written.
    pub fn take_dirty(&mut self) -> (r: Vec<u16>)
        requires
            old(self).wf(),
        ensures
            r@ == old(self).base_spec().dirty_ids(),
            final(self).base_spec().dirty_ids().len() == 0,
            final(self).base_spec().attrs() == old(self).base_spec().attrs(),
            final(self).base_spec().cluster_id() == old(self).base_spec().cluster_id(),
            final(self).callbacks_spec() == old(self).callbacks_spec(),
            final(self).shared() == old(self).shared(),
            final(self).wf(),
    {
        self.base.take_dirty()
    }

    /// Hands the cluster a state reported by the peripheral.
    pub fn push_state(&mut self, state: bool)
        ensures
            final(self).shared() == (UpdateData { on_off: state, is_fresh: true }),
            final(self).base_spec() == old(self).base_spec(),
            final(self).callbacks_spec() == old(self).callbacks_spec(),
    {
        self.update_state.update_state(state);
    }

    /// Reads attribute `id` on behalf of `req`. While the peripheral's state is fresh,
    /// `OnOff` reads as that state; otherwise the stored value is read.
    pub fn read_attribute(&self, req: &AccessReq, id: u16) -> (r: Result<TlvElement, IMStatusCode>)
        requires
            self.wf(),
        ensures
            r == self.read_result(*req, id),
    {
        let r = self.base.read_attribute(req, id);
        if id == ATTR_ON_OFF && r.is_ok() && self.update_state.is_fresh {
            Ok(TlvElement::Bool(self.update_state.on_off))
        } else {
            r
        }
    }

    /// An Interaction Model write of `t` to attribute `id` on behalf of `req`.
    /// `OnOff` itself is read-only.
    pub fn write_attribute(&mut self, req: &AccessReq, id: u16, t: &TlvElement) -> (r: Result<(), IMStatusCode>)
        requires
            old(self).wf(),
        ensures
            final(self).wf(),
            r is Ok <==> old(self).base_spec().write_result(*req, id, *t) is Ok,
            r is Err ==> r->Err_0 == old(self).base_spec().write_result(*req, id, *t)->Err_0,
            r is Err ==> *final(self) == *old(self),
            r is Ok ==> Cluster::written(
                old(self).base_spec(),
                final(self).base_spec(),
                id,
                old(self).base_spec().write_result(*req, id, *t)->Ok_0,
            ),
            final(self).callbacks_spec() == old(self).callbacks_spec(),
            final(self).shared() == old(self).shared(),
    {
        assert(!has_bits16(ACCESS_RV, ACCESS_WRITE)) by (bit_vector);
        self.base.write_attribute(req, id, t)
    }

    /// Handles the command with id `cmd_id`: an absent or unknown id gives
    /// `UnsupportedCommand` and changes nothing; otherwise `OnOff` takes the
    /// command's result, the callbacks for the command are handed back and the
    /// status is `Success`.
    pub fn handle_command(&mut self, cmd_id: Option<u32>) -> (r: OnOffResponse)
        requires
            old(self).wf(),
        ensures
            final(self).wf(),
            cmd_id is None || command_of(cmd_id->Some_0) is None ==> r.status
                == IMStatusCode::UnsupportedCommand && r.callbacks@.len() == 0 && *final(self)
                == *old(self),
            cmd_id is Some && command_of(cmd_id->Some_0) is Some ==> r.status
                == IMStatusCode::Success && r.callbacks@ == matching(
                old(self).callbacks_spec(),
                command_of(cmd_id->Some_0)->Some_0,
            ) && OnOffCluster::commanded(*old(self), *final(self), command_of(cmd_id->Some_0)->Some_0),
    {
        let cmd = match cmd_id {
            None => return OnOffResponse { status: IMStatusCode::UnsupportedCommand, callbacks: Vec::new() },
            Some(id) => match Commands::from_u32(id) {
                None => return OnOffResponse { status: IMStatusCode::UnsupportedCommand, callbacks: Vec::new() },
                Some(c) => c,
            },
        };
        let current = match self.base.read_attribute_raw(ATTR_ON_OFF) {
            Ok(AttrValue::Bool(b)) => *b,
            _ => false,
        };
        let target = match cmd {
            Commands::Off => false,
            Commands::On => true,
            Commands::Toggle => !current,
        };
        if target != current || cmd == Commands::Toggle {
            assert(!has_bits8(QUALITY_PERSISTENT, QUALITY_FIXED)) by (bit_vector);
            match self.base.write_attribute_raw(ATTR_ON_OFF, AttrValue::Bool(target)) {
                Ok(()) => {},
                Err(_) => return OnOffResponse { status: IMStatusCode::Failure, callbacks: Vec::new() },
            }
            assert(self.base.get(ATTR_ON_OFF) == Some(on_off_attr(target)));
        }
        self.update_state.is_fresh = false;
        let callbacks = self.run_callback(cmd);
        OnOffResponse { status: IMStatusCode::Success, callbacks }
    }
}

/// After a command, reading `OnOff` with View privilege gives the command's result.
pub proof fn lemma_read_after_command(c0: OnOffCluster, c1: OnOffCluster, cmd: Commands, req: AccessReq)
    requires
        OnOffCluster::commanded(c0, c1, cmd),
        rank(req.privilege) >= rank(Privilege::View),
    ensures
        c1.read_result(req, ATTR_ON_OFF) == Ok::<TlvElement, IMStatusCode>(TlvElement::Bool(next_on_off(c0.on_off(), cmd))),
{
    assert(has_bits16(ACCESS_RV, ACCESS_READ)) by (bit_vector);
}

/// Decoding an element into an attribute of the On/Off cluster, writing it and
/// reading it back encodes the same element. (`OnOff` itself is read-only, so the
/// peripheral's state never stands in for a value written this way.)
pub proof fn lemma_tlv_round_trip(c0: OnOffCluster, c1: OnOffCluster, req: AccessReq, id: u16, t: TlvElement)
    requires
        c0.wf(),
        c0.base_spec().write_result(req, id, t) is Ok,
        Cluster::written(c0.base_spec(), c1.base_spec(), id, c0.base_spec().write_result(req, id, t)->Ok_0),
        has_bits16(c0.base_spec().get(id)->Some_0.access, ACCESS_READ),
        rank(req.privilege) >= rank(Privilege::View),
    ensures
        c1.read_result(req, id) == Ok::<TlvElement, IMStatusCode>(t),
{
    assert(!has_bits16(ACCESS_RV, ACCESS_WRITE)) by (bit_vector);
    crate::cluster::lemma_tlv_round_trip(c0.base_spec(), c1.base_spec(), req, id, t);
}

/// Toggling twice leaves `OnOff` as it was.
pub proof fn lemma_toggle_twice(c0: OnOffCluster, c1: OnOffCluster, c2: OnOffCluster)
    requires
        OnOffCluster::commanded(c0, c1, Commands::Toggle),
        OnOffCluster::commanded(c1, c2, Commands::Toggle),
    ensures
        c2.on_off() == c0.on_off(),
{
}

/// Off and On leave the attribute store untouched when `OnOff` already holds their result.
pub proof fn lemma_no_write_when_unchanged(c0: OnOffCluster, c1: OnOffCluster, cmd: Commands)
    requires
        cmd != Commands::Toggle,
        next_on_off(c0.on_off(), cmd) == c0.on_off(),
        OnOffCluster::commanded(c0, c1, cmd),
    ensures
        c1.base_spec() == c0.base_spec(),
        c1.base_spec().dirty_ids() == c0.base_spec().dirty_ids(),
{
}

} // verus!
