use vstd::prelude::*;

use crate::access::{rank, write_privilege, AccessReq, Privilege};
use crate::attribute::{
    consistent, decoded_as, encoded, has_bits16, has_bits8, same_variant,
    AttrValue, Attribute, ACCESS_READ, ACCESS_RV, ACCESS_WRITE, QUALITY_FIXED,
    QUALITY_PERSISTENT,
};
use crate::error::{Error, IMStatusCode};
use crate::tlv::TlvElement;

verus! {

/// Most attributes one cluster holds, its system attributes included.
pub const MAX_ATTRIBUTES: usize = 32;
/// Id of the system attribute that holds the feature map.
pub const ATTR_FEATURE_MAP: u16 = 0xFFFC;
/// Id of the system attribute that holds the cluster revision.
pub const ATTR_CLUSTER_REVISION: u16 = 0xFFFD;

/// The attribute with id `id` in `s`, looked up from the end.
pub open spec fn lookup(s: Seq<Attribute>, id: u16) -> Option<Attribute>
    decreases s.len(),
{
    if s.len() == 0 {
        None
    } else if s.last().id == id {
        Some(s.last())
    } else {
        lookup(s.drop_last(), id)
    }
}

/// No two attributes of `s` share an id.
pub open spec fn ids_unique(s: Seq<Attribute>) -> bool {
    forall|i: int, j: int|
        0 <= i < s.len() && 0 <= j < s.len() && i != j ==> #[trigger] s[i].id != #[trigger] s[j].id
}

/// What adding `a` to the attributes `s` gives.
pub open spec fn added(s: Seq<Attribute>, a: Attribute) -> Result<Seq<Attribute>, Error> {
    if !consistent(a.access, a.quality) {
        Err(Error::InvalidData)
    } else if lookup(s, a.id) is Some {
        Err(Error::DuplicateAttribute)
    } else if s.len() >= MAX_ATTRIBUTES {
        Err(Error::TooManyAttributes)
    } else {
        Ok(s.push(a))
    }
}

/// What adding each attribute of `l` in turn to `s` gives; the first failure ends it.
pub open spec fn added_all(s: Seq<Attribute>, l: Seq<Attribute>) -> Result<Seq<Attribute>, Error>
    decreases l.len(),
{
    if l.len() == 0 {
        Ok(s)
    } else {
        match added(s, l[0]) {
            Ok(s2) => added_all(s2, l.skip(1)),
            Err(e) => Err(e),
        }
    }
}

/// The lookup finds nothing exactly when no attribute carries the id, and what it
/// finds carries the id and is one of the attributes.
pub proof fn lemma_lookup(s: Seq<Attribute>, id: u16)
    ensures
        lookup(s, id) is None <==> (forall|i: int| 0 <= i < s.len() ==> s[i].id != id),
        lookup(s, id) is Some ==> lookup(s, id)->Some_0.id == id,
        lookup(s, id) is Some ==> exists|i: int|
            0 <= i < s.len() && s[i] == lookup(s, id)->Some_0,
    decreases s.len(),
{
    if s.len() > 0 {
        lemma_lookup(s.drop_last(), id);
        if lookup(s, id) is None {
            assert forall|i: int| 0 <= i < s.len() implies s[i].id != id by {
                if i < s.len() - 1 {
                    assert(s.drop_last()[i] == s[i]);
                }
            }
        }
        if lookup(s.drop_last(), id) is Some && s.last().id != id {
            let i = choose|i: int|
                0 <= i < s.drop_last().len() && s.drop_last()[i] == lookup(
                    s.drop_last(),
                    id,
                )->Some_0;
            assert(s[i] == s.drop_last()[i]);
        }
        if (forall|i: int| 0 <= i < s.len() ==> s[i].id != id) {
            assert forall|i: int| 0 <= i < s.drop_last().len() implies s.drop_last()[i].id
                != id by {
                assert(s.drop_last()[i] == s[i]);
            }
        }
    }
}

/// With unique ids, the lookup of an attribute's id finds that attribute.
pub proof fn lemma_lookup_at(s: Seq<Attribute>, i: int)
    requires
        ids_unique(s),
        0 <= i < s.len(),
    ensures
        lookup(s, s[i].id) == Some(s[i]),
    decreases s.len(),
{
    if i < s.len() - 1 {
        assert(s.last().id != s[i].id);
        assert(ids_unique(s.drop_last())) by {
            assert forall|a: int, b: int|
                0 <= a < s.drop_last().len() && 0 <= b < s.drop_last().len() && a != b implies #[trigger] s.drop_last()[a].id
                != #[trigger] s.drop_last()[b].id by {
                assert(s.drop_last()[a] == s[a]);
                assert(s.drop_last()[b] == s[b]);
            }
        }
        assert(s.drop_last()[i] == s[i]);
        lemma_lookup_at(s.drop_last(), i);
    }
}

/// Replacing an attribute by one of the same id leaves the lookup of every other id as it was.
pub proof fn lemma_lookup_update(s: Seq<Attribute>, i: int, a: Attribute, k: u16)
    requires
        0 <= i < s.len(),
        a.id == s[i].id,
        k != a.id,
    ensures
        lookup(s.update(i, a), k) == lookup(s, k),
    decreases s.len(),
{
    let t = s.update(i, a);
    if i < s.len() - 1 {
        assert(t.drop_last() =~= s.drop_last().update(i, a));
        lemma_lookup_update(s.drop_last(), i, a, k);
    } else {
        assert(t.drop_last() =~= s.drop_last());
    }
}

/// Appending an attribute makes it what its id looks up to, and changes no other lookup.
pub proof fn lemma_lookup_push(s: Seq<Attribute>, a: Attribute, k: u16)
    ensures
        lookup(s.push(a), k) == (if a.id == k {
            Some(a)
        } else {
            lookup(s, k)
        }),
{
    assert(s.push(a).drop_last() =~= s);
}

/// The base of every cluster: its id, its attributes and the attributes written
/// since the store last collected them.
pub struct Cluster {
    id: u32,
    attributes: Vec<Attribute>,
    dirty: Vec<u16>,
}

impl Cluster {
    /// The cluster id.
    pub closed spec fn cluster_id(&self) -> u32 {
        self.id
    }

    /// The attributes, in the order they were added.
    pub closed spec fn attrs(&self) -> Seq<Attribute> {
        self.attributes@
    }

    /// Ids of persistent attributes written since the store last collected them.
    pub closed spec fn dirty_ids(&self) -> Seq<u16> {
        self.dirty@
    }

    /// The attribute with id `id`, if the cluster has one.
    pub open spec fn get(&self, id: u16) -> Option<Attribute> {
        lookup(self.attrs(), id)
    }

    /// The value of attribute `id`, if the cluster has one.
    pub open spec fn value(&self, id: u16) -> Option<AttrValue> {
        match self.get(id) {
            Some(a) => Some(a.value),
            None => None,
        }
    }

    /// Ids are unique, the list is within bounds and every attribute is consistent.
    pub open spec fn wf(&self) -> bool {
        &&& ids_unique(self.attrs())
        &&& self.attrs().len() <= MAX_ATTRIBUTES
        &&& forall|i: int| 0 <= i < self.attrs().len() ==> #[trigger] self.attrs()[i].wf()
    }

    /// What a write of the element `t` to attribute `id` decodes to, or the status it fails with.
    pub open spec fn tlv_write_result(&self, id: u16, t: TlvElement) -> Result<AttrValue, IMStatusCode> {
        match self.get(id) {
            None => Err(IMStatusCode::UnsupportedAttribute),
            Some(a) => if has_bits8(a.quality, QUALITY_FIXED) {
                Err(IMStatusCode::UnsupportedWrite)
            } else {
                decoded_as(a.value, t)
            },
        }
    }

    /// What an Interaction Model write of `t` to attribute `id` decodes to, or the
    /// status it fails with: the attribute must exist, be writable and the subject
    /// must hold the privilege it needs.
    pub open spec fn write_result(&self, req: AccessReq, id: u16, t: TlvElement) -> Result<AttrValue, IMStatusCode> {
        match self.get(id) {
            None => Err(IMStatusCode::UnsupportedAttribute),
            Some(a) => if !has_bits16(a.access, ACCESS_WRITE) {
                Err(IMStatusCode::UnsupportedWrite)
            } else if rank(req.privilege) < rank(write_privilege(a.access)) {
                Err(IMStatusCode::UnsupportedAccess)
            } else {
                self.tlv_write_result(id, t)
            },
        }
    }

    /// What an Interaction Model read of attribute `id` returns from the stored value.
    /// A subject without View privilege is refused before the Read bit is looked at.
    pub open spec fn read_result(&self, req: AccessReq, id: u16) -> Result<TlvElement, IMStatusCode> {
        match self.get(id) {
            None => Err(IMStatusCode::UnsupportedAttribute),
            Some(a) => if rank(req.privilege) < rank(Privilege::View) {
                Err(IMStatusCode::UnsupportedAccess)
            } else if !has_bits16(a.access, ACCESS_READ) {
                Err(IMStatusCode::UnsupportedRead)
            } else {
                match encoded(a.value) {
                    Some(t) => Ok(t),
                    None => Err(IMStatusCode::UnsupportedRead),
                }
            },
        }
    }

    /// What a raw write of `v` to attribute `id` returns.
    pub open spec fn raw_write_result(&self, id: u16, v: AttrValue) -> Result<(), Error> {
        match self.get(id) {
            None => Err(Error::AttributeNotFound),
            Some(a) => if has_bits8(a.quality, QUALITY_FIXED) {
                Err(Error::AccessDenied)
            } else if !same_variant(a.value, v) {
                Err(Error::InvalidDataType)
            } else {
                Ok(())
            },
        }
    }

    /// `new` is `old` with the value of attribute `id` replaced by `v`.
    pub open spec fn written(old: Cluster, new: Cluster, id: u16, v: AttrValue) -> bool {
        &&& new.cluster_id() == old.cluster_id()
        &&& new.get(id) == Some(Attribute { value: v, ..old.get(id)->Some_0 })
        &&& forall|k: u16| k != id ==> #[trigger] new.get(k) == old.get(k)
        &&& new.attrs().len() == old.attrs().len()
        &&& new.dirty_ids() == if has_bits8(old.get(id)->Some_0.quality, QUALITY_PERSISTENT) {
            old.dirty_ids().push(id)
        } else {
            old.dirty_ids()
        }
    }

    /// A cluster with id `id` holding its two system attributes: a feature map of 0
    /// and a revision of 1.
    pub fn new(id: u32) -> (r: Cluster)
        ensures
            r.wf(),
            r.cluster_id() == id,
            r.attrs() == seq![
                Attribute {
                    id: ATTR_FEATURE_MAP,
                    value: AttrValue::Uint32(0),
                    access: ACCESS_RV,
                    quality: QUALITY_FIXED,
                },
                Attribute {
                    id: ATTR_CLUSTER_REVISION,
                    value: AttrValue::Uint16(1),
                    access: ACCESS_RV,
                    quality: QUALITY_FIXED,
                },
            ],
            r.dirty_ids().len() == 0,
            r.get(ATTR_FEATURE_MAP) == Some(
                Attribute {
                    id: ATTR_FEATURE_MAP,
                    value: AttrValue::Uint32(0),
                    access: ACCESS_RV,
                    quality: QUALITY_FIXED,
                },
            ),
            r.get(ATTR_CLUSTER_REVISION) == Some(
                Attribute {
                    id: ATTR_CLUSTER_REVISION,
                    value: AttrValue::Uint16(1),
                    access: ACCESS_RV,
                    quality: QUALITY_FIXED,
                },
            ),
    {
        let mut attributes: Vec<Attribute> = Vec::new();
        attributes.push(
            Attribute {
                id: ATTR_FEATURE_MAP,
                value: AttrValue::Uint32(0),
                access: ACCESS_RV,
                quality: QUALITY_FIXED,
            },
        );
        attributes.push(
            Attribute {
                id: ATTR_CLUSTER_REVISION,
                value: AttrValue::Uint16(1),
                access: ACCESS_RV,
                quality: QUALITY_FIXED,
            },
        );
        let r = Cluster { id, attributes, dirty: Vec::new() };
        assert(consistent(ACCESS_RV, QUALITY_FIXED)) by (bit_vector);
        proof {
            lemma_lookup_at(r.attrs(), 0);
            lemma_lookup_at(r.attrs(), 1);
            assert(r.attrs() =~= seq![r.attrs()[0], r.attrs()[1]]);
        }
        r
    }

    /// The position of attribute `id` in the list, if there is one.
    fn find(&self, id: u16) -> (r: Option<usize>)
        requires
            self.wf(),
        ensures
            r is None ==> self.get(id) is None,
            r is Some ==> r->Some_0 < self.attrs().len() && self.attrs()[r->Some_0 as int].id
                == id && self.get(id) == Some(self.attrs()[r->Some_0 as int]),
    {
        let mut i: usize = 0;
        while i < self.attributes.len()
            invariant
                self.wf(),
                i <= self.attributes@.len(),
                forall|j: int| 0 <= j < i ==> self.attributes@[j].id != id,
            decreases self.attributes@.len() - i,
        {
            if self.attributes[i].id == id {
                proof {
                    lemma_lookup_at(self.attrs(), i as int);
                }
                return Some(i);
            }
            i = i + 1;
        }
        proof {
            lemma_lookup(self.attrs(), id);
        }
        None
    }

    /// Adds an attribute; fails on an inconsistent one, a duplicate id or a full list.
    pub fn add_attribute(&mut self, a: Attribute) -> (r: Result<(), Error>)
        requires
            old(self).wf(),
        ensures
            final(self).wf(),
            final(self).cluster_id() == old(self).cluster_id(),
            final(self).dirty_ids() == old(self).dirty_ids(),
            r is Ok <==> added(old(self).attrs(), a) is Ok,
            r is Ok ==> final(self).attrs() == added(old(self).attrs(), a)->Ok_0,
            r is Err ==> r->Err_0 == added(old(self).attrs(), a)->Err_0,
            r is Err ==> final(self).attrs() == old(self).attrs(),
    {
        if (a.quality & QUALITY_FIXED) == QUALITY_FIXED && (a.access & ACCESS_WRITE)
            == ACCESS_WRITE {
            return Err(Error::InvalidData);
        }
        if self.find(a.id).is_some() {
            return Err(Error::DuplicateAttribute);
        }
        if self.attributes.len() >= MAX_ATTRIBUTES {
            return Err(Error::TooManyAttributes);
        }
        proof {
            lemma_lookup(self.attrs(), a.id);
        }
        self.attributes.push(a);
        proof {
            let s = self.attrs();
            assert forall|i: int, j: int|
                0 <= i < s.len() && 0 <= j < s.len() && i != j implies #[trigger] s[i].id
                != #[trigger] s[j].id by {
                if i < s.len() - 1 && j < s.len() - 1 {
                    assert(s[i] == old(self).attrs()[i]);
                    assert(s[j] == old(self).attrs()[j]);
                } else if i < s.len() - 1 {
                    assert(s[i] == old(self).attrs()[i]);
                } else if j < s.len() - 1 {
                    assert(s[j] == old(self).attrs()[j]);
                }
            }
            assert forall|i: int| 0 <= i < s.len() implies #[trigger] s[i].wf() by {
                if i < s.len() - 1 {
                    assert(s[i] == old(self).attrs()[i]);
                }
            }
        }
        Ok(())
    }

    /// Adds each attribute of `list` in turn; on a failure the cluster is left as it was.
    pub fn add_attributes(&mut self, list: &Vec<Attribute>) -> (r: Result<(), Error>)
        requires
            old(self).wf(),
        ensures
            final(self).wf(),
            final(self).cluster_id() == old(self).cluster_id(),
            final(self).dirty_ids() == old(self).dirty_ids(),
            r is Ok <==> added_all(old(self).attrs(), list@) is Ok,
            r is Ok ==> final(self).attrs() == added_all(old(self).attrs(), list@)->Ok_0,
            r is Err ==> r->Err_0 == added_all(old(self).attrs(), list@)->Err_0,
            r is Err ==> final(self).attrs() == old(self).attrs(),
    {
        let start: usize = self.attributes.len();
        let ghost orig = self.attrs();
        let mut i: usize = 0;
        assert(list@.skip(0) =~= list@);
        while i < list.len()
            invariant
                self.wf(),
                self.cluster_id() == old(self).cluster_id(),
                self.dirty_ids() == old(self).dirty_ids(),
                i <= list@.len(),
                start == orig.len(),
                orig == old(self).attrs(),
                self.attrs().len() >= start,
                self.attrs().subrange(0, start as int) == orig,
                added_all(orig, list@) == added_all(self.attrs(), list@.skip(i as int)),
            decreases list@.len() - i,
        {
            let a = list[i].copy();
            let ghost before = self.attrs();
            assert(list@.skip(i as int)[0] == a);
            assert(list@.skip(i as int).skip(1) =~= list@.skip(i + 1));
            match self.add_attribute(a) {
                Ok(()) => {
                    assert(self.attrs().subrange(0, start as int) =~= before.subrange(
                        0,
                        start as int,
                    ));
                },
                Err(e) => {
                    self.attributes.truncate(start);
                    proof {
                        assert(self.attrs() =~= orig);
                        let s = self.attrs();
                        assert forall|i: int| 0 <= i < s.len() implies #[trigger] s[i].wf() by {
                            assert(s[i] == before[i]);
                        }
                        assert forall|x: int, y: int|
                            0 <= x < s.len() && 0 <= y < s.len() && x != y implies #[trigger] s[x].id
                            != #[trigger] s[y].id by {
                            assert(s[x] == before[x]);
                            assert(s[y] == before[y]);
                        }
                    }
                    return Err(e);
                },
            }
            i = i + 1;
        }
        assert(list@.skip(i as int).len() == 0);
        Ok(())
    }

    /// The attribute with id `id`, or `AttributeNotFound`.
    pub fn get_attribute(&self, id: u16) -> (r: Result<&Attribute, Error>)
        requires
            self.wf(),
        ensures
            r is Ok <==> self.get(id) is Some,
            r is Ok ==> *r->Ok_0 == self.get(id)->Some_0,
            r is Err ==> r->Err_0 == Error::AttributeNotFound,
    {
        match self.find(id) {
            Some(i) => Ok(&self.attributes[i]),
            None => Err(Error::AttributeNotFound),
        }
    }

    /// The value of attribute `id`, or `AttributeNotFound`.
    pub fn read_attribute_raw(&self, id: u16) -> (r: Result<&AttrValue, Error>)
        requires
            self.wf(),
        ensures
            r is Ok <==> self.get(id) is Some,
            r is Ok ==> *r->Ok_0 == self.get(id)->Some_0.value,
            r is Err ==> r->Err_0 == Error::AttributeNotFound,
    {
        match self.find(id) {
            Some(i) => Ok(&self.attributes[i].value),
            None => Err(Error::AttributeNotFound),
        }
    }

    /// Replaces the value of attribute `id` by `v`, which must be of the same variant.
    /// A fixed attribute refuses the write. A write to a persistent attribute is
    /// recorded for the store.
    pub fn write_attribute_raw(&mut self, id: u16, v: AttrValue) -> (r: Result<(), Error>)
        requires
            old(self).wf(),
        ensures
            final(self).wf(),
            r == old(self).raw_write_result(id, v),
            r is Ok ==> Cluster::written(*old(self), *final(self), id, v),
            r is Err ==> *final(self) == *old(self),
    {
        let i = match self.find(id) {
            Some(i) => i,
            None => return Err(Error::AttributeNotFound),
        };
        if self.attributes[i].is_fixed() {
            return Err(Error::AccessDenied);
        }
        if !self.attributes[i].value.is_same_variant(&v) {
            return Err(Error::InvalidDataType);
        }
        let persistent = self.attributes[i].is_persistent();
        let ghost s = self.attrs();
        let ghost v2 = v;
        let a = Attribute {
            id: self.attributes[i].id,
            value: v,
            access: self.attributes[i].access,
            quality: self.attributes[i].quality,
        };
        self.attributes.set(i, a);
        if persistent {
            self.dirty.push(id);
        }
        proof {
            let t = self.attrs();
            assert(t == s.update(i as int, a));
            assert forall|x: int, y: int|
                0 <= x < t.len() && 0 <= y < t.len() && x != y implies #[trigger] t[x].id
                != #[trigger] t[y].id by {
                assert(t[x].id == s[x].id);
                assert(t[y].id == s[y].id);
            }
            assert forall|x: int| 0 <= x < t.len() implies #[trigger] t[x].wf() by {
                assert(s[x].wf());
            }
            lemma_lookup_at(t, i as int);
            assert forall|k: u16| k != id implies #[trigger] lookup(t, k) == lookup(s, k) by {
                lemma_lookup_update(s, i as int, a, k);
            }
        }
        Ok(())
    }

    /// Decodes `t` as the variant of attribute `id` and stores it, as a command
    /// handler does: a fixed attribute refuses, a mismatched element gives
    /// `InvalidDataType` and an integer out of range `ConstraintError`.
    pub fn write_attribute_from_tlv(&mut self, id: u16, t: &TlvElement) -> (r: Result<(), IMStatusCode>)
        requires
            old(self).wf(),
        ensures
            final(self).wf(),
            r is Ok <==> old(self).tlv_write_result(id, *t) is Ok,
            r is Err ==> r->Err_0 == old(self).tlv_write_result(id, *t)->Err_0,
            r is Ok ==> Cluster::written(*old(self), *final(self), id, old(self).tlv_write_result(id, *t)->Ok_0),
            r is Err ==> *final(self) == *old(self),
    {
        let v = match self.get_attribute(id) {
            Err(_) => return Err(IMStatusCode::UnsupportedAttribute),
            Ok(a) => {
                if a.is_fixed() {
                    return Err(IMStatusCode::UnsupportedWrite);
                }
                a.value.decode_like(t)?
            },
        };
        match self.write_attribute_raw(id, v) {
            Ok(()) => Ok(()),
            Err(e) => Err(e.to_status()),
        }
    }

    /// An Interaction Model write of `t` to attribute `id` on behalf of `req`.
    pub fn write_attribute(&mut self, req: &AccessReq, id: u16, t: &TlvElement) -> (r: Result<(), IMStatusCode>)
        requires
            old(self).wf(),
        ensures
            final(self).wf(),
            r is Ok <==> old(self).write_result(*req, id, *t) is Ok,
            r is Err ==> r->Err_0 == old(self).write_result(*req, id, *t)->Err_0,
            r is Ok ==> Cluster::written(*old(self), *final(self), id, old(self).write_result(*req, id, *t)->Ok_0),
            r is Err ==> *final(self) == *old(self),
    {
        match self.get_attribute(id) {
            Err(_) => return Err(IMStatusCode::UnsupportedAttribute),
            Ok(a) => {
                if !a.is_writable() {
                    return Err(IMStatusCode::UnsupportedWrite);
                }
                if !req.allow_write(a.access) {
                    return Err(IMStatusCode::UnsupportedAccess);
                }
            },
        }
        self.write_attribute_from_tlv(id, t)
    }

    /// What an Interaction Model write of `t` to attribute `id` would store, or the
    /// status it would fail with; changes nothing.
    pub fn check_write(&self, req: &AccessReq, id: u16, t: &TlvElement) -> (r: Result<AttrValue, IMStatusCode>)
        requires
            self.wf(),
        ensures
            r == self.write_result(*req, id, *t),
    {
        let a = match self.get_attribute(id) {
            Err(_) => return Err(IMStatusCode::UnsupportedAttribute),
            Ok(a) => a,
        };
        if !a.is_writable() {
            return Err(IMStatusCode::UnsupportedWrite);
        }
        if !req.allow_write(a.access) {
            return Err(IMStatusCode::UnsupportedAccess);
        }
        if a.is_fixed() {
            return Err(IMStatusCode::UnsupportedWrite);
        }
        a.value.decode_like(t)
    }

    /// An Interaction Model read of attribute `id` on behalf of `req`, encoded as TLV.
    pub fn read_attribute(&self, req: &AccessReq, id: u16) -> (r: Result<TlvElement, IMStatusCode>)
        requires
            self.wf(),
        ensures
            r == self.read_result(*req, id),
    {
        let a = match self.get_attribute(id) {
            Err(_) => return Err(IMStatusCode::UnsupportedAttribute),
            Ok(a) => a,
        };
        if !req.allow_read() {
            return Err(IMStatusCode::UnsupportedAccess);
        }
        if !a.is_readable() {
            return Err(IMStatusCode::UnsupportedRead);
        }
        match a.value.encode() {
            Some(t) => Ok(t),
            None => Err(IMStatusCode::UnsupportedRead),
        }
    }

    /// The cluster id.
    pub fn id(&self) -> (r: u32)
        ensures
            r == self.cluster_id(),
    {
        self.id
    }

    /// Ids of persistent attributes written since the store last collected them.
    pub fn dirty(&self) -> (r: &Vec<u16>)
        ensures
            r@ == self.dirty_ids(),
    {
        &self.dirty
    }

    /// The ids of persistent attributes written since the last call, in the order written.
    pub fn take_dirty(&mut self) -> (r: Vec<u16>)
        ensures
            r@ == old(self).dirty_ids(),
            final(self).dirty_ids().len() == 0,
            final(self).attrs() == old(self).attrs(),
            final(self).cluster_id() == old(self).cluster_id(),
    {
        let mut taken: Vec<u16> = Vec::new();
        std::mem::swap(&mut taken, &mut self.dirty);
        taken
    }
}

/// In a well-formed cluster no two attributes share an id, and each id looks up to
/// the one attribute that carries it.
pub proof fn lemma_ids_unique(c: Cluster, i: int, j: int)
    requires
        c.wf(),
        0 <= i < c.attrs().len(),
        0 <= j < c.attrs().len(),
        i != j,
    ensures
        c.attrs()[i].id != c.attrs()[j].id,
        c.get(c.attrs()[i].id) == Some(c.attrs()[i]),
{
    lemma_lookup_at(c.attrs(), i);
}

/// After a write of `v` to attribute `id`, reading that attribute gives `v`.
pub proof fn lemma_read_after_write(old: Cluster, new: Cluster, id: u16, v: AttrValue)
    requires
        Cluster::written(old, new, id, v),
    ensures
        new.value(id) == Some(v),
{
}

/// An attribute of a well-formed cluster that is fixed refuses every write with
/// `UnsupportedWrite`, whatever the subject and the element.
pub proof fn lemma_fixed_refuses_write(c: Cluster, req: AccessReq, id: u16, t: TlvElement)
    requires
        c.wf(),
        c.get(id) is Some,
        has_bits8(c.get(id)->Some_0.quality, QUALITY_FIXED),
    ensures
        c.write_result(req, id, t) == Err::<AttrValue, IMStatusCode>(IMStatusCode::UnsupportedWrite),
        c.tlv_write_result(id, t) == Err::<AttrValue, IMStatusCode>(IMStatusCode::UnsupportedWrite),
{
    lemma_lookup(c.attrs(), id);
    let i = choose|i: int| 0 <= i < c.attrs().len() && c.attrs()[i] == c.get(id)->Some_0;
    assert(c.attrs()[i].wf());
}

/// Decoding an element into a readable attribute, writing it and reading it back
/// encodes the same element.
pub proof fn lemma_tlv_round_trip(old: Cluster, new: Cluster, req: AccessReq, id: u16, t: TlvElement)
    requires
        old.tlv_write_result(id, t) is Ok,
        Cluster::written(old, new, id, old.tlv_write_result(id, t)->Ok_0),
        has_bits16(old.get(id)->Some_0.access, ACCESS_READ),
        rank(req.privilege) >= rank(Privilege::View),
    ensures
        new.read_result(req, id) == Ok::<TlvElement, IMStatusCode>(t),
{
    crate::attribute::lemma_decode_encode(old.get(id)->Some_0.value, t);
}

impl Attribute {
    /// A copy of the attribute.
    pub fn copy(&self) -> (r: Attribute)
        ensures
            r == *self,
    {
        Attribute {
            id: self.id,
            value: self.value.copy_value(),
            access: self.access,
            quality: self.quality,
        }
    }
}

} // verus!
