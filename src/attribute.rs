use vstd::prelude::*;

use crate::error::{Error, IMStatusCode};
use crate::tlv::TlvElement;

verus! {

/// Access bit: the attribute can be read.
pub const ACCESS_READ: u16 = 0x0001;
/// Access bit: the attribute can be written.
pub const ACCESS_WRITE: u16 = 0x0002;
/// Access bit: the attribute can be invoked as a command.
pub const ACCESS_INVOKE: u16 = 0x0004;
/// Access bit: the subject needs View privilege.
pub const ACCESS_NEED_VIEW: u16 = 0x0010;
/// Access bit: the subject needs Operate privilege.
pub const ACCESS_NEED_OPERATE: u16 = 0x0020;
/// Access bit: the subject needs Manage privilege.
pub const ACCESS_NEED_MANAGE: u16 = 0x0040;
/// Access bit: the subject needs Administer privilege.
pub const ACCESS_NEED_ADMIN: u16 = 0x0080;
/// Readable with View privilege.
pub const ACCESS_RV: u16 = 0x0011;
/// Readable with View privilege, writable with Operate privilege.
pub const ACCESS_RWVO: u16 = 0x0033;

/// Quality bit: the value survives a restart.
pub const QUALITY_PERSISTENT: u8 = 0x01;
/// Quality bit: the value may be null.
pub const QUALITY_NULLABLE: u8 = 0x02;
/// Quality bit: the value never changes.
pub const QUALITY_FIXED: u8 = 0x04;
/// Quality bit: the value takes part in scenes.
pub const QUALITY_SCENE: u8 = 0x08;
/// Quality bit: changes of the value are reported.
pub const QUALITY_REPORTABLE: u8 = 0x10;

/// First id of the range reserved for attributes that every cluster carries.
pub const SYSTEM_ATTR_FIRST: u16 = 0xF000;
/// Last id of the reserved range.
pub const SYSTEM_ATTR_LAST: u16 = 0xFFFE;

/// The value of an attribute.
#[derive(Debug, Clone, PartialEq)]
pub enum AttrValue {
    Bool(bool),
    Uint8(u8),
    Uint16(u16),
    Uint32(u32),
    Uint64(u64),
    Int8(i8),
    Int16(i16),
    Int32(i32),
    Int64(i64),
    Utf8(String),
    /// The cluster supplies the value through its own reader.
    Custom,
}

/// `a` and `b` are values of the same variant.
pub open spec fn same_variant(a: AttrValue, b: AttrValue) -> bool {
    match (a, b) {
        (AttrValue::Bool(_), AttrValue::Bool(_)) => true,
        (AttrValue::Uint8(_), AttrValue::Uint8(_)) => true,
        (AttrValue::Uint16(_), AttrValue::Uint16(_)) => true,
        (AttrValue::Uint32(_), AttrValue::Uint32(_)) => true,
        (AttrValue::Uint64(_), AttrValue::Uint64(_)) => true,
        (AttrValue::Int8(_), AttrValue::Int8(_)) => true,
        (AttrValue::Int16(_), AttrValue::Int16(_)) => true,
        (AttrValue::Int32(_), AttrValue::Int32(_)) => true,
        (AttrValue::Int64(_), AttrValue::Int64(_)) => true,
        (AttrValue::Utf8(_), AttrValue::Utf8(_)) => true,
        (AttrValue::Custom, AttrValue::Custom) => true,
        _ => false,
    }
}

/// An unsigned TLV integer narrowed to at most `max`.
pub open spec fn unsigned_in(t: TlvElement, max: u64) -> Result<u64, IMStatusCode> {
    match t {
        TlvElement::UnsignedInt(v) => if v <= max {
            Ok(v)
        } else {
            Err(IMStatusCode::ConstraintError)
        },
        _ => Err(IMStatusCode::InvalidDataType),
    }
}

/// A signed TLV integer narrowed to `[min, max]`.
pub open spec fn signed_in(t: TlvElement, min: int, max: int) -> Result<i64, IMStatusCode> {
    match t {
        TlvElement::SignedInt(v) => if min <= v && v <= max {
            Ok(v)
        } else {
            Err(IMStatusCode::ConstraintError)
        },
        _ => Err(IMStatusCode::InvalidDataType),
    }
}

/// The value that a TLV element decodes to when it is read as the variant of `like`.
pub open spec fn decoded_as(like: AttrValue, t: TlvElement) -> Result<AttrValue, IMStatusCode> {
    match like {
        AttrValue::Bool(_) => match t {
            TlvElement::Bool(b) => Ok(AttrValue::Bool(b)),
            _ => Err(IMStatusCode::InvalidDataType),
        },
        AttrValue::Uint8(_) => match unsigned_in(t, 0xFF) {
            Ok(v) => Ok(AttrValue::Uint8(v as u8)),
            Err(e) => Err(e),
        },
        AttrValue::Uint16(_) => match unsigned_in(t, 0xFFFF) {
            Ok(v) => Ok(AttrValue::Uint16(v as u16)),
            Err(e) => Err(e),
        },
        AttrValue::Uint32(_) => match unsigned_in(t, 0xFFFF_FFFF) {
            Ok(v) => Ok(AttrValue::Uint32(v as u32)),
            Err(e) => Err(e),
        },
        AttrValue::Uint64(_) => match unsigned_in(t, 0xFFFF_FFFF_FFFF_FFFF) {
            Ok(v) => Ok(AttrValue::Uint64(v)),
            Err(e) => Err(e),
        },
        AttrValue::Int8(_) => match signed_in(t, -0x80, 0x7F) {
            Ok(v) => Ok(AttrValue::Int8(v as i8)),
            Err(e) => Err(e),
        },
        AttrValue::Int16(_) => match signed_in(t, -0x8000, 0x7FFF) {
            Ok(v) => Ok(AttrValue::Int16(v as i16)),
            Err(e) => Err(e),
        },
        AttrValue::Int32(_) => match signed_in(t, -0x8000_0000, 0x7FFF_FFFF) {
            Ok(v) => Ok(AttrValue::Int32(v as i32)),
            Err(e) => Err(e),
        },
        AttrValue::Int64(_) => match t {
            TlvElement::SignedInt(v) => Ok(AttrValue::Int64(v)),
            _ => Err(IMStatusCode::InvalidDataType),
        },
        AttrValue::Utf8(_) => match t {
            TlvElement::Utf8(s) => Ok(AttrValue::Utf8(s)),
            _ => Err(IMStatusCode::InvalidDataType),
        },
        AttrValue::Custom => Err(IMStatusCode::InvalidDataType),
    }
}

/// The TLV element that a value encodes to; a `Custom` value has none.
pub open spec fn encoded(v: AttrValue) -> Option<TlvElement> {
    match v {
        AttrValue::Bool(b) => Some(TlvElement::Bool(b)),
        AttrValue::Uint8(x) => Some(TlvElement::UnsignedInt(x as u64)),
        AttrValue::Uint16(x) => Some(TlvElement::UnsignedInt(x as u64)),
        AttrValue::Uint32(x) => Some(TlvElement::UnsignedInt(x as u64)),
        AttrValue::Uint64(x) => Some(TlvElement::UnsignedInt(x)),
        AttrValue::Int8(x) => Some(TlvElement::SignedInt(x as i64)),
        AttrValue::Int16(x) => Some(TlvElement::SignedInt(x as i64)),
        AttrValue::Int32(x) => Some(TlvElement::SignedInt(x as i64)),
        AttrValue::Int64(x) => Some(TlvElement::SignedInt(x)),
        AttrValue::Utf8(s) => Some(TlvElement::Utf8(s)),
        AttrValue::Custom => None,
    }
}

impl AttrValue {
    /// A copy of the value.
    pub fn copy_value(&self) -> (r: AttrValue)
        ensures
            r == *self,
    {
        match self {
            AttrValue::Bool(b) => AttrValue::Bool(*b),
            AttrValue::Uint8(x) => AttrValue::Uint8(*x),
            AttrValue::Uint16(x) => AttrValue::Uint16(*x),
            AttrValue::Uint32(x) => AttrValue::Uint32(*x),
            AttrValue::Uint64(x) => AttrValue::Uint64(*x),
            AttrValue::Int8(x) => AttrValue::Int8(*x),
            AttrValue::Int16(x) => AttrValue::Int16(*x),
            AttrValue::Int32(x) => AttrValue::Int32(*x),
            AttrValue::Int64(x) => AttrValue::Int64(*x),
            AttrValue::Utf8(s) => AttrValue::Utf8(s.clone()),
            AttrValue::Custom => AttrValue::Custom,
        }
    }

    /// Whether `other` is of the same variant as `self`.
    pub fn is_same_variant(&self, other: &AttrValue) -> (r: bool)
        ensures
            r == same_variant(*self, *other),
    {
        match (self, other) {
            (AttrValue::Bool(_), AttrValue::Bool(_)) => true,
            (AttrValue::Uint8(_), AttrValue::Uint8(_)) => true,
            (AttrValue::Uint16(_), AttrValue::Uint16(_)) => true,
            (AttrValue::Uint32(_), AttrValue::Uint32(_)) => true,
            (AttrValue::Uint64(_), AttrValue::Uint64(_)) => true,
            (AttrValue::Int8(_), AttrValue::Int8(_)) => true,
            (AttrValue::Int16(_), AttrValue::Int16(_)) => true,
            (AttrValue::Int32(_), AttrValue::Int32(_)) => true,
            (AttrValue::Int64(_), AttrValue::Int64(_)) => true,
            (AttrValue::Utf8(_), AttrValue::Utf8(_)) => true,
            (AttrValue::Custom, AttrValue::Custom) => true,
            _ => false,
        }
    }

    /// Decodes `t` as a value of the same variant as `self`.
    pub fn decode_like(&self, t: &TlvElement) -> (r: Result<AttrValue, IMStatusCode>)
        ensures
            r == decoded_as(*self, *t),
            r is Ok ==> same_variant(*self, r->Ok_0),
    {
        match self {
            AttrValue::Bool(_) => match t {
                TlvElement::Bool(b) => Ok(AttrValue::Bool(*b)),
                _ => Err(IMStatusCode::InvalidDataType),
            },
            AttrValue::Uint8(_) => match t {
                TlvElement::UnsignedInt(v) => if *v <= 0xFF {
                    Ok(AttrValue::Uint8(*v as u8))
                } else {
                    Err(IMStatusCode::ConstraintError)
                },
                _ => Err(IMStatusCode::InvalidDataType),
            },
            AttrValue::Uint16(_) => match t {
                TlvElement::UnsignedInt(v) => if *v <= 0xFFFF {
                    Ok(AttrValue::Uint16(*v as u16))
                } else {
                    Err(IMStatusCode::ConstraintError)
                },
                _ => Err(IMStatusCode::InvalidDataType),
            },
            AttrValue::Uint32(_) => match t {
                TlvElement::UnsignedInt(v) => if *v <= 0xFFFF_FFFF {
                    Ok(AttrValue::Uint32(*v as u32))
                } else {
                    Err(IMStatusCode::ConstraintError)
                },
                _ => Err(IMStatusCode::InvalidDataType),
            },
            AttrValue::Uint64(_) => match t {
                TlvElement::UnsignedInt(v) => Ok(AttrValue::Uint64(*v)),
                _ => Err(IMStatusCode::InvalidDataType),
            },
            AttrValue::Int8(_) => match t {
                TlvElement::SignedInt(v) => if -0x80 <= *v && *v <= 0x7F {
                    Ok(AttrValue::Int8(*v as i8))
                } else {
                    Err(IMStatusCode::ConstraintError)
                },
                _ => Err(IMStatusCode::InvalidDataType),
            },
            AttrValue::Int16(_) => match t {
                TlvElement::SignedInt(v) => if -0x8000 <= *v && *v <= 0x7FFF {
                    Ok(AttrValue::Int16(*v as i16))
                } else {
                    Err(IMStatusCode::ConstraintError)
                },
                _ => Err(IMStatusCode::InvalidDataType),
            },
            AttrValue::Int32(_) => match t {
                TlvElement::SignedInt(v) => if -0x8000_0000 <= *v && *v <= 0x7FFF_FFFF {
                    Ok(AttrValue::Int32(*v as i32))
                } else {
                    Err(IMStatusCode::ConstraintError)
                },
                _ => Err(IMStatusCode::InvalidDataType),
            },
            AttrValue::Int64(_) => match t {
                TlvElement::SignedInt(v) => Ok(AttrValue::Int64(*v)),
                _ => Err(IMStatusCode::InvalidDataType),
            },
            AttrValue::Utf8(_) => match t {
                TlvElement::Utf8(s) => Ok(AttrValue::Utf8(s.clone())),
                _ => Err(IMStatusCode::InvalidDataType),
            },
            AttrValue::Custom => Err(IMStatusCode::InvalidDataType),
        }
    }

    /// Encodes the value as a TLV element; `None` for a `Custom` value.
    pub fn encode(&self) -> (r: Option<TlvElement>)
        ensures
            r == encoded(*self),
    {
        match self {
            AttrValue::Bool(b) => Some(TlvElement::Bool(*b)),
            AttrValue::Uint8(x) => Some(TlvElement::UnsignedInt(*x as u64)),
            AttrValue::Uint16(x) => Some(TlvElement::UnsignedInt(*x as u64)),
            AttrValue::Uint32(x) => Some(TlvElement::UnsignedInt(*x as u64)),
            AttrValue::Uint64(x) => Some(TlvElement::UnsignedInt(*x)),
            AttrValue::Int8(x) => Some(TlvElement::SignedInt(*x as i64)),
            AttrValue::Int16(x) => Some(TlvElement::SignedInt(*x as i64)),
            AttrValue::Int32(x) => Some(TlvElement::SignedInt(*x as i64)),
            AttrValue::Int64(x) => Some(TlvElement::SignedInt(*x)),
            AttrValue::Utf8(s) => Some(TlvElement::Utf8(s.clone())),
            AttrValue::Custom => None,
        }
    }
}

/// Encoding a value that decoding produced gives back the element decoded.
pub proof fn lemma_decode_encode(like: AttrValue, t: TlvElement)
    requires
        decoded_as(like, t) is Ok,
    ensures
        encoded(decoded_as(like, t)->Ok_0) == Some(t),
{
}

/// `bits` holds every bit of `flag`.
pub open spec fn has_bits16(bits: u16, flag: u16) -> bool {
    bits & flag == flag
}

/// `bits` holds every bit of `flag`.
pub open spec fn has_bits8(bits: u8, flag: u8) -> bool {
    bits & flag == flag
}

/// Access and quality bits agree: a fixed attribute is not writable.
pub open spec fn consistent(access: u16, quality: u8) -> bool {
    has_bits8(quality, QUALITY_FIXED) ==> !has_bits16(access, ACCESS_WRITE)
}

/// Whether `id` lies in the range reserved for system attributes.
pub open spec fn is_system_id(id: u16) -> bool {
    SYSTEM_ATTR_FIRST <= id && id <= SYSTEM_ATTR_LAST
}

/// One addressable datum of a cluster.
#[derive(Debug, Clone, PartialEq)]
pub struct Attribute {
    pub id: u16,
    pub value: AttrValue,
    pub access: u16,
    pub quality: u8,
}

impl Attribute {
    /// Well-formed: its access and quality bits agree.
    pub open spec fn wf(&self) -> bool {
        consistent(self.access, self.quality)
    }

    /// Builds an attribute; fails with `InvalidData` when it would be both fixed and writable.
    pub fn new(id: u16, value: AttrValue, access: u16, quality: u8) -> (r: Result<Attribute, Error>)
        ensures
            consistent(access, quality) ==> r == Ok::<Attribute, Error>(
                (Attribute { id, value, access, quality }),
            ),
            !consistent(access, quality) ==> r == Err::<Attribute, Error>(Error::InvalidData),
    {
        if (quality & QUALITY_FIXED) == QUALITY_FIXED && (access & ACCESS_WRITE) == ACCESS_WRITE {
            Err(Error::InvalidData)
        } else {
            Ok(Attribute { id, value, access, quality })
        }
    }

    /// Whether `id` names a system attribute (0xF000 to 0xFFFE).
    pub fn is_system(id: u16) -> (r: bool)
        ensures
            r == is_system_id(id),
    {
        SYSTEM_ATTR_FIRST <= id && id <= SYSTEM_ATTR_LAST
    }

    /// Whether the attribute may be read.
    pub fn is_readable(&self) -> (r: bool)
        ensures
            r == has_bits16(self.access, ACCESS_READ),
    {
        (self.access & ACCESS_READ) == ACCESS_READ
    }

    /// Whether the attribute may be written through the Interaction Model.
    pub fn is_writable(&self) -> (r: bool)
        ensures
            r == has_bits16(self.access, ACCESS_WRITE),
    {
        (self.access & ACCESS_WRITE) == ACCESS_WRITE
    }

    /// Whether the attribute never changes.
    pub fn is_fixed(&self) -> (r: bool)
        ensures
            r == has_bits8(self.quality, QUALITY_FIXED),
    {
        (self.quality & QUALITY_FIXED) == QUALITY_FIXED
    }

    /// Whether the attribute survives a restart.
    pub fn is_persistent(&self) -> (r: bool)
        ensures
            r == has_bits8(self.quality, QUALITY_PERSISTENT),
    {
        (self.quality & QUALITY_PERSISTENT) == QUALITY_PERSISTENT
    }
}

} // verus!
