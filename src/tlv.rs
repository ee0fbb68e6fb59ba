use vstd::prelude::*;

use crate::error::IMStatusCode;

verus! {

/// One element of a decoded TLV payload.
///
/// Integers carry their value at full width; narrowing to the width that a
/// field or attribute asks for is the extractors' job.
#[derive(Debug, Clone, PartialEq)]
pub enum TlvElement {
    Null,
    Bool(bool),
    UnsignedInt(u64),
    SignedInt(i64),
    Utf8(String),
}

/// What the `u8` extractor yields for an element.
pub open spec fn u8_of(t: TlvElement) -> Result<u8, IMStatusCode> {
    match t {
        TlvElement::UnsignedInt(v) => if v <= 0xFF {
            Ok(v as u8)
        } else {
            Err(IMStatusCode::ConstraintError)
        },
        _ => Err(IMStatusCode::InvalidDataType),
    }
}

/// What the `u16` extractor yields for an element.
pub open spec fn u16_of(t: TlvElement) -> Result<u16, IMStatusCode> {
    match t {
        TlvElement::UnsignedInt(v) => if v <= 0xFFFF {
            Ok(v as u16)
        } else {
            Err(IMStatusCode::ConstraintError)
        },
        _ => Err(IMStatusCode::InvalidDataType),
    }
}

impl TlvElement {
    /// Reads the element as a `u8`: an unsigned integer that fits, else an error.
    pub fn u8(&self) -> (r: Result<u8, IMStatusCode>)
        ensures
            r == u8_of(*self),
    {
        match self {
            TlvElement::UnsignedInt(v) => if *v <= 0xFF {
                Ok(*v as u8)
            } else {
                Err(IMStatusCode::ConstraintError)
            },
            _ => Err(IMStatusCode::InvalidDataType),
        }
    }

    /// Reads the element as a `u16`: an unsigned integer that fits, else an error.
    pub fn u16(&self) -> (r: Result<u16, IMStatusCode>)
        ensures
            r == u16_of(*self),
    {
        match self {
            TlvElement::UnsignedInt(v) => if *v <= 0xFFFF {
                Ok(*v as u16)
            } else {
                Err(IMStatusCode::ConstraintError)
            },
            _ => Err(IMStatusCode::InvalidDataType),
        }
    }
}

} // verus!
