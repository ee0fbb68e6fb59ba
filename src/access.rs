use vstd::prelude::*;

use crate::attribute::{
    has_bits16, ACCESS_NEED_ADMIN, ACCESS_NEED_MANAGE, ACCESS_NEED_OPERATE,
};

verus! {

/// The privilege that the requesting subject holds on the target.
#[derive(Debug, Clone, Copy, PartialEq, Eq, Structural)]
pub enum Privilege {
    NoAccess,
    View,
    Operate,
    Manage,
    Admin,
}

/// Position of a privilege in the order NoAccess < View < Operate < Manage < Admin.
pub open spec fn rank(p: Privilege) -> int {
    match p {
        Privilege::NoAccess => 0,
        Privilege::View => 1,
        Privilege::Operate => 2,
        Privilege::Manage => 3,
        Privilege::Admin => 4,
    }
}

/// The privilege that writing an attribute with these access bits needs.
pub open spec fn write_privilege(access: u16) -> Privilege {
    if has_bits16(access, ACCESS_NEED_ADMIN) {
        Privilege::Admin
    } else if has_bits16(access, ACCESS_NEED_MANAGE) {
        Privilege::Manage
    } else if has_bits16(access, ACCESS_NEED_OPERATE) {
        Privilege::Operate
    } else {
        Privilege::View
    }
}

/// A request's subject privileges, checked against an attribute's access bits.
#[derive(Debug, Clone, Copy, PartialEq, Eq, Structural)]
pub struct AccessReq {
    pub privilege: Privilege,
}

impl Privilege {
    /// The position of the privilege in the order of privileges.
    pub fn level(self) -> (r: u8)
        ensures
            r as int == rank(self),
    {
        match self {
            Privilege::NoAccess => 0,
            Privilege::View => 1,
            Privilege::Operate => 2,
            Privilege::Manage => 3,
            Privilege::Admin => 4,
        }
    }
}

impl AccessReq {
    /// Whether the subject may read: it needs at least View.
    pub fn allow_read(&self) -> (r: bool)
        ensures
            r == (rank(self.privilege) >= rank(Privilege::View)),
    {
        self.privilege.level() >= 1
    }

    /// Whether the subject may invoke commands: it needs at least Operate.
    pub fn allow_invoke(&self) -> (r: bool)
        ensures
            r == (rank(self.privilege) >= rank(Privilege::Operate)),
    {
        self.privilege.level() >= 2
    }

    /// Whether the subject may write an attribute with these access bits.
    pub fn allow_write(&self, access: u16) -> (r: bool)
        ensures
            r == (rank(self.privilege) >= rank(write_privilege(access))),
    {
        let need: Privilege = if (access & ACCESS_NEED_ADMIN) == ACCESS_NEED_ADMIN {
            Privilege::Admin
        } else if (access & ACCESS_NEED_MANAGE) == ACCESS_NEED_MANAGE {
            Privilege::Manage
        } else if (access & ACCESS_NEED_OPERATE) == ACCESS_NEED_OPERATE {
            Privilege::Operate
        } else {
            Privilege::View
        };
        self.privilege.level() >= need.level()
    }
}

} // verus!
