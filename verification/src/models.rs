//! Shared models: authentication status, foreign keys and authorization constraints.

use vstd::prelude::*;

verus! {

/// The outcome of authenticating a request.
#[derive(Clone, Debug)]
pub struct AuthStatus {
    pub is_auth: bool,
    pub sub: String,
    pub current_role: String,
}

/// A record to link to: the table, the column that holds the key, and the key.
#[derive(Clone, Debug)]
pub struct ForeignKey {
    pub table: String,
    pub column: String,
    pub foreign_key: String,
}

impl ForeignKey {
    /// A key stored in a table of the same name as its column (`user_id`,
    /// `file_id`, `currency_id`, ...).
    pub fn in_table(table: &str, foreign_key: &str) -> (res: ForeignKey)
        ensures
            res.table@ == table@,
            res.column@ == table@,
            res.foreign_key@ == foreign_key@,
    {
        ForeignKey {
            table: String::from_str(table),
            column: String::from_str(table),
            foreign_key: String::from_str(foreign_key),
        }
    }
}

/// The permissions and the privilege an operation demands.
#[derive(Clone, Debug)]
pub struct AuthorizationConstraint {
    pub permissions: Vec<String>,
    pub privilege: AdminPrivilege,
}

/// Administrative privilege levels.
#[derive(Debug, Clone, Copy, PartialEq, Eq, Structural)]
pub enum AdminPrivilege {
    Admin,
    SuperAdmin,
    NoPrivilege,
}

/// The wire number of each privilege.
pub open spec fn privilege_number(privilege: AdminPrivilege) -> i32 {
    match privilege {
        AdminPrivilege::Admin => 0,
        AdminPrivilege::SuperAdmin => 1,
        AdminPrivilege::NoPrivilege => 2,
    }
}

/// The privilege a wire number stands for, if any.
pub open spec fn privilege_of_number(value: i32) -> Option<AdminPrivilege> {
    if value == 0 {
        Some(AdminPrivilege::Admin)
    } else if value == 1 {
        Some(AdminPrivilege::SuperAdmin)
    } else if value == 2 {
        Some(AdminPrivilege::NoPrivilege)
    } else {
        None
    }
}

impl TryFrom<i32> for AdminPrivilege {
    type Error = &'static str;

    fn try_from(value: i32) -> (res: Result<Self, Self::Error>) {
        match value {
            0 => Ok(AdminPrivilege::Admin),
            1 => Ok(AdminPrivilege::SuperAdmin),
            2 => Ok(AdminPrivilege::NoPrivilege),
            _ => Err("Invalid status"),
        }
    }
}

impl vstd::std_specs::convert::TryFromSpecImpl<i32> for AdminPrivilege {
    open spec fn obeys_try_from_spec() -> bool {
        true
    }

    open spec fn try_from_spec(value: i32) -> Result<Self, Self::Error> {
        match privilege_of_number(value) {
            Some(p) => Ok(p),
            None => Err("Invalid status"),
        }
    }
}

impl From<AdminPrivilege> for i32 {
    fn from(status: AdminPrivilege) -> (res: Self) {
        match status {
            AdminPrivilege::Admin => 0,
            AdminPrivilege::SuperAdmin => 1,
            AdminPrivilege::NoPrivilege => 2,
        }
    }
}

impl vstd::std_specs::convert::FromSpecImpl<AdminPrivilege> for i32 {
    open spec fn obeys_from_spec() -> bool {
        true
    }

    open spec fn from_spec(status: AdminPrivilege) -> i32 {
        privilege_number(status)
    }
}

/// Every privilege survives the trip through its wire number.
pub proof fn lemma_privilege_round_trip(privilege: AdminPrivilege)
    ensures
        privilege_of_number(privilege_number(privilege)) == Some(privilege),
{
}

/// Every accepted wire number survives the trip through its privilege, and
/// exactly the numbers 0, 1 and 2 are accepted.
pub proof fn lemma_number_round_trip(value: i32)
    ensures
        privilege_of_number(value) matches Some(p) ==> privilege_number(p) == value,
        privilege_of_number(value) is Some <==> 0 <= value <= 2,
{
}

/// File types the files service creates from content.
#[derive(Clone, Copy, Debug, PartialEq, Eq, Structural)]
pub enum AllowedCreateFileExtension {
    Markdown,
}

/// A file to create from content with the files service.
#[derive(Clone, Debug)]
pub struct CreateFileInfo {
    pub file_name: String,
    pub content: String,
    pub extension: AllowedCreateFileExtension,
    pub is_free: bool,
}

} // verus!
