//! The decisions of the admin service, taken on the answers of the
//! repositories.

use crate::errors::AppError;
use crate::models::{Role, RoleRecord};
use crate::repository::role_lookup_result;
use crate::text::{chars_of, string_from_chars};
use vstd::prelude::*;

verus! {

/// A role may not be created when the lookup of its name found one.  (The
/// lookup answers `NotFound` for an absent name, and any other error lets
/// the creation go on as well.)
pub open spec fn create_role_refused(existing: Result<Option<Role>, AppError>) -> bool {
    existing matches Ok(Some(_))
}

/// Refuses to create a role whose name is taken, with `DuplicateEntry`.
pub fn create_role_check(existing: &Result<Option<Role>, AppError>) -> (res: Result<(), AppError>)
    ensures
        res is Err <==> create_role_refused(*existing),
        res matches Err(e) ==> (e matches AppError::DuplicateEntry(m) && m@
            == "Role with this name already exists"@),
{
    match existing {
        Ok(Some(_)) => Err(
            AppError::DuplicateEntry(string_from_chars(&chars_of("Role with this name already exists"))),
        ),
        _ => Ok(()),
    }
}

/// A role may be given to a user only when its lookup found it.
pub open spec fn attach_role_allowed(role: Result<Option<Role>, AppError>) -> bool {
    role matches Ok(Some(_))
}

/// Lets a role be given to a user only when the role exists: a failed lookup
/// passes its error on, an empty one is `NotFound`.
pub fn attach_role_check(role: Result<Option<Role>, AppError>) -> (res: Result<(), AppError>)
    ensures
        res is Ok <==> attach_role_allowed(role),
        role matches Err(e) ==> res matches Err(f) && f == e,
        role matches Ok(None) ==> res matches Err(AppError::NotFound),
{
    match role {
        Err(e) => Err(e),
        Ok(None) => Err(AppError::NotFound),
        Ok(Some(_)) => Ok(()),
    }
}

/// Creating a role is refused exactly when a role of that name exists.
pub proof fn role_creation_refused_iff_name_taken(
    found: Option<RoleRecord>,
    lookup: Result<Option<Role>, AppError>,
)
    requires
        role_lookup_result(found, lookup),
    ensures
        create_role_refused(lookup) <==> found is Some,
{
}

/// Giving a role to a user goes on exactly when the role exists.
pub proof fn role_attach_allowed_iff_role_exists(
    found: Option<RoleRecord>,
    lookup: Result<Option<Role>, AppError>,
)
    requires
        role_lookup_result(found, lookup),
    ensures
        attach_role_allowed(lookup) <==> found is Some,
{
}

} // verus!
