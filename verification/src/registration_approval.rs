//! Approving and rejecting registration requests.
use vstd::prelude::*;
use crate::auth::AuthUser;
use crate::error::Failure;
use crate::models::{find_user, user_with_id, NewUser, RegistrationRequest, User};
use crate::registration::{account_taken, is_account_taken};
use crate::roles::{admin, dept_manager, employee, is_dept_manager, is_staff, staff, timekeeper};
use crate::text::str_eq;
use crate::time_entry::{approved, pending, rejected};

verus! {

/// The reason given when a registration is rejected.
pub struct RejectPayload {
    pub reason: String,
}

/// The department whose requests a department manager handles, read from
/// their account in `users` (which must not be deleted).
pub open spec fn manager_department(users: Seq<User>, me: i32) -> Result<i32, Failure> {
    match user_with_id(users, me) {
        Some(u) if !u.deleted => match u.department_id {
            Some(d) => Ok(d),
            None => Err(Failure::ManagerWithoutDepartment),
        },
        _ => Err(Failure::CurrentUserNotFound),
    }
}

fn find_manager_department(users: &Vec<User>, me: i32) -> (r: Result<i32, Failure>)
    ensures
        r == manager_department(users@, me),
{
    match find_user(users, me) {
        Some(u) => {
            if u.deleted {
                return Err(Failure::CurrentUserNotFound);
            }
            match u.department_id {
                Some(d) => Ok(d),
                None => Err(Failure::ManagerWithoutDepartment),
            }
        },
        None => Err(Failure::CurrentUserNotFound),
    }
}

/// The department whose pending requests the caller sees (`None` for all):
/// administrators and timekeepers see all, a department manager those of
/// their department.
pub fn pending_registration_department(auth: &AuthUser, users: &Vec<User>) -> (r: Result<Option<i32>, Failure>)
    ensures
        !is_staff(auth.role@) ==> r == Err::<Option<i32>, Failure>(Failure::NoPermission),
        is_staff(auth.role@) && auth.role@ != dept_manager() ==> r == Ok::<Option<i32>, Failure>(None),
        auth.role@ == dept_manager() ==> r == (match manager_department(users@, auth.user_id) {
            Ok(d) => Ok(Some(d)),
            Err(f) => Err(f),
        }),
{
    if !staff(auth.role.as_str()) {
        return Err(Failure::NoPermission);
    }
    if is_dept_manager(auth.role.as_str()) {
        let d = find_manager_department(users, auth.user_id)?;
        return Ok(Some(d));
    }
    Ok(None)
}

/// The check on registrations that needs no lookup: only administrators,
/// timekeepers and department managers see and decide them.
pub fn registration_approver_gate(auth: &AuthUser) -> (r: Result<(), Failure>)
    ensures
        r == (if is_staff(auth.role@) {
            Ok::<(), Failure>(())
        } else {
            Err(Failure::NoPermission)
        }),
{
    if staff(auth.role.as_str()) {
        Ok(())
    } else {
        Err(Failure::NoPermission)
    }
}

/// Why the caller may not decide on `req`, if they may not.
pub open spec fn decision_failure(auth: AuthUser, req: Option<RegistrationRequest>, users: Seq<User>) -> Option<Failure> {
    if !is_staff(auth.role@) {
        Some(Failure::NoPermission)
    } else {
        match req {
            None => Some(Failure::RequestNotFound),
            Some(q) => if q.status@ != pending() {
                Some(Failure::RequestProcessed)
            } else if auth.role@ == dept_manager() {
                match manager_department(users, auth.user_id) {
                    Err(f) => Some(f),
                    Ok(d) => if q.department_id != d {
                        Some(Failure::OtherDepartmentRequest)
                    } else {
                        None
                    },
                }
            } else {
                None
            },
        }
    }
}

fn check_decision(auth: &AuthUser, req: &Option<RegistrationRequest>, users: &Vec<User>) -> (r: Result<(), Failure>)
    ensures
        match decision_failure(*auth, *req, users@) {
            Some(f) => r == Err::<(), Failure>(f),
            None => r == Ok::<(), Failure>(()),
        },
{
    if !staff(auth.role.as_str()) {
        return Err(Failure::NoPermission);
    }
    match req {
        None => Err(Failure::RequestNotFound),
        Some(q) => {
            if !str_eq(q.status.as_str(), "pending") {
                return Err(Failure::RequestProcessed);
            }
            if is_dept_manager(auth.role.as_str()) {
                let d = find_manager_department(users, auth.user_id)?;
                if q.department_id != d {
                    return Err(Failure::OtherDepartmentRequest);
                }
            }
            Ok(())
        },
    }
}

/// The approval of a registration request: the account to create (an
/// employee of the requested department) and the request as approved.
/// `users` holds every account.
pub fn approve_registration(auth: &AuthUser, req: Option<RegistrationRequest>, users: &Vec<User>) -> (r: Result<(NewUser, RegistrationRequest), Failure>)
    ensures
        match decision_failure(*auth, req, users@) {
            Some(f) => r == Err::<(NewUser, RegistrationRequest), Failure>(f),
            None => {
                let q = req->0;
                if account_taken(users@, q.username@, q.email@) {
                    r == Err::<(NewUser, RegistrationRequest), Failure>(Failure::AccountTakenOnApproval)
                } else {
                    r matches Ok((u, out)) && u == (NewUser {
                        username: q.username,
                        email: q.email,
                        password_hash: q.password_hash,
                        role: u.role,
                        department_id: Some(q.department_id),
                    }) && u.role@ == employee() && out == (RegistrationRequest {
                        status: out.status,
                        approved_by: Some(auth.user_id),
                        ..q
                    }) && out.status@ == approved()
                }
            },
        },
{
    check_decision(auth, &req, users)?;
    let mut q = match req {
        Some(q) => q,
        None => {
            return Err(Failure::RequestNotFound);
        },
    };
    if is_account_taken(users, &q.username, &q.email) {
        return Err(Failure::AccountTakenOnApproval);
    }
    let account = NewUser {
        username: q.username.clone(),
        email: q.email.clone(),
        password_hash: q.password_hash.clone(),
        role: String::from_str("employee"),
        department_id: Some(q.department_id),
    };
    q.status = String::from_str("approved");
    q.approved_by = Some(auth.user_id);
    Ok((account, q))
}

/// The rejection of a registration request, with its reason.
pub fn reject_registration(auth: &AuthUser, req: Option<RegistrationRequest>, users: &Vec<User>, payload: RejectPayload) -> (r: Result<RegistrationRequest, Failure>)
    ensures
        match decision_failure(*auth, req, users@) {
            Some(f) => r == Err::<RegistrationRequest, Failure>(f),
            None => r matches Ok(out) && out == (RegistrationRequest {
                status: out.status,
                rejected_by: Some(auth.user_id),
                reject_reason: Some(payload.reason),
                ..req->0
            }) && out.status@ == rejected(),
        },
{
    check_decision(auth, &req, users)?;
    let mut q = match req {
        Some(q) => q,
        None => {
            return Err(Failure::RequestNotFound);
        },
    };
    q.status = String::from_str("rejected");
    q.rejected_by = Some(auth.user_id);
    q.reject_reason = Some(payload.reason);
    Ok(q)
}

} // verus!
