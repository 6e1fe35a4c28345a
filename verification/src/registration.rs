//! Self-registration: checking a request, choosing who approves it, and
//! reporting its status.
use vstd::prelude::*;
use crate::auth::{bcrypt_accepts, byte_len, hash_password};
use crate::error::Failure;
use crate::models::{NewRegistrationRequest, RegistrationRequest, User};
use crate::roles::{admin, dept_manager, is_admin, is_dept_manager, is_timekeeper, timekeeper};
use crate::text::{str_eq, trim, trimmed};
use crate::time_entry::pending;

verus! {

/// A request to register an account.
pub struct RegisterRequest {
    pub username: String,
    pub email: String,
    pub password: String,
    pub department_id: i32,
}

/// What a registration answers.
pub struct RegisterResponse {
    pub request_id: i32,
    pub status: String,
    pub assigned_approver_role: Option<String>,
    pub assigned_approver_id: Option<i32>,
}

/// A query for the status of a registration request.
pub struct RegisterStatusQuery {
    pub request_id: Option<i32>,
    pub email: Option<String>,
}

/// The status of a registration request.
pub struct RegisterStatusResponse {
    pub request_id: i32,
    pub status: String,
    pub reject_reason: Option<String>,
}

/// A user name or e-mail address as it is stored: trimmed.
pub fn normalize(s: &str) -> (r: String)
    ensures
        r@ == trimmed(s@),
{
    trim(s)
}

/// The key under which registrations for `email` are throttled.
pub fn registration_attempt_key(email: &str) -> (r: String)
    ensures
        r@ == "register:"@ + trimmed(email@),
{
    let e = trim(email);
    String::from_str("register:").concat(e.as_str())
}

/// An account may approve registrations as `role`: it holds the role and is
/// not deleted, and for a department manager it belongs to `dept`.
pub open spec fn eligible(u: User, role: Seq<char>, dept: Option<i32>) -> bool {
    &&& u.role@ == role
    &&& !u.deleted
    &&& (dept matches Some(d) ==> u.department_id == Some(d))
}

/// The lowest identifier among the eligible accounts of `users`.
pub open spec fn lowest_eligible(users: Seq<User>, role: Seq<char>, dept: Option<i32>) -> Option<i32>
    decreases users.len(),
{
    if users.len() == 0 {
        None
    } else {
        let rest = lowest_eligible(users.drop_last(), role, dept);
        if eligible(users.last(), role, dept) {
            match rest {
                None => Some(users.last().id),
                Some(r) => Some(if users.last().id < r { users.last().id } else { r }),
            }
        } else {
            rest
        }
    }
}

/// `lowest_eligible` is the least identifier of an eligible account, and
/// there is none exactly when no account is eligible.
pub proof fn lemma_lowest_eligible(users: Seq<User>, role: Seq<char>, dept: Option<i32>)
    ensures
        match lowest_eligible(users, role, dept) {
            Some(id) => (exists|i: int| 0 <= i < users.len() && eligible(#[trigger] users[i], role, dept) && users[i].id == id)
                && forall|i: int| 0 <= i < users.len() && eligible(#[trigger] users[i], role, dept) ==> id <= users[i].id,
            None => forall|i: int| 0 <= i < users.len() ==> !eligible(#[trigger] users[i], role, dept),
        },
    decreases users.len(),
{
    if users.len() > 0 {
        let rest = users.drop_last();
        lemma_lowest_eligible(rest, role, dept);
        let n = users.len() - 1;
        assert forall|i: int| 0 <= i < n implies #[trigger] users[i] == rest[i] by {}
        match lowest_eligible(users, role, dept) {
            Some(id) => {
                if eligible(users.last(), role, dept) && (lowest_eligible(rest, role, dept) is None || users.last().id < lowest_eligible(rest, role, dept)->0) {
                    assert(eligible(users[n], role, dept) && users[n].id == id);
                } else {
                    let i0 = choose|i: int| 0 <= i < rest.len() && eligible(#[trigger] rest[i], role, dept) && rest[i].id == lowest_eligible(rest, role, dept)->0;
                    assert(eligible(users[i0], role, dept) && users[i0].id == id);
                }
            },
            None => {},
        }
    }
}

fn lowest_eligible_id(users: &Vec<User>, role: &str, dept: Option<i32>) -> (r: Option<i32>)
    ensures
        r == lowest_eligible(users@, role@, dept),
{
    let mut best: Option<i32> = None;
    let mut i: usize = 0;
    while i < users.len()
        invariant
            i <= users@.len(),
            best == lowest_eligible(users@.take(i as int), role@, dept),
        decreases users.len() - i,
    {
        assert(users@.take(i + 1).drop_last() =~= users@.take(i as int));
        let u = &users[i];
        let in_dept = match dept {
            Some(d) => u.department_id == Some(d),
            None => true,
        };
        if str_eq(u.role.as_str(), role) && !u.deleted && in_dept {
            best = match best {
                None => Some(u.id),
                Some(b) => Some(if u.id < b { u.id } else { b }),
            };
        }
        i = i + 1;
    }
    assert(users@.take(users@.len() as int) =~= users@);
    best
}

/// Who approves a registration to department `dept`: the department's
/// manager with the lowest identifier; failing that the timekeeper with the
/// lowest identifier; failing that the administrator with the lowest one.
pub open spec fn assignee(users: Seq<User>, dept: i32) -> (Option<Seq<char>>, Option<i32>) {
    match lowest_eligible(users, dept_manager(), Some(dept)) {
        Some(id) => (Some(dept_manager()), Some(id)),
        None => match lowest_eligible(users, timekeeper(), None) {
            Some(id) => (Some(timekeeper()), Some(id)),
            None => match lowest_eligible(users, admin(), None) {
                Some(id) => (Some(admin()), Some(id)),
                None => (None, None),
            },
        },
    }
}

/// Chooses who approves a registration to department `dept_id` among
/// `users` (every account).
pub fn pick_assignee(users: &Vec<User>, dept_id: i32) -> (r: (Option<String>, Option<i32>))
    ensures
        (match r.0 {
            Some(s) => Some(s@),
            None => None,
        }, r.1) == assignee(users@, dept_id),
{
    match lowest_eligible_id(users, "dept_manager", Some(dept_id)) {
        Some(id) => (Some(String::from_str("dept_manager")), Some(id)),
        None => match lowest_eligible_id(users, "timekeeper", None) {
            Some(id) => (Some(String::from_str("timekeeper")), Some(id)),
            None => match lowest_eligible_id(users, "admin", None) {
                Some(id) => (Some(String::from_str("admin")), Some(id)),
                None => (None, None),
            },
        },
    }
}

/// An account that is not deleted already uses the user name or the address.
pub open spec fn account_taken(users: Seq<User>, username: Seq<char>, email: Seq<char>) -> bool {
    exists|i: int|
        0 <= i < users.len() && !(#[trigger] users[i]).deleted && (users[i].username@ == username
            || users[i].email@ == email)
}

/// A pending registration request already uses the user name or the address.
pub open spec fn registration_pending(requests: Seq<RegistrationRequest>, username: Seq<char>, email: Seq<char>) -> bool {
    exists|i: int|
        0 <= i < requests.len() && (#[trigger] requests[i]).status@ == pending() && (
        requests[i].username@ == username || requests[i].email@ == email)
}

pub fn is_account_taken(users: &Vec<User>, username: &String, email: &String) -> (r: bool)
    ensures
        r == account_taken(users@, username@, email@),
{
    let mut i: usize = 0;
    while i < users.len()
        invariant
            i <= users@.len(),
            forall|j: int|
                0 <= j < i ==> !(!(#[trigger] users@[j]).deleted && (users@[j].username@ == username@
                    || users@[j].email@ == email@)),
        decreases users.len() - i,
    {
        let u = &users[i];
        if !u.deleted && (u.username == *username || u.email == *email) {
            return true;
        }
        i = i + 1;
    }
    false
}

fn is_registration_pending(requests: &Vec<RegistrationRequest>, username: &String, email: &String) -> (r: bool)
    ensures
        r == registration_pending(requests@, username@, email@),
{
    let mut i: usize = 0;
    while i < requests.len()
        invariant
            i <= requests@.len(),
            forall|j: int|
                0 <= j < i ==> !((#[trigger] requests@[j]).status@ == pending() && (
                requests@[j].username@ == username@ || requests@[j].email@ == email@)),
        decreases requests.len() - i,
    {
        let q = &requests[i];
        if str_eq(q.status.as_str(), "pending") && (q.username == *username || q.email == *email) {
            return true;
        }
        i = i + 1;
    }
    false
}

/// Why the fields of a registration are refused, if they are.
pub open spec fn field_failure(payload: RegisterRequest) -> Option<Failure> {
    if trimmed(payload.username@).len() == 0 {
        Some(Failure::UsernameEmpty)
    } else if trimmed(payload.email@).len() == 0 {
        Some(Failure::EmailEmpty)
    } else if byte_len(trimmed(payload.password@)) < 6 {
        Some(Failure::PasswordTooShort)
    } else {
        None
    }
}

/// Checks the fields of a registration: a user name and an address, and a
/// password of at least six bytes once trimmed.
pub fn check_registration_fields(payload: &RegisterRequest) -> (r: Result<(), Failure>)
    ensures
        match field_failure(*payload) {
            Some(f) => r == Err::<(), Failure>(f),
            None => r == Ok::<(), Failure>(()),
        },
{
    let username = trim(payload.username.as_str());
    let email = trim(payload.email.as_str());
    if username.as_str().is_empty() {
        return Err(Failure::UsernameEmpty);
    }
    if email.as_str().is_empty() {
        return Err(Failure::EmailEmpty);
    }
    let password = trim(payload.password.as_str());
    if password.as_str().len() < 6 {
        return Err(Failure::PasswordTooShort);
    }
    Ok(())
}

/// The registration request to store for `payload`, given whether its
/// department exists, every account, and the pending requests.
pub fn assess_registration(
    payload: &RegisterRequest,
    department_exists: bool,
    users: &Vec<User>,
    requests: &Vec<RegistrationRequest>,
) -> (r: Result<NewRegistrationRequest, Failure>)
    ensures
        ({
            let username = trimmed(payload.username@);
            let email = trimmed(payload.email@);
            match field_failure(*payload) {
                Some(f) => r == Err::<NewRegistrationRequest, Failure>(f),
                None => if !department_exists {
                    r == Err::<NewRegistrationRequest, Failure>(Failure::RegistrationDepartmentMissing)
                } else if account_taken(users@, username, email) {
                    r == Err::<NewRegistrationRequest, Failure>(Failure::AccountExists)
                } else if registration_pending(requests@, username, email) {
                    r == Err::<NewRegistrationRequest, Failure>(Failure::DuplicatePendingRegistration)
                } else {
                    r matches Ok(req) && req.username@ == username && req.email@ == email
                        && req.department_id == payload.department_id && req.status@ == pending()
                        && (match req.assigned_approver_role {
                        Some(s) => Some(s@),
                        None => None,
                    }, req.assigned_approver_id) == assignee(users@, payload.department_id) && (
                    req.password_hash@.len() == 0 || bcrypt_accepts(
                        trimmed(payload.password@),
                        req.password_hash@,
                    ))
                },
            }
        }),
{
    check_registration_fields(payload)?;
    let username = normalize(payload.username.as_str());
    let email = normalize(payload.email.as_str());
    if !department_exists {
        return Err(Failure::RegistrationDepartmentMissing);
    }
    if is_account_taken(users, &username, &email) {
        return Err(Failure::AccountExists);
    }
    if is_registration_pending(requests, &username, &email) {
        return Err(Failure::DuplicatePendingRegistration);
    }
    let (role, id) = pick_assignee(users, payload.department_id);
    let password = trim(payload.password.as_str());
    Ok(
        NewRegistrationRequest {
            username,
            email,
            password_hash: hash_password(password.as_str()),
            department_id: payload.department_id,
            status: String::from_str("pending"),
            assigned_approver_role: role,
            assigned_approver_id: id,
        },
    )
}

/// What the registration answers once its request is stored.
pub fn register_response(req: RegistrationRequest) -> (r: RegisterResponse)
    ensures
        r == (RegisterResponse {
            request_id: req.id,
            status: req.status,
            assigned_approver_role: req.assigned_approver_role,
            assigned_approver_id: req.assigned_approver_id,
        }),
{
    RegisterResponse {
        request_id: req.id,
        status: req.status,
        assigned_approver_role: req.assigned_approver_role,
        assigned_approver_id: req.assigned_approver_id,
    }
}

/// The status of the request that `query` names: it needs both the
/// identifier and the address, and `found` is the request with that
/// identifier, whose address must be the one given (trimmed).
pub fn register_status(query: &RegisterStatusQuery, found: Option<RegistrationRequest>) -> (r: Result<RegisterStatusResponse, Failure>)
    ensures
        match (query.request_id, query.email, found) {
            (Some(_), Some(e), Some(req)) if req.email@ == trimmed(e@) => r == Ok::<RegisterStatusResponse, Failure>(
                RegisterStatusResponse {
                    request_id: req.id,
                    status: req.status,
                    reject_reason: req.reject_reason,
                },
            ),
            _ => r == Err::<RegisterStatusResponse, Failure>(Failure::RegistrationNotFound),
        },
{
    match (&query.request_id, &query.email) {
        (Some(_), Some(e)) => match found {
            Some(req) => {
                let email = normalize(e.as_str());
                if req.email == email {
                    Ok(
                        RegisterStatusResponse {
                            request_id: req.id,
                            status: req.status,
                            reject_reason: req.reject_reason,
                        },
                    )
                } else {
                    Err(Failure::RegistrationNotFound)
                }
            },
            None => Err(Failure::RegistrationNotFound),
        },
        _ => Err(Failure::RegistrationNotFound),
    }
}

/// A pending request under the same address, or the same user name, blocks
/// a new registration; requests that are no longer pending do not, and
/// nothing else does.
pub proof fn lemma_pending_request_blocks(
    requests: Seq<RegistrationRequest>,
    username: Seq<char>,
    email: Seq<char>,
)
    ensures
        registration_pending(requests, username, email) == exists|i: int|
            0 <= i < requests.len() && #[trigger] requests[i].status@ == "pending"@ && (
            requests[i].email@ == email || requests[i].username@ == username),
        forall|i: int|
            0 <= i < requests.len() && #[trigger] requests[i].status@ == "pending"@
                && requests[i].email@ == email ==> registration_pending(requests, username, email),
{
    assert forall|i: int|
        0 <= i < requests.len() && #[trigger] requests[i].status@ == "pending"@
            && requests[i].email@ == email implies registration_pending(requests, username, email) by {
        assert(requests[i].status@ == pending());
    }
}

/// An account that is not deleted blocks a registration under its user name
/// or its address; deleted accounts do not, and nothing else does.
pub proof fn lemma_live_account_blocks(users: Seq<User>, username: Seq<char>, email: Seq<char>)
    ensures
        account_taken(users, username, email) == exists|i: int|
            0 <= i < users.len() && !#[trigger] users[i].deleted && (users[i].username@ == username
                || users[i].email@ == email),
{
}

} // verus!
