//! Account administration, and the names that business pages may resolve.
use vstd::prelude::*;
use crate::auth::{bcrypt_accepts, hash_password, AuthUser};
use crate::error::Failure;
use crate::models::{NewUser, User};
use crate::roles::{admin, dept_manager, is_admin, project_manager, staff, is_staff, is_dept_manager, is_project_manager_role, is_timekeeper, timekeeper};

verus! {

/// An account to create.
pub struct CreateUser {
    pub username: String,
    pub email: String,
    pub password: String,
    pub role: String,
    pub department_id: Option<i32>,
}

/// A change to an account; `department_id` is `Some(None)` to clear the department.
pub struct UpdateUser {
    pub username: Option<String>,
    pub email: Option<String>,
    pub password: Option<String>,
    pub role: Option<String>,
    pub department_id: Option<Option<i32>>,
}

/// An account as administrators see it.
pub struct UserResponse {
    pub id: i32,
    pub username: String,
    pub email: String,
    pub role: String,
    pub department_id: Option<i32>,
}

/// An account as business pages see it: an identifier and a name.
pub struct UserOption {
    pub id: i32,
    pub username: String,
}

/// Roles whose pages may resolve the names of every account.
pub open spec fn sees_all_names(role: Seq<char>) -> bool {
    role == admin() || role == timekeeper() || role == dept_manager() || role == project_manager()
}

/// The accounts of `users` that are listed for a caller with `role` and
/// identifier `me`: those not deleted, and only the caller's own unless the
/// role sees all names; in their order.
pub open spec fn listed_options(users: Seq<User>, role: Seq<char>, me: i32) -> Seq<User>
    decreases users.len(),
{
    if users.len() == 0 {
        users
    } else {
        let u = users.last();
        let rest = listed_options(users.drop_last(), role, me);
        if !u.deleted && (sees_all_names(role) || u.id == me) {
            rest.push(u)
        } else {
            rest
        }
    }
}

/// The names that the caller's pages may resolve among `users`.
pub fn list_user_options(auth: &AuthUser, users: &Vec<User>) -> (r: Vec<UserOption>)
    ensures
        r@.len() == listed_options(users@, auth.role@, auth.user_id).len(),
        forall|i: int|
            0 <= i < r@.len() ==> (#[trigger] r@[i]).id == listed_options(users@, auth.role@, auth.user_id)[i].id
                && r@[i].username == listed_options(users@, auth.role@, auth.user_id)[i].username,
{
    let role = auth.role.as_str();
    let all = is_admin(role) || is_timekeeper(role) || is_dept_manager(role) || is_project_manager_role(role);
    let mut r: Vec<UserOption> = Vec::new();
    let mut i: usize = 0;
    while i < users.len()
        invariant
            i <= users@.len(),
            all == sees_all_names(auth.role@),
            r@.len() == listed_options(users@.take(i as int), auth.role@, auth.user_id).len(),
            forall|j: int|
                0 <= j < r@.len() ==> (#[trigger] r@[j]).id == listed_options(users@.take(i as int), auth.role@, auth.user_id)[j].id
                    && r@[j].username == listed_options(users@.take(i as int), auth.role@, auth.user_id)[j].username,
        decreases users.len() - i,
    {
        assert(users@.take(i + 1).drop_last() =~= users@.take(i as int));
        let u = &users[i];
        let ghost prev = r@;
        let ghost before = listed_options(users@.take(i as int), auth.role@, auth.user_id);
        let ghost after = listed_options(users@.take(i + 1), auth.role@, auth.user_id);
        if !u.deleted && (all || u.id == auth.user_id) {
            r.push(UserOption { id: u.id, username: u.username.clone() });
            assert(after == before.push(users@[i as int]));
            assert forall|j: int| 0 <= j < r@.len() implies (#[trigger] r@[j]).id == after[j].id
                && r@[j].username == after[j].username by {
                if j < prev.len() {
                    assert(r@[j] == prev[j]);
                    assert(prev[j].id == before[j].id);
                }
            }
        } else {
            assert(after == before);
        }
        i = i + 1;
    }
    assert(users@.take(users@.len() as int) =~= users@);
    let ghost all_listed = listed_options(users@, auth.role@, auth.user_id);
    assert forall|j: int| 0 <= j < r@.len() implies (#[trigger] r@[j]).id == all_listed[j].id
        && r@[j].username == all_listed[j].username by {
        assert(r@[j].id == listed_options(users@.take(users@.len() as int), auth.role@, auth.user_id)[j].id);
    }
    r
}

/// A caller whose role does not see all names resolves only their own.
pub proof fn lemma_options_only_own(users: Seq<User>, role: Seq<char>, me: i32, i: int)
    requires
        !sees_all_names(role),
        0 <= i < listed_options(users, role, me).len(),
    ensures
        listed_options(users, role, me)[i].id == me,
    decreases users.len(),
{
    let rest = listed_options(users.drop_last(), role, me);
    if i < rest.len() {
        lemma_options_only_own(users.drop_last(), role, me, i);
    }
}

/// The accounts of `users` that are not deleted, in their order.
pub open spec fn live_accounts(users: Seq<User>) -> Seq<User>
    decreases users.len(),
{
    if users.len() == 0 {
        users
    } else if !users.last().deleted {
        live_accounts(users.drop_last()).push(users.last())
    } else {
        live_accounts(users.drop_last())
    }
}

/// The account as administrators see it.
pub fn user_response(u: &User) -> (r: UserResponse)
    ensures
        r == (UserResponse {
            id: u.id,
            username: u.username,
            email: u.email,
            role: u.role,
            department_id: u.department_id,
        }),
{
    UserResponse {
        id: u.id,
        username: u.username.clone(),
        email: u.email.clone(),
        role: u.role.clone(),
        department_id: u.department_id,
    }
}

/// The accounts that are not deleted, for administrators, timekeepers and
/// department managers.
pub fn list_users(auth: &AuthUser, users: &Vec<User>) -> (r: Result<Vec<UserResponse>, Failure>)
    ensures
        !is_staff(auth.role@) ==> (r matches Err(f) && f == Failure::NoPermission),
        is_staff(auth.role@) ==> (r matches Ok(list) && list@.len() == live_accounts(users@).len()
            && forall|i: int|
            0 <= i < list@.len() ==> #[trigger] list@[i] == (UserResponse {
                id: live_accounts(users@)[i].id,
                username: live_accounts(users@)[i].username,
                email: live_accounts(users@)[i].email,
                role: live_accounts(users@)[i].role,
                department_id: live_accounts(users@)[i].department_id,
            })),
{
    if !staff(auth.role.as_str()) {
        return Err(Failure::NoPermission);
    }
    let mut r: Vec<UserResponse> = Vec::new();
    let mut i: usize = 0;
    while i < users.len()
        invariant
            i <= users@.len(),
            r@.len() == live_accounts(users@.take(i as int)).len(),
            forall|j: int|
                0 <= j < r@.len() ==> #[trigger] r@[j] == (UserResponse {
                    id: live_accounts(users@.take(i as int))[j].id,
                    username: live_accounts(users@.take(i as int))[j].username,
                    email: live_accounts(users@.take(i as int))[j].email,
                    role: live_accounts(users@.take(i as int))[j].role,
                    department_id: live_accounts(users@.take(i as int))[j].department_id,
                }),
        decreases users.len() - i,
    {
        assert(users@.take(i + 1).drop_last() =~= users@.take(i as int));
        if !users[i].deleted {
            r.push(user_response(&users[i]));
        }
        i = i + 1;
    }
    assert(users@.take(users@.len() as int) =~= users@);
    Ok(r)
}

/// The account that an administrator creates, its password hashed.
pub fn new_user(auth: &AuthUser, payload: CreateUser) -> (r: Result<NewUser, Failure>)
    ensures
        auth.role@ != admin() ==> r == Err::<NewUser, Failure>(Failure::NoPermission),
        auth.role@ == admin() ==> (r matches Ok(u) && u == (NewUser {
            username: payload.username,
            email: payload.email,
            password_hash: u.password_hash,
            role: payload.role,
            department_id: payload.department_id,
        }) && (u.password_hash@.len() == 0 || bcrypt_accepts(payload.password@, u.password_hash@))),
{
    if !is_admin(auth.role.as_str()) {
        return Err(Failure::NoPermission);
    }
    let password_hash = hash_password(payload.password.as_str());
    Ok(
        NewUser {
            username: payload.username,
            email: payload.email,
            password_hash,
            role: payload.role,
            department_id: payload.department_id,
        },
    )
}

/// Checks that an administrator deletes an existing account (`existing` is
/// the lookup of its identifier); deletion only marks the account.
pub fn delete_user(auth: &AuthUser, existing: Option<User>) -> (r: Result<User, Failure>)
    ensures
        r == (if auth.role@ != admin() {
            Err(Failure::NoPermission)
        } else {
            match existing {
                None => Err(Failure::AccountNotFound),
                Some(u) => Ok(User { deleted: true, ..u }),
            }
        }),
{
    if !is_admin(auth.role.as_str()) {
        return Err(Failure::NoPermission);
    }
    match existing {
        None => Err(Failure::AccountNotFound),
        Some(u) => {
            let mut u = u;
            u.deleted = true;
            Ok(u)
        },
    }
}

/// The account `existing` (the lookup of its identifier) changed by an
/// administrator: each field given replaces the old one, a new password
/// being hashed.
pub fn update_user(auth: &AuthUser, existing: Option<User>, payload: UpdateUser) -> (r: Result<User, Failure>)
    ensures
        auth.role@ != admin() ==> r == Err::<User, Failure>(Failure::NoPermission),
        auth.role@ == admin() ==> match existing {
            None => r == Err::<User, Failure>(Failure::AccountNotFound),
            Some(old) => r matches Ok(u) && u == (User {
                username: match payload.username {
                    Some(v) => v,
                    None => old.username,
                },
                email: match payload.email {
                    Some(v) => v,
                    None => old.email,
                },
                password_hash: u.password_hash,
                role: match payload.role {
                    Some(v) => v,
                    None => old.role,
                },
                department_id: match payload.department_id {
                    Some(v) => v,
                    None => old.department_id,
                },
                ..old
            }) && match payload.password {
                Some(p) => u.password_hash@.len() == 0 || bcrypt_accepts(p@, u.password_hash@),
                None => u.password_hash == old.password_hash,
            },
        },
{
    if !is_admin(auth.role.as_str()) {
        return Err(Failure::NoPermission);
    }
    let mut u = match existing {
        None => {
            return Err(Failure::AccountNotFound);
        },
        Some(u) => u,
    };
    if let Some(username) = payload.username {
        u.username = username;
    }
    if let Some(email) = payload.email {
        u.email = email;
    }
    if let Some(password) = payload.password {
        u.password_hash = hash_password(password.as_str());
    }
    if let Some(role) = payload.role {
        u.role = role;
    }
    if let Some(department_id) = payload.department_id {
        u.department_id = department_id;
    }
    Ok(u)
}

/// Administrators, timekeepers, department managers and project managers
/// resolve the name of every account that is not deleted, in order; any
/// other caller resolves only their own.
pub proof fn lemma_listed_names(users: Seq<User>, role: Seq<char>, me: i32)
    ensures
        (role == "admin"@ || role == "timekeeper"@ || role == "dept_manager"@ || role
            == "project_manager"@) ==> listed_options(users, role, me) == users.filter(
            |u: User| !u.deleted,
        ),
        !(role == "admin"@ || role == "timekeeper"@ || role == "dept_manager"@ || role
            == "project_manager"@) ==> listed_options(users, role, me) == users.filter(
            |u: User| !u.deleted && u.id == me,
        ),
    decreases users.len(),
{
    reveal_with_fuel(Seq::<_>::filter, 1);
    let live = |u: User| !u.deleted;
    let own = |u: User| !u.deleted && u.id == me;
    if users.len() > 0 {
        lemma_listed_names(users.drop_last(), role, me);
        assert(users.filter(live) == {
            let sub = users.drop_last().filter(live);
            if live(users.last()) { sub.push(users.last()) } else { sub }
        });
        assert(users.filter(own) == {
            let sub = users.drop_last().filter(own);
            if own(users.last()) { sub.push(users.last()) } else { sub }
        });
    }
}

} // verus!
