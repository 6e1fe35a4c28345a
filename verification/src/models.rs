//! The records that the service keeps, holding as plain values what its
//! rules read. Identifiers are given by the store when a record is inserted.
use vstd::prelude::*;
use crate::calendar::Date;

verus! {

/// An account (a row of `users`). `deleted` marks an account that was removed.
pub struct User {
    pub id: i32,
    pub username: String,
    pub email: String,
    pub password_hash: String,
    pub role: String,
    pub department_id: Option<i32>,
    pub deleted: bool,
}

/// An account that is about to be inserted.
pub struct NewUser {
    pub username: String,
    pub email: String,
    pub password_hash: String,
    pub role: String,
    pub department_id: Option<i32>,
}

/// A department (a row of `departments`).
pub struct Department {
    pub id: i32,
    pub name: String,
    pub parent_id: Option<i32>,
}

/// A project (a row of `projects`).
pub struct Project {
    pub id: i32,
    pub project_no: Option<String>,
    pub name: String,
    pub code: Option<String>,
    pub project_type: String,
    pub status: String,
    pub cycle: Option<String>,
    pub owner: Option<String>,
    pub description: Option<String>,
}

/// A project that is about to be inserted.
pub struct NewProject {
    pub project_no: Option<String>,
    pub name: String,
    pub code: Option<String>,
    pub project_type: String,
    pub status: String,
    pub cycle: Option<String>,
    pub owner: Option<String>,
    pub description: Option<String>,
}

/// What the approval workflow reads of a time entry (a row of `time_entries`);
/// the hours and the modification log stay with the store.
pub struct TimeEntry {
    pub id: i32,
    pub user_id: i32,
    pub project_id: Option<i32>,
    pub work_date: Date,
    pub description: String,
    pub status: String,
    pub approved_by: Option<i32>,
    pub second_approved_by: Option<i32>,
    pub second_status: Option<String>,
    pub edit_allowed: i32,
    pub edit_requested: i32,
}

/// A registration request (a row of `registration_requests`).
pub struct RegistrationRequest {
    pub id: i32,
    pub username: String,
    pub email: String,
    pub password_hash: String,
    pub department_id: i32,
    pub status: String,
    pub assigned_approver_role: Option<String>,
    pub assigned_approver_id: Option<i32>,
    pub approved_by: Option<i32>,
    pub rejected_by: Option<i32>,
    pub reject_reason: Option<String>,
}

/// A registration request that is about to be inserted.
pub struct NewRegistrationRequest {
    pub username: String,
    pub email: String,
    pub password_hash: String,
    pub department_id: i32,
    pub status: String,
    pub assigned_approver_role: Option<String>,
    pub assigned_approver_id: Option<i32>,
}

pub fn clone_opt_string(s: &Option<String>) -> (r: Option<String>)
    ensures
        r == *s,
{
    match s {
        Some(v) => Some(v.clone()),
        None => None,
    }
}

impl Clone for User {
    fn clone(&self) -> (r: Self)
        ensures
            r == *self,
    {
        User {
            id: self.id,
            username: self.username.clone(),
            email: self.email.clone(),
            password_hash: self.password_hash.clone(),
            role: self.role.clone(),
            department_id: self.department_id,
            deleted: self.deleted,
        }
    }
}

impl Clone for Department {
    fn clone(&self) -> (r: Self)
        ensures
            r == *self,
    {
        Department { id: self.id, name: self.name.clone(), parent_id: self.parent_id }
    }
}

impl Clone for Project {
    fn clone(&self) -> (r: Self)
        ensures
            r == *self,
    {
        Project {
            id: self.id,
            project_no: clone_opt_string(&self.project_no),
            name: self.name.clone(),
            code: clone_opt_string(&self.code),
            project_type: self.project_type.clone(),
            status: self.status.clone(),
            cycle: clone_opt_string(&self.cycle),
            owner: clone_opt_string(&self.owner),
            description: clone_opt_string(&self.description),
        }
    }
}

impl Clone for TimeEntry {
    fn clone(&self) -> (r: Self)
        ensures
            r == *self,
    {
        TimeEntry {
            id: self.id,
            user_id: self.user_id,
            project_id: self.project_id,
            work_date: self.work_date,
            description: self.description.clone(),
            status: self.status.clone(),
            approved_by: self.approved_by,
            second_approved_by: self.second_approved_by,
            second_status: clone_opt_string(&self.second_status),
            edit_allowed: self.edit_allowed,
            edit_requested: self.edit_requested,
        }
    }
}

impl Clone for RegistrationRequest {
    fn clone(&self) -> (r: Self)
        ensures
            r == *self,
    {
        RegistrationRequest {
            id: self.id,
            username: self.username.clone(),
            email: self.email.clone(),
            password_hash: self.password_hash.clone(),
            department_id: self.department_id,
            status: self.status.clone(),
            assigned_approver_role: clone_opt_string(&self.assigned_approver_role),
            assigned_approver_id: self.assigned_approver_id,
            approved_by: self.approved_by,
            rejected_by: self.rejected_by,
            reject_reason: clone_opt_string(&self.reject_reason),
        }
    }
}

/// The first account of `users` with identifier `id`.
pub open spec fn user_with_id(users: Seq<User>, id: i32) -> Option<User>
    decreases users.len(),
{
    if users.len() == 0 {
        None
    } else if users[0].id == id {
        Some(users[0])
    } else {
        user_with_id(users.drop_first(), id)
    }
}

/// The first project of `projects` with identifier `id`.
pub open spec fn project_with_id(projects: Seq<Project>, id: i32) -> Option<Project>
    decreases projects.len(),
{
    if projects.len() == 0 {
        None
    } else if projects[0].id == id {
        Some(projects[0])
    } else {
        project_with_id(projects.drop_first(), id)
    }
}

/// Looks up the account with identifier `id` among `users`.
pub fn find_user(users: &Vec<User>, id: i32) -> (r: Option<&User>)
    ensures
        match r {
            Some(u) => user_with_id(users@, id) == Some(*u),
            None => user_with_id(users@, id) is None,
        },
{
    let mut i: usize = 0;
    assert(users@.skip(0) =~= users@);
    while i < users.len()
        invariant
            i <= users@.len(),
            user_with_id(users@, id) == user_with_id(users@.skip(i as int), id),
        decreases users.len() - i,
    {
        assert(users@.skip(i as int).drop_first() =~= users@.skip(i + 1));
        if users[i].id == id {
            return Some(&users[i]);
        }
        i = i + 1;
    }
    None
}

/// Looks up the project with identifier `id` among `projects`.
pub fn find_project(projects: &Vec<Project>, id: i32) -> (r: Option<&Project>)
    ensures
        match r {
            Some(p) => project_with_id(projects@, id) == Some(*p),
            None => project_with_id(projects@, id) is None,
        },
{
    let mut i: usize = 0;
    assert(projects@.skip(0) =~= projects@);
    while i < projects.len()
        invariant
            i <= projects@.len(),
            project_with_id(projects@, id) == project_with_id(projects@.skip(i as int), id),
        decreases projects.len() - i,
    {
        assert(projects@.skip(i as int).drop_first() =~= projects@.skip(i + 1));
        if projects[i].id == id {
            return Some(&projects[i]);
        }
        i = i + 1;
    }
    None
}

} // verus!
