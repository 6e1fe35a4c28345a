//! Projects: who may manage them, and how a project is created, changed,
//! deleted and shown.
use vstd::prelude::*;
use crate::auth::AuthUser;
use crate::error::Failure;
use crate::models::{clone_opt_string, NewProject, Project};
use crate::roles::{admin, is_admin, is_timekeeper, timekeeper};

verus! {

/// The status of a project that is under way.
pub open spec fn active_status() -> Seq<char> {
    "进行中"@
}

/// A project to create.
pub struct CreateProject {
    pub project_no: Option<String>,
    pub name: String,
    pub code: Option<String>,
    pub project_type: String,
    pub status: Option<String>,
    pub cycle: Option<String>,
    pub owner: Option<String>,
    pub description: Option<String>,
}

/// A change to a project: each field that is present replaces the old value.
pub struct UpdateProject {
    pub project_no: Option<String>,
    pub name: Option<String>,
    pub code: Option<String>,
    pub project_type: Option<String>,
    pub status: Option<String>,
    pub cycle: Option<String>,
    pub owner: Option<String>,
    pub description: Option<String>,
}

/// A project as it is shown.
pub struct ProjectResponse {
    pub id: i32,
    pub project_no: Option<String>,
    pub name: String,
    pub code: Option<String>,
    pub project_type: String,
    pub status: String,
    pub cycle: Option<String>,
    pub owner: Option<String>,
    pub description: Option<String>,
}

/// Whether `role` may create, change and delete projects.
pub fn is_project_manager(role: &str) -> (r: bool)
    ensures
        r == (role@ == admin() || role@ == timekeeper()),
{
    is_admin(role) || is_timekeeper(role)
}

/// The project as it is shown.
pub fn to_response(p: Project) -> (r: ProjectResponse)
    ensures
        r == (ProjectResponse {
            id: p.id,
            project_no: p.project_no,
            name: p.name,
            code: p.code,
            project_type: p.project_type,
            status: p.status,
            cycle: p.cycle,
            owner: p.owner,
            description: p.description,
        }),
{
    ProjectResponse {
        id: p.id,
        project_no: p.project_no,
        name: p.name,
        code: p.code,
        project_type: p.project_type,
        status: p.status,
        cycle: p.cycle,
        owner: p.owner,
        description: p.description,
    }
}

/// The project to insert for `payload`; its status is under way unless given.
pub fn new_project(auth: &AuthUser, payload: CreateProject) -> (r: Result<NewProject, Failure>)
    ensures
        !(auth.role@ == admin() || auth.role@ == timekeeper()) ==> r == Err::<NewProject, Failure>(
            Failure::ProjectCreateForbidden,
        ),
        (auth.role@ == admin() || auth.role@ == timekeeper()) ==> (r matches Ok(p) && p == (
        NewProject {
            project_no: payload.project_no,
            name: payload.name,
            code: payload.code,
            project_type: payload.project_type,
            status: p.status,
            cycle: payload.cycle,
            owner: payload.owner,
            description: payload.description,
        }) && match payload.status {
            Some(s) => p.status == s,
            None => p.status@ == active_status(),
        }),
{
    if !is_project_manager(auth.role.as_str()) {
        return Err(Failure::ProjectCreateForbidden);
    }
    let status = match payload.status {
        Some(s) => s,
        None => String::from_str("进行中"),
    };
    Ok(
        NewProject {
            project_no: payload.project_no,
            name: payload.name,
            code: payload.code,
            project_type: payload.project_type,
            status,
            cycle: payload.cycle,
            owner: payload.owner,
            description: payload.description,
        },
    )
}

/// The new value of an optional field: the given one, else the old one.
pub open spec fn patched_opt(given: Option<String>, old: Option<String>) -> Option<String> {
    match given {
        Some(v) => Some(v),
        None => old,
    }
}

/// The new value of a field: the given one, else the old one.
pub open spec fn patched(given: Option<String>, old: String) -> String {
    match given {
        Some(v) => v,
        None => old,
    }
}

fn patch_opt(given: Option<String>, old: Option<String>) -> (r: Option<String>)
    ensures
        r == patched_opt(given, old),
{
    match given {
        Some(v) => Some(v),
        None => old,
    }
}

fn patch(given: Option<String>, old: String) -> (r: String)
    ensures
        r == patched(given, old),
{
    match given {
        Some(v) => v,
        None => old,
    }
}

/// The project `existing` (`None` when it was not found) with the fields
/// that `payload` gives replaced.
pub fn update_project(auth: &AuthUser, existing: Option<Project>, payload: UpdateProject) -> (r: Result<Project, Failure>)
    ensures
        !(auth.role@ == admin() || auth.role@ == timekeeper()) ==> r == Err::<Project, Failure>(
            Failure::ProjectUpdateForbidden,
        ),
        (auth.role@ == admin() || auth.role@ == timekeeper()) ==> match existing {
            None => r == Err::<Project, Failure>(Failure::ProjectNotFound),
            Some(p) => r == Ok::<Project, Failure>(
                Project {
                    id: p.id,
                    project_no: patched_opt(payload.project_no, p.project_no),
                    name: patched(payload.name, p.name),
                    code: patched_opt(payload.code, p.code),
                    project_type: patched(payload.project_type, p.project_type),
                    status: patched(payload.status, p.status),
                    cycle: patched_opt(payload.cycle, p.cycle),
                    owner: patched_opt(payload.owner, p.owner),
                    description: patched_opt(payload.description, p.description),
                },
            ),
        },
{
    if !is_project_manager(auth.role.as_str()) {
        return Err(Failure::ProjectUpdateForbidden);
    }
    match existing {
        None => Err(Failure::ProjectNotFound),
        Some(p) => Ok(
            Project {
                id: p.id,
                project_no: patch_opt(payload.project_no, p.project_no),
                name: patch(payload.name, p.name),
                code: patch_opt(payload.code, p.code),
                project_type: patch(payload.project_type, p.project_type),
                status: patch(payload.status, p.status),
                cycle: patch_opt(payload.cycle, p.cycle),
                owner: patch_opt(payload.owner, p.owner),
                description: patch_opt(payload.description, p.description),
            },
        ),
    }
}

/// Checks that the caller may delete the project `existing` (`None` when it
/// was not found), which `referencing_entries` time entries name.
pub fn check_delete_project(auth: &AuthUser, referencing_entries: u64, existing: Option<&Project>) -> (r: Result<(), Failure>)
    ensures
        r == (if !(auth.role@ == admin() || auth.role@ == timekeeper()) {
            Err(Failure::ProjectDeleteForbidden)
        } else if referencing_entries > 0 {
            Err(Failure::ProjectReferenced(referencing_entries))
        } else if existing is None {
            Err(Failure::ProjectNotFound)
        } else {
            Ok::<(), Failure>(())
        }),
{
    if !is_project_manager(auth.role.as_str()) {
        return Err(Failure::ProjectDeleteForbidden);
    }
    if referencing_entries > 0 {
        return Err(Failure::ProjectReferenced(referencing_entries));
    }
    if existing.is_none() {
        return Err(Failure::ProjectNotFound);
    }
    Ok(())
}

} // verus!
