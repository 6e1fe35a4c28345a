//! The time entry workflow: the status an entry starts in, the first approval
//! by a department manager, the second approval by the project owner,
//! requests to edit approved entries, changes and withdrawals.
use vstd::prelude::*;
use crate::auth::AuthUser;
use crate::calendar::{same_month, Date};
use crate::error::Failure;
use crate::models::{
    clone_opt_string, find_project, find_user, project_with_id, user_with_id, Project, TimeEntry,
    User,
};
use crate::project::active_status;
use crate::roles::{lemma_roles_distinct, admin, dept_manager, is_admin, is_dept_manager, is_project_manager_role, project_manager};
use crate::text::{str_eq, trim, trimmed};

verus! {

pub open spec fn pending() -> Seq<char> {
    "pending"@
}

pub open spec fn dept_approved() -> Seq<char> {
    "dept_approved"@
}

pub open spec fn approved() -> Seq<char> {
    "approved"@
}

pub open spec fn rejected() -> Seq<char> {
    "rejected"@
}

/// The most entries one batch may hold.
pub const MAX_BATCH_ENTRIES: usize = 500;

/// An approver's decision on an entry.
pub struct UpdateStatus {
    pub status: String,
}

/// The views of an optional string.
pub open spec fn opt_view(o: Option<String>) -> Option<Seq<char>> {
    match o {
        Some(s) => Some(s@),
        None => None,
    }
}

/// The optional string borrowed (`Option::as_deref`).
pub fn opt_str(o: &Option<String>) -> (r: Option<&str>)
    ensures
        match r {
            Some(s) => opt_view(*o) == Some(s@),
            None => o is None,
        },
{
    match o {
        Some(s) => Some(s.as_str()),
        None => None,
    }
}

/// Project types whose entries need a second approval by the project owner.
pub open spec fn is_second_stage_type(t: Seq<char>) -> bool {
    t == "交付"@ || t == "研发"@ || t == "售前"@
}

/// An owner is named: present and not blank.
pub open spec fn owner_named(owner: Option<Seq<char>>) -> bool {
    owner matches Some(v) && trimmed(v).len() > 0
}

/// The named owner, trimmed, is `username`.
pub open spec fn owned_by(owner: Option<Seq<char>>, username: Seq<char>) -> bool {
    owner matches Some(v) && trimmed(v).len() > 0 && trimmed(v) == username
}

/// Entries on `p` need a second approval: its type asks for one and it has an owner.
pub open spec fn needs_second_stage(p: Project) -> bool {
    is_second_stage_type(p.project_type@) && owner_named(opt_view(p.owner))
}

pub fn needs_second_approval(project_type: &str) -> (r: bool)
    ensures
        r == is_second_stage_type(project_type@),
{
    str_eq(project_type, "交付") || str_eq(project_type, "研发") || str_eq(project_type, "售前")
}

pub fn has_project_owner(owner: Option<&str>) -> (r: bool)
    ensures
        r == owner_named(
            match owner {
                Some(v) => Some(v@),
                None => None,
            },
        ),
{
    match owner {
        Some(v) => {
            let t = trim(v);
            !t.as_str().is_empty()
        },
        None => false,
    }
}

pub fn is_project_owner(owner: Option<&str>, username: &str) -> (r: bool)
    ensures
        r == owned_by(
            match owner {
                Some(v) => Some(v@),
                None => None,
            },
            username@,
        ),
{
    match owner {
        Some(v) => {
            let t = trim(v);
            !t.as_str().is_empty() && str_eq(t.as_str(), username)
        },
        None => false,
    }
}

pub fn project_requires_second_approval(project: &Project) -> (r: bool)
    ensures
        r == needs_second_stage(*project),
{
    needs_second_approval(project.project_type.as_str()) && has_project_owner(opt_str(&project.owner))
}

/// The status a new entry starts in. Entries of department managers need no
/// first approval: they start approved, or awaiting the second approval when
/// their project needs one and someone else owns it.
pub open spec fn initial_status(role: Seq<char>, project: Option<Project>, username: Option<Seq<char>>) -> Seq<char> {
    if role != dept_manager() {
        pending()
    } else {
        match project {
            Some(p) => if needs_second_stage(p) {
                match username {
                    Some(u) => if owned_by(opt_view(p.owner), u) {
                        approved()
                    } else {
                        dept_approved()
                    },
                    None => dept_approved(),
                }
            } else {
                approved()
            },
            None => approved(),
        }
    }
}

pub fn resolve_initial_status(auth: &AuthUser, project: Option<&Project>, username: Option<&str>) -> (r: &'static str)
    ensures
        r@ == initial_status(
            auth.role@,
            match project {
                Some(p) => Some(*p),
                None => None,
            },
            match username {
                Some(u) => Some(u@),
                None => None,
            },
        ),
{
    if !is_dept_manager(auth.role.as_str()) {
        return "pending";
    }
    match project {
        Some(p) => {
            if project_requires_second_approval(p) {
                match username {
                    Some(uname) => {
                        if is_project_owner(opt_str(&p.owner), uname) {
                            "approved"
                        } else {
                            "dept_approved"
                        }
                    },
                    None => "dept_approved",
                }
            } else {
                "approved"
            }
        },
        None => "approved",
    }
}

/// Checks the project an entry names: `found` is what the lookup of
/// `project_id` gave. An entry may name no project, or one under way.
pub fn active_project(project_id: Option<i32>, found: Option<Project>) -> (r: Result<Option<Project>, Failure>)
    ensures
        r == (match project_id {
            None => Ok(None),
            Some(_) => match found {
                None => Err(Failure::ProjectNotFound),
                Some(p) => if p.status@ == active_status() {
                    Ok(Some(p))
                } else {
                    Err(Failure::ProjectInactive)
                },
            },
        }),
{
    match project_id {
        None => Ok(None),
        Some(_) => match found {
            None => Err(Failure::ProjectNotFound),
            Some(p) => {
                if str_eq(p.status.as_str(), "进行中") {
                    Ok(Some(p))
                } else {
                    Err(Failure::ProjectInactive)
                }
            },
        },
    }
}

/// The user name of a department manager making a request (`me` is the
/// lookup of the caller's account); other roles need none.
pub fn current_username_if_dept_manager(auth: &AuthUser, me: Option<&User>) -> (r: Result<Option<String>, Failure>)
    ensures
        r == (if auth.role@ != dept_manager() {
            Ok(None)
        } else {
            match me {
                Some(u) => Ok(Some(u.username)),
                None => Err(Failure::CurrentUserNotFound),
            }
        }),
{
    if !is_dept_manager(auth.role.as_str()) {
        return Ok(None);
    }
    match me {
        Some(u) => Ok(Some(u.username.clone())),
        None => Err(Failure::CurrentUserNotFound),
    }
}

/// The fields of a new entry that the workflow decides; the hours come with it.
pub struct NewTimeEntry {
    pub user_id: i32,
    pub project_id: Option<i32>,
    pub work_date: Date,
    pub description: String,
    pub work_type: String,
    pub status: String,
    pub edit_allowed: i32,
}

/// A new entry of the caller: its description trimmed, in the given status.
pub fn new_time_entry(auth: &AuthUser, project_id: Option<i32>, work_date: Date, description: &str, status: &str) -> (r: NewTimeEntry)
    ensures
        r.user_id == auth.user_id,
        r.project_id == project_id,
        r.work_date == work_date,
        r.description@ == trimmed(description@),
        r.work_type@ == "development"@,
        r.status@ == status@,
        r.edit_allowed == 0,
{
    NewTimeEntry {
        user_id: auth.user_id,
        project_id,
        work_date,
        description: trim(description),
        work_type: String::from_str("development"),
        status: String::from_str(status),
        edit_allowed: 0,
    }
}

/// Checks the size of a batch of new entries.
pub fn check_batch_size(count: usize) -> (r: Result<(), Failure>)
    ensures
        r == (if count == 0 {
            Err(Failure::BatchEmpty)
        } else if count > MAX_BATCH_ENTRIES {
            Err(Failure::BatchTooLarge)
        } else {
            Ok::<(), Failure>(())
        }),
{
    if count == 0 {
        Err(Failure::BatchEmpty)
    } else if count > MAX_BATCH_ENTRIES {
        Err(Failure::BatchTooLarge)
    } else {
        Ok(())
    }
}

/// Checks the description of row `row` (counted from 1) of a batch.
pub fn check_batch_description(row: u64, description: &str) -> (r: Result<(), Failure>)
    ensures
        r == (if trimmed(description@).len() == 0 {
            Err(Failure::RowDescriptionEmpty(row))
        } else {
            Ok::<(), Failure>(())
        }),
{
    let t = trim(description);
    if t.as_str().is_empty() {
        Err(Failure::RowDescriptionEmpty(row))
    } else {
        Ok(())
    }
}

/// Checks the project of row `row` of a batch, as `active_project` does.
pub fn batch_row_project(row: u64, project_id: Option<i32>, found: Option<Project>) -> (r: Result<Option<Project>, Failure>)
    ensures
        r == (match project_id {
            None => Ok(None),
            Some(_) => match found {
                None => Err(Failure::RowProjectNotFound(row)),
                Some(p) => if p.status@ == active_status() {
                    Ok(Some(p))
                } else {
                    Err(Failure::RowProjectInactive(row))
                },
            },
        }),
{
    match active_project(project_id, found) {
        Ok(p) => Ok(p),
        Err(Failure::ProjectNotFound) => Err(Failure::RowProjectNotFound(row)),
        Err(_) => Err(Failure::RowProjectInactive(row)),
    }
}

/// Whether a department manager looks after the owner of an entry: the
/// manager's account (`me`) and the owner's account (`owner`) are in the same
/// department. Fails as the service does when either is missing.
pub open spec fn manages_owner_failure(me: Option<User>, owner: Option<User>, wrong_department: Failure) -> Option<Failure> {
    match me {
        None => Some(Failure::CurrentUserNotFound),
        Some(m) => match m.department_id {
            None => Some(Failure::ManagerWithoutDepartment),
            Some(dept) => match owner {
                None => Some(Failure::EntryOwnerNotFound),
                Some(o) => if o.department_id != Some(dept) {
                    Some(wrong_department)
                } else {
                    None
                },
            },
        },
    }
}

fn check_manages_owner(me: Option<&User>, owner: Option<&User>, wrong_department: Failure) -> (r: Result<(), Failure>)
    ensures
        match manages_owner_failure(
            match me {
                Some(m) => Some(*m),
                None => None,
            },
            match owner {
                Some(o) => Some(*o),
                None => None,
            },
            wrong_department,
        ) {
            Some(f) => r == Err::<(), Failure>(f),
            None => r == Ok::<(), Failure>(()),
        },
{
    match me {
        None => Err(Failure::CurrentUserNotFound),
        Some(m) => match m.department_id {
            None => Err(Failure::ManagerWithoutDepartment),
            Some(dept) => match owner {
                None => Err(Failure::EntryOwnerNotFound),
                Some(o) => {
                    if o.department_id != Some(dept) {
                        Err(wrong_department)
                    } else {
                        Ok(())
                    }
                },
            },
        },
    }
}

/// The project of `entry`, looked up among `projects`.
pub open spec fn entry_project(entry: TimeEntry, projects: Seq<Project>) -> Option<Project> {
    match entry.project_id {
        Some(pid) => project_with_id(projects, pid),
        None => None,
    }
}

/// Whether the project of `entry` needs a second approval.
pub open spec fn entry_project_needs_second(entry: TimeEntry, projects: Seq<Project>) -> bool {
    match entry_project(entry, projects) {
        Some(p) => needs_second_stage(p),
        None => false,
    }
}

/// Whether the project of `entry` is owned by `username`.
pub open spec fn entry_project_owned_by(entry: TimeEntry, projects: Seq<Project>, username: Seq<char>) -> bool {
    match entry_project(entry, projects) {
        Some(p) => owned_by(opt_view(p.owner), username),
        None => false,
    }
}

/// Whether the first approval of `entry` by `approver` sends it on to a second approval.
pub open spec fn first_approval_needs_second(entry: TimeEntry, approver: User, projects: Seq<Project>) -> bool {
    match entry_project(entry, projects) {
        Some(p) => needs_second_stage(p) && !owned_by(opt_view(p.owner), approver.username@),
        None => false,
    }
}

/// Why a first approval is refused, if it is. `users` and `projects` hold the
/// accounts and projects that the approval reads.
pub open spec fn first_approval_failure(
    auth: AuthUser,
    verdict: Seq<char>,
    entry: Option<TimeEntry>,
    users: Seq<User>,
    projects: Seq<Project>,
) -> Option<Failure> {
    if auth.role@ != admin() && auth.role@ != dept_manager() {
        Some(Failure::FirstApprovalForbidden)
    } else if verdict != approved() && verdict != rejected() {
        Some(Failure::InvalidApprovalStatus)
    } else {
        match entry {
            None => Some(Failure::EntryNotFound),
            Some(e) => {
                let mf = manages_owner_failure(
                    user_with_id(users, auth.user_id),
                    user_with_id(users, e.user_id),
                    Failure::OtherDepartmentEntry,
                );
                if e.status@ != pending() {
                    Some(Failure::AlreadyApproved)
                } else if auth.role@ == dept_manager() && e.user_id == auth.user_id {
                    Some(Failure::SelfApproval)
                } else if auth.role@ == dept_manager() && (mf is Some) {
                    mf
                } else if entry_project_needs_second(e, projects) && (user_with_id(
                    users,
                    auth.user_id,
                ) is None) {
                    Some(Failure::CurrentUserNotFound)
                } else {
                    None
                }
            },
        }
    }
}

/// The checks of a first approval that need no lookup: the caller's role and
/// the verdict.
pub fn first_approval_gate(auth: &AuthUser, verdict: &UpdateStatus) -> (r: Result<(), Failure>)
    ensures
        r == (if auth.role@ != admin() && auth.role@ != dept_manager() {
            Err(Failure::FirstApprovalForbidden)
        } else if verdict.status@ != approved() && verdict.status@ != rejected() {
            Err(Failure::InvalidApprovalStatus)
        } else {
            Ok::<(), Failure>(())
        }),
{
    if !is_admin(auth.role.as_str()) && !is_dept_manager(auth.role.as_str()) {
        return Err(Failure::FirstApprovalForbidden);
    }
    if !str_eq(verdict.status.as_str(), "approved") && !str_eq(verdict.status.as_str(), "rejected") {
        return Err(Failure::InvalidApprovalStatus);
    }
    Ok(())
}

/// The outcome of a first approval.
pub struct FirstApproval {
    /// The entry as the approval leaves it.
    pub entry: TimeEntry,
    /// Whether the entry now awaits its second approval.
    pub awaiting_second: bool,
}

/// The first approval of an entry (`entry` is the lookup of its id) by a
/// department manager or an administrator. `users` holds at least the
/// caller's account and that of the entry's owner, `projects` at least the
/// entry's project.
pub fn first_approval(
    auth: &AuthUser,
    verdict: &UpdateStatus,
    entry: Option<TimeEntry>,
    users: &Vec<User>,
    projects: &Vec<Project>,
) -> (r: Result<FirstApproval, Failure>)
    ensures
        match first_approval_failure(*auth, verdict.status@, entry, users@, projects@) {
            Some(f) => r matches Err(e) && e == f,
            None => r matches Ok(out) && entry matches Some(e) && ({
                let second = verdict.status@ == approved() && first_approval_needs_second(
                    e,
                    user_with_id(users@, auth.user_id)->0,
                    projects@,
                );
                &&& out.awaiting_second == second
                &&& out.entry == (TimeEntry {
                    status: out.entry.status,
                    approved_by: Some(auth.user_id),
                    ..e
                })
                &&& out.entry.status@ == (if second {
                    dept_approved()
                } else {
                    verdict.status@
                })
            }),
        },
{
    first_approval_gate(auth, verdict)?;
    let mut e = match entry {
        None => {
            return Err(Failure::EntryNotFound);
        },
        Some(e) => e,
    };
    if !str_eq(e.status.as_str(), "pending") {
        return Err(Failure::AlreadyApproved);
    }
    if is_dept_manager(auth.role.as_str()) {
        if e.user_id == auth.user_id {
            return Err(Failure::SelfApproval);
        }
        check_manages_owner(find_user(users, auth.user_id), find_user(users, e.user_id), Failure::OtherDepartmentEntry)?;
    }
    let requires_second = match e.project_id {
        Some(pid) => match find_project(projects, pid) {
            Some(p) => {
                if project_requires_second_approval(p) {
                    let approver = match find_user(users, auth.user_id) {
                        Some(u) => u,
                        None => {
                            return Err(Failure::CurrentUserNotFound);
                        },
                    };
                    !is_project_owner(opt_str(&p.owner), approver.username.as_str())
                } else {
                    false
                }
            },
            None => false,
        },
        None => false,
    };
    let is_approval = str_eq(verdict.status.as_str(), "approved");
    if is_approval && requires_second {
        e.status = String::from_str("dept_approved");
    } else {
        e.status = verdict.status.clone();
    }
    e.approved_by = Some(auth.user_id);
    Ok(FirstApproval { entry: e, awaiting_second: is_approval && requires_second })
}

/// Why a second approval is refused, if it is.
pub open spec fn second_approval_failure(
    auth: AuthUser,
    entry: Option<TimeEntry>,
    users: Seq<User>,
    projects: Seq<Project>,
) -> Option<Failure> {
    if auth.role@ != admin() && auth.role@ != project_manager() && auth.role@ != dept_manager() {
        Some(Failure::SecondApprovalForbidden)
    } else {
        match entry {
            None => Some(Failure::EntryNotFound),
            Some(e) => if e.status@ != dept_approved() {
                Some(Failure::NotDeptApproved)
            } else if auth.role@ == dept_manager() {
                match user_with_id(users, auth.user_id) {
                    None => Some(Failure::CurrentUserNotFound),
                    Some(me) => if entry_project_owned_by(e, projects, me.username@) {
                        None
                    } else {
                        Some(Failure::NotProjectOwner)
                    },
                }
            } else {
                None
            },
        }
    }
}

/// The check of a second approval that needs no lookup: the caller's role.
pub fn second_approval_gate(auth: &AuthUser) -> (r: Result<(), Failure>)
    ensures
        r == (if auth.role@ != admin() && auth.role@ != project_manager() && auth.role@ != dept_manager() {
            Err(Failure::SecondApprovalForbidden)
        } else {
            Ok::<(), Failure>(())
        }),
{
    if !is_admin(auth.role.as_str()) && !is_project_manager_role(auth.role.as_str())
        && !is_dept_manager(auth.role.as_str()) {
        return Err(Failure::SecondApprovalForbidden);
    }
    Ok(())
}

/// The second approval of an entry (`entry` is the lookup of its id) by a
/// project manager, an administrator, or a department manager who owns the
/// entry's project. Any verdict but `approved` rejects the entry.
pub fn second_approval(
    auth: &AuthUser,
    verdict: UpdateStatus,
    entry: Option<TimeEntry>,
    users: &Vec<User>,
    projects: &Vec<Project>,
) -> (r: Result<TimeEntry, Failure>)
    ensures
        match second_approval_failure(*auth, entry, users@, projects@) {
            Some(f) => r == Err::<TimeEntry, Failure>(f),
            None => r matches Ok(out) && entry matches Some(e) && out == (TimeEntry {
                status: out.status,
                second_approved_by: Some(auth.user_id),
                second_status: Some(verdict.status),
                ..e
            }) && out.status@ == (if verdict.status@ == approved() {
                approved()
            } else {
                rejected()
            }),
        },
{
    second_approval_gate(auth)?;
    let mut e = match entry {
        None => {
            return Err(Failure::EntryNotFound);
        },
        Some(e) => e,
    };
    if !str_eq(e.status.as_str(), "dept_approved") {
        return Err(Failure::NotDeptApproved);
    }
    if is_dept_manager(auth.role.as_str()) {
        let me = match find_user(users, auth.user_id) {
            Some(u) => u,
            None => {
                return Err(Failure::CurrentUserNotFound);
            },
        };
        let owns = match e.project_id {
            Some(pid) => match find_project(projects, pid) {
                Some(p) => is_project_owner(opt_str(&p.owner), me.username.as_str()),
                None => false,
            },
            None => false,
        };
        if !owns {
            return Err(Failure::NotProjectOwner);
        }
    }
    let is_approval = str_eq(verdict.status.as_str(), "approved");
    e.status = if is_approval {
        String::from_str("approved")
    } else {
        String::from_str("rejected")
    };
    e.second_approved_by = Some(auth.user_id);
    e.second_status = Some(verdict.status);
    Ok(e)
}

/// A request by the owner of an entry to edit it once approved; only for
/// entries of the current month (`today` is the current date).
pub fn request_edit(auth: &AuthUser, entry: Option<TimeEntry>, today: Date) -> (r: Result<TimeEntry, Failure>)
    ensures
        r == (match entry {
            None => Err(Failure::EntryNotFound),
            Some(e) => if e.user_id != auth.user_id {
                Err(Failure::RequestEditNotOwn)
            } else if e.status@ == pending() {
                Err(Failure::PendingDirectlyEditable)
            } else if e.status@ == rejected() {
                Err(Failure::RejectedDirectlyEditable)
            } else if !(e.work_date.year == today.year && e.work_date.month == today.month) {
                Err(Failure::RequestEditOtherMonth)
            } else {
                Ok(TimeEntry { edit_requested: 1, ..e })
            },
        }),
{
    let mut e = match entry {
        None => {
            return Err(Failure::EntryNotFound);
        },
        Some(e) => e,
    };
    if e.user_id != auth.user_id {
        return Err(Failure::RequestEditNotOwn);
    }
    if str_eq(e.status.as_str(), "pending") {
        return Err(Failure::PendingDirectlyEditable);
    }
    if str_eq(e.status.as_str(), "rejected") {
        return Err(Failure::RejectedDirectlyEditable);
    }
    if !same_month(e.work_date, today) {
        return Err(Failure::RequestEditOtherMonth);
    }
    e.edit_requested = 1;
    Ok(e)
}

/// Why a department manager may not act on another's entry, if they may not.
pub open spec fn manager_action_failure(auth: AuthUser, e: TimeEntry, users: Seq<User>) -> Option<Failure> {
    if auth.role@ != dept_manager() {
        None
    } else if e.user_id == auth.user_id {
        Some(Failure::OwnEntryOperation)
    } else {
        manages_owner_failure(
            user_with_id(users, auth.user_id),
            user_with_id(users, e.user_id),
            Failure::OtherDepartmentOperation,
        )
    }
}

fn check_manager_action(auth: &AuthUser, e: &TimeEntry, users: &Vec<User>) -> (r: Result<(), Failure>)
    ensures
        match manager_action_failure(*auth, *e, users@) {
            Some(f) => r == Err::<(), Failure>(f),
            None => r == Ok::<(), Failure>(()),
        },
{
    if is_dept_manager(auth.role.as_str()) {
        if e.user_id == auth.user_id {
            return Err(Failure::OwnEntryOperation);
        }
        check_manages_owner(find_user(users, auth.user_id), find_user(users, e.user_id), Failure::OtherDepartmentOperation)
    } else {
        Ok(())
    }
}

/// The check of a manager's action on an edit that needs no lookup: the
/// caller is an administrator or a department manager; `forbidden` is the
/// refusal otherwise.
pub fn edit_manager_gate(auth: &AuthUser, forbidden: Failure) -> (r: Result<(), Failure>)
    ensures
        r == (if auth.role@ != admin() && auth.role@ != dept_manager() {
            Err(forbidden)
        } else {
            Ok::<(), Failure>(())
        }),
{
    if !is_admin(auth.role.as_str()) && !is_dept_manager(auth.role.as_str()) {
        return Err(forbidden);
    }
    Ok(())
}

/// A department manager or an administrator lets the owner edit an approved
/// entry of the current month.
pub fn allow_edit(auth: &AuthUser, entry: Option<TimeEntry>, today: Date, users: &Vec<User>) -> (r: Result<TimeEntry, Failure>)
    ensures
        r == (if auth.role@ != admin() && auth.role@ != dept_manager() {
            Err(Failure::AllowEditForbidden)
        } else {
            match entry {
                None => Err(Failure::EntryNotFound),
                Some(e) => if !(e.work_date.year == today.year && e.work_date.month == today.month) {
                    Err(Failure::AllowEditOtherMonth)
                } else {
                    match manager_action_failure(*auth, e, users@) {
                        Some(f) => Err(f),
                        None => Ok(TimeEntry { edit_allowed: 1, edit_requested: 0, ..e }),
                    }
                },
            }
        }),
{
    edit_manager_gate(auth, Failure::AllowEditForbidden)?;
    let mut e = match entry {
        None => {
            return Err(Failure::EntryNotFound);
        },
        Some(e) => e,
    };
    if !same_month(e.work_date, today) {
        return Err(Failure::AllowEditOtherMonth);
    }
    check_manager_action(auth, &e, users)?;
    e.edit_allowed = 1;
    e.edit_requested = 0;
    Ok(e)
}

/// A department manager or an administrator turns down a request to edit.
pub fn deny_edit(auth: &AuthUser, entry: Option<TimeEntry>, users: &Vec<User>) -> (r: Result<TimeEntry, Failure>)
    ensures
        r == (if auth.role@ != admin() && auth.role@ != dept_manager() {
            Err(Failure::DenyEditForbidden)
        } else {
            match entry {
                None => Err(Failure::EntryNotFound),
                Some(e) => if e.edit_requested != 1 {
                    Err(Failure::EditNotRequested)
                } else {
                    match manager_action_failure(*auth, e, users@) {
                        Some(f) => Err(f),
                        None => Ok(TimeEntry { edit_requested: 0, ..e }),
                    }
                },
            }
        }),
{
    edit_manager_gate(auth, Failure::DenyEditForbidden)?;
    let mut e = match entry {
        None => {
            return Err(Failure::EntryNotFound);
        },
        Some(e) => e,
    };
    if e.edit_requested != 1 {
        return Err(Failure::EditNotRequested);
    }
    check_manager_action(auth, &e, users)?;
    e.edit_requested = 0;
    Ok(e)
}

/// Whether the caller may change `e`: its owner or an administrator, while
/// the entry awaits approval or was rejected, or once an edit was allowed; a
/// department manager may always change their own entries.
pub open spec fn update_failure(auth: AuthUser, entry: Option<TimeEntry>) -> Option<Failure> {
    match entry {
        None => Some(Failure::EntryNotFound),
        Some(e) => if e.user_id != auth.user_id && auth.role@ != admin() {
            Some(Failure::UpdateNotOwn)
        } else if !(e.status@ == pending() || e.status@ == rejected()) && e.edit_allowed != 1
            && !(auth.role@ == dept_manager() && e.user_id == auth.user_id) {
            Some(Failure::UpdateLocked)
        } else {
            None
        },
    }
}

pub fn check_update(auth: &AuthUser, entry: Option<&TimeEntry>) -> (r: Result<(), Failure>)
    ensures
        match update_failure(
            *auth,
            match entry {
                Some(e) => Some(*e),
                None => None,
            },
        ) {
            Some(f) => r == Err::<(), Failure>(f),
            None => r == Ok::<(), Failure>(()),
        },
{
    let e = match entry {
        None => {
            return Err(Failure::EntryNotFound);
        },
        Some(e) => e,
    };
    let admin = is_admin(auth.role.as_str());
    if e.user_id != auth.user_id && !admin {
        return Err(Failure::UpdateNotOwn);
    }
    let own_dept_manager = is_dept_manager(auth.role.as_str()) && e.user_id == auth.user_id;
    let direct = str_eq(e.status.as_str(), "pending") || str_eq(e.status.as_str(), "rejected");
    if !direct && e.edit_allowed != 1 && !own_dept_manager {
        return Err(Failure::UpdateLocked);
    }
    Ok(())
}

/// The entry with its project, date and description changed; an edit that
/// was allowed is used up.
pub fn apply_update(entry: TimeEntry, project_id: Option<i32>, work_date: Date, description: String) -> (r: TimeEntry)
    ensures
        r == (TimeEntry { project_id, work_date, description, edit_allowed: 0, ..entry }),
{
    let mut e = entry;
    e.project_id = project_id;
    e.work_date = work_date;
    e.description = description;
    e.edit_allowed = 0;
    e
}

/// Whether the caller may withdraw `entry`: their own, or any as an
/// administrator, and only while it awaits approval.
pub fn check_delete(auth: &AuthUser, entry: Option<&TimeEntry>) -> (r: Result<(), Failure>)
    ensures
        r == (match entry {
            None => Err(Failure::EntryNotFound),
            Some(e) => if e.user_id != auth.user_id && auth.role@ != admin() {
                Err(Failure::DeleteNotOwn)
            } else if e.status@ != pending() {
                Err(Failure::DeleteNotPending)
            } else {
                Ok::<(), Failure>(())
            },
        }),
{
    let e = match entry {
        None => {
            return Err(Failure::EntryNotFound);
        },
        Some(e) => e,
    };
    if e.user_id != auth.user_id && !is_admin(auth.role.as_str()) {
        return Err(Failure::DeleteNotOwn);
    }
    if !str_eq(e.status.as_str(), "pending") {
        return Err(Failure::DeleteNotPending);
    }
    Ok(())
}

/// The moves that approvals make: a pending entry is approved, rejected, or
/// sent on to its second approval; an entry awaiting its second approval is
/// approved or rejected.
pub open spec fn approval_step_allowed(from: Seq<char>, to: Seq<char>) -> bool {
    ||| from == pending() && (to == approved() || to == rejected() || to == dept_approved())
    ||| from == dept_approved() && (to == approved() || to == rejected())
}

/// A first approval that goes through moves the entry forward.
pub proof fn lemma_first_approval_moves_forward(
    auth: AuthUser,
    verdict: Seq<char>,
    e: TimeEntry,
    users: Seq<User>,
    projects: Seq<Project>,
    second: bool,
)
    requires
        first_approval_failure(auth, verdict, Some(e), users, projects) is None,
    ensures
        approval_step_allowed(
            e.status@,
            if verdict == approved() && second {
                dept_approved()
            } else {
                verdict
            },
        ),
{
}

/// A second approval that goes through moves the entry forward.
pub proof fn lemma_second_approval_moves_forward(
    auth: AuthUser,
    verdict: Seq<char>,
    e: TimeEntry,
    users: Seq<User>,
    projects: Seq<Project>,
)
    requires
        second_approval_failure(auth, Some(e), users, projects) is None,
    ensures
        approval_step_allowed(
            e.status@,
            if verdict == approved() {
                approved()
            } else {
                rejected()
            },
        ),
{
}

/// A department manager never gives the first approval to their own entry.
pub proof fn lemma_no_self_approval(
    auth: AuthUser,
    verdict: Seq<char>,
    e: TimeEntry,
    users: Seq<User>,
    projects: Seq<Project>,
)
    requires
        auth.role@ == dept_manager(),
        e.user_id == auth.user_id,
    ensures
        first_approval_failure(auth, verdict, Some(e), users, projects) is Some,
{
    lemma_roles_distinct();
}

/// A department manager gives the second approval only on projects they own.
pub proof fn lemma_second_approval_needs_owner(
    auth: AuthUser,
    e: TimeEntry,
    users: Seq<User>,
    projects: Seq<Project>,
)
    requires
        auth.role@ == dept_manager(),
        second_approval_failure(auth, Some(e), users, projects) is None,
    ensures
        user_with_id(users, auth.user_id) matches Some(me) && entry_project_owned_by(
            e,
            projects,
            me.username@,
        ),
{
    lemma_roles_distinct();
}

/// An approver who owns the entry's project skips the second approval: when
/// the project's owner, trimmed, is the approver's user name, the first
/// approval does not send the entry on to a second one (so an approving
/// verdict leaves it approved).
pub proof fn lemma_owner_approval_needs_no_second(
    e: TimeEntry,
    approver: User,
    projects: Seq<Project>,
    p: Project,
    owner: String,
)
    requires
        e.project_id matches Some(pid) && project_with_id(projects, pid) == Some(p),
        p.owner == Some(owner),
        trimmed(owner@) == approver.username@,
    ensures
        !first_approval_needs_second(e, approver, projects),
{
}

/// When someone else owns a project that asks for a second approval (of
/// type 交付, 研发 or 售前, with an owner that is not blank), the first
/// approval sends the entry on to that owner.
pub proof fn lemma_other_owner_needs_second(
    e: TimeEntry,
    approver: User,
    projects: Seq<Project>,
    p: Project,
    owner: String,
)
    requires
        e.project_id matches Some(pid) && project_with_id(projects, pid) == Some(p),
        p.project_type@ == "交付"@ || p.project_type@ == "研发"@ || p.project_type@ == "售前"@,
        p.owner == Some(owner),
        trimmed(owner@).len() > 0,
        trimmed(owner@) != approver.username@,
    ensures
        first_approval_needs_second(e, approver, projects),
{
}

/// Without an allowed edit, the owner of an entry (or an administrator) who
/// is not a department manager changing their own entry may change it only
/// while it is pending or rejected; past its first approval it is locked.
pub proof fn lemma_update_needs_pending_or_rejected(auth: AuthUser, e: TimeEntry)
    requires
        e.user_id == auth.user_id || auth.role@ == "admin"@,
        e.edit_allowed != 1,
        !(auth.role@ == "dept_manager"@ && e.user_id == auth.user_id),
    ensures
        (update_failure(auth, Some(e)) is None) == (e.status@ == "pending"@ || e.status@
            == "rejected"@),
        !(e.status@ == "pending"@ || e.status@ == "rejected"@) ==> update_failure(auth, Some(e))
            == Some(Failure::UpdateLocked),
{
}

} // verus!
