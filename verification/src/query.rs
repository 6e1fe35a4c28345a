//! Which time entries a caller may list: the scope of each role, the filters
//! of a listing, the entries awaiting a caller's approval, and paging.
use vstd::prelude::*;
use chrono::Datelike;
use crate::auth::AuthUser;
use crate::calendar::{last_day_of_month, month_length, Date, MAX_YEAR};
use crate::error::Failure;
use crate::models::{find_user, user_with_id, Project, TimeEntry, User};
use crate::roles::{lemma_roles_distinct, admin, dept_manager, is_admin, is_dept_manager, is_project_manager_role, is_staff, is_timekeeper, project_manager, staff, timekeeper};
use crate::time_entry::{approved, dept_approved, opt_view, pending, rejected};
use crate::text::str_eq;

verus! {

/// The entries a role may see at all.
pub enum EntryScope {
    /// Every entry (administrators and timekeepers).
    All,
    /// The entries of these accounts (a department manager's department).
    Members(Vec<i32>),
    /// Entries past their first approval (project managers).
    Decided,
    /// The caller's own entries.
    Own(i32),
}

pub open spec fn scope_admits(scope: EntryScope, e: TimeEntry) -> bool {
    match scope {
        EntryScope::All => true,
        EntryScope::Members(ids) => ids@.contains(e.user_id),
        EntryScope::Decided => e.status@ == dept_approved() || e.status@ == approved()
            || e.status@ == rejected(),
        EntryScope::Own(id) => e.user_id == id,
    }
}

/// The identifiers of the accounts of `users` in department `dept`, in order.
pub open spec fn members_of(users: Seq<User>, dept: i32) -> Seq<i32>
    decreases users.len(),
{
    if users.len() == 0 {
        Seq::empty()
    } else if users.last().department_id == Some(dept) {
        members_of(users.drop_last(), dept).push(users.last().id)
    } else {
        members_of(users.drop_last(), dept)
    }
}

fn department_members(users: &Vec<User>, dept: i32) -> (r: Vec<i32>)
    ensures
        r@ == members_of(users@, dept),
{
    let mut r: Vec<i32> = Vec::new();
    let mut i: usize = 0;
    while i < users.len()
        invariant
            i <= users@.len(),
            r@ == members_of(users@.take(i as int), dept),
        decreases users.len() - i,
    {
        assert(users@.take(i + 1).drop_last() =~= users@.take(i as int));
        if users[i].department_id == Some(dept) {
            r.push(users[i].id);
        }
        i = i + 1;
    }
    assert(users@.take(users@.len() as int) =~= users@);
    r
}

/// The scope of the caller's role; a department manager's is their
/// department, read from `users` (which holds every account).
pub fn base_scope(auth: &AuthUser, users: &Vec<User>) -> (r: Result<EntryScope, Failure>)
    ensures
        auth.role@ == admin() || auth.role@ == timekeeper() ==> r matches Ok(EntryScope::All),
        auth.role@ == dept_manager() ==> match user_with_id(users@, auth.user_id) {
            None => r == Err::<EntryScope, Failure>(Failure::CurrentUserNotFound),
            Some(me) => match me.department_id {
                None => r == Err::<EntryScope, Failure>(Failure::ManagerWithoutDepartment),
                Some(dept) => (r matches Ok(EntryScope::Members(ids)) && ids@ == members_of(users@, dept)),
            },
        },
        auth.role@ == project_manager() ==> r matches Ok(EntryScope::Decided),
        !(auth.role@ == admin() || auth.role@ == timekeeper() || auth.role@ == dept_manager()
            || auth.role@ == project_manager()) ==> (r matches Ok(EntryScope::Own(id)) && id
            == auth.user_id),
{
    proof {
        lemma_roles_distinct();
    }
    let role = auth.role.as_str();
    if is_admin(role) || is_timekeeper(role) {
        return Ok(EntryScope::All);
    }
    if is_dept_manager(role) {
        let me = match find_user(users, auth.user_id) {
            Some(u) => u,
            None => {
                return Err(Failure::CurrentUserNotFound);
            },
        };
        let dept = match me.department_id {
            Some(d) => d,
            None => {
                return Err(Failure::ManagerWithoutDepartment);
            },
        };
        return Ok(EntryScope::Members(department_members(users, dept)));
    }
    if is_project_manager_role(role) {
        return Ok(EntryScope::Decided);
    }
    Ok(EntryScope::Own(auth.user_id))
}

/// An employee's listing holds only their own entries: whatever else the
/// filter asks, it keeps the scope that `base_scope` gives an employee.
pub proof fn lemma_employee_sees_only_own(auth: AuthUser, f: EntryFilter, e: TimeEntry)
    requires
        !(auth.role@ == admin() || auth.role@ == timekeeper() || auth.role@ == dept_manager()
            || auth.role@ == project_manager()),
        (f.scope matches EntryScope::Own(id) && id == auth.user_id),
        filter_admits(f, e),
    ensures
        e.user_id == auth.user_id,
{
}

/// `a` falls on or before `b`.
pub open spec fn on_or_before(a: Date, b: Date) -> bool {
    a.year < b.year || (a.year == b.year && (a.month < b.month || (a.month == b.month && a.day
        <= b.day)))
}

/// The filters of a listing of time entries; `month` is the first day of a
/// month already parsed.
pub struct EntryQuery {
    pub start_date: Option<Date>,
    pub end_date: Option<Date>,
    pub user_id: Option<i32>,
    pub project_id: Option<i32>,
    pub month: Option<Date>,
    pub page: Option<u64>,
    pub page_size: Option<u64>,
}

/// The conditions an entry must meet to be listed.
pub struct EntryFilter {
    pub scope: EntryScope,
    pub start_date: Option<Date>,
    pub end_date: Option<Date>,
    pub month: Option<(Date, Date)>,
    pub user_id: Option<i32>,
    pub project_id: Option<i32>,
}

pub open spec fn filter_admits(f: EntryFilter, e: TimeEntry) -> bool {
    &&& scope_admits(f.scope, e)
    &&& (f.start_date matches Some(s) ==> on_or_before(s, e.work_date))
    &&& (f.end_date matches Some(t) ==> on_or_before(e.work_date, t))
    &&& (f.month matches Some((a, b)) ==> on_or_before(a, e.work_date) && on_or_before(e.work_date, b))
    &&& (f.user_id matches Some(u) ==> e.user_id == u)
    &&& (f.project_id matches Some(p) ==> e.project_id == Some(p))
}

fn date_on_or_before(a: Date, b: Date) -> (r: bool)
    ensures
        r == on_or_before(a, b),
{
    a.year < b.year || (a.year == b.year && (a.month < b.month || (a.month == b.month && a.day <= b.day)))
}

fn holds_id(ids: &Vec<i32>, x: i32) -> (r: bool)
    ensures
        r == ids@.contains(x),
{
    let mut i: usize = 0;
    while i < ids.len()
        invariant
            i <= ids@.len(),
            forall|j: int| 0 <= j < i ==> ids@[j] != x,
        decreases ids.len() - i,
    {
        if ids[i] == x {
            assert(ids@[i as int] == x);
            return true;
        }
        i = i + 1;
    }
    false
}

fn scope_holds(scope: &EntryScope, e: &TimeEntry) -> (r: bool)
    ensures
        r == scope_admits(*scope, *e),
{
    match scope {
        EntryScope::All => true,
        EntryScope::Members(ids) => holds_id(ids, e.user_id),
        EntryScope::Decided => str_eq(e.status.as_str(), "dept_approved") || str_eq(
            e.status.as_str(),
            "approved",
        ) || str_eq(e.status.as_str(), "rejected"),
        EntryScope::Own(id) => e.user_id == *id,
    }
}

/// Whether the filter `f` admits the entry `e`.
pub fn entry_admitted(f: &EntryFilter, e: &TimeEntry) -> (r: bool)
    ensures
        r == filter_admits(*f, *e),
{
    if !scope_holds(&f.scope, e) {
        return false;
    }
    if let Some(s) = f.start_date {
        if !date_on_or_before(s, e.work_date) {
            return false;
        }
    }
    if let Some(t) = f.end_date {
        if !date_on_or_before(e.work_date, t) {
            return false;
        }
    }
    if let Some((a, b)) = f.month {
        if !date_on_or_before(a, e.work_date) || !date_on_or_before(e.work_date, b) {
            return false;
        }
    }
    if let Some(u) = f.user_id {
        if e.user_id != u {
            return false;
        }
    }
    if let Some(p) = f.project_id {
        if e.project_id != Some(p) {
            return false;
        }
    }
    true
}

/// The first and last day of the month that `d` falls in.
pub fn month_range(d: Date) -> (r: (Date, Date))
    requires
        d.wf(),
        !(d.year == MAX_YEAR && d.month == 12),
    ensures
        r.0 == d,
        r.1.year == d.year && r.1.month == d.month && r.1.day == month_length(d.year as int, d.month as int),
{
    (d, last_day_of_month(d))
}

/// The filter of a listing: the caller's scope, the date range, the month,
/// the project, and the owner when the caller is staff (it is ignored for
/// other callers).
pub fn entry_filter(auth: &AuthUser, scope: EntryScope, query: &EntryQuery) -> (r: EntryFilter)
    requires
        query.month matches Some(m) ==> m.wf() && !(m.year == MAX_YEAR && m.month == 12),
    ensures
        r.scope == scope,
        r.start_date == query.start_date,
        r.end_date == query.end_date,
        r.month == (match query.month {
            Some(m) => Some((m, Date { day: month_length(m.year as int, m.month as int) as u32, ..m })),
            None => None,
        }),
        r.user_id == (if is_staff(auth.role@) {
            query.user_id
        } else {
            None
        }),
        r.project_id == query.project_id,
{
    let month = match query.month {
        Some(m) => Some(month_range(m)),
        None => None,
    };
    let user_id = if staff(auth.role.as_str()) {
        query.user_id
    } else {
        None
    };
    EntryFilter {
        scope,
        start_date: query.start_date,
        end_date: query.end_date,
        month,
        user_id,
        project_id: query.project_id,
    }
}

/// What `NaiveDate::parse_from_str(&format!("{}-01", s), "%Y-%m-%d")` gives
/// (year, month, day), when it succeeds.
pub uninterp spec fn chrono_month_start(s: Seq<char>) -> Option<(int, int, int)>;

/// Calls `chrono::NaiveDate::parse_from_str` on `s` followed by `-01`, with
/// the format `%Y-%m-%d`; a date that chrono gives is a valid one, and its
/// day is the `01` appended (any day field within `s` would leave `-01`
/// unread, which chrono refuses).
#[verifier::external_body]
fn chrono_parse_month(s: &str) -> (r: Option<Date>)
    ensures
        match r {
            Some(d) => chrono_month_start(s@) == Some((d.year as int, d.month as int, d.day as int))
                && d.wf() && d.day == 1,
            None => chrono_month_start(s@) is None,
        },
{
    match chrono::NaiveDate::parse_from_str(&format!("{}-01", s), "%Y-%m-%d") {
        Ok(d) => Some(Date { year: d.year(), month: d.month(), day: d.day() }),
        Err(_) => None,
    }
}

/// The first day of the month that a `YYYY-MM` filter names, if it names one.
pub fn parse_month(s: &str) -> (r: Option<Date>)
    ensures
        match r {
            Some(d) => chrono_month_start(s@) == Some((d.year as int, d.month as int, d.day as int))
                && d.wf() && d.day == 1,
            None => chrono_month_start(s@) is None,
        },
{
    chrono_parse_month(s)
}

/// The page of a listing and its size.
pub struct Page {
    pub page: u64,
    pub page_size: u64,
}

/// The page asked for (the first by default) and its size (10 by default,
/// kept between 1 and 100).
pub fn page_params(page: Option<u64>, page_size: Option<u64>) -> (r: Page)
    ensures
        r.page == (match page {
            Some(p) => if p >= 1 { p } else { 1 },
            None => 1,
        }),
        r.page_size == (match page_size {
            Some(s) => if s < 1 { 1 } else if s > 100 { 100 } else { s },
            None => 10,
        }),
        r.page >= 1,
        1 <= r.page_size <= 100,
{
    let p = match page {
        Some(p) => if p >= 1 { p } else { 1 },
        None => 1,
    };
    let s = match page_size {
        Some(s) => if s < 1 { 1 } else if s > 100 { 100 } else { s },
        None => 10,
    };
    Page { page: p, page_size: s }
}

/// The number of pages that `total` entries fill.
pub fn total_pages(total: u64, page_size: u64) -> (r: u64)
    requires
        page_size >= 1,
    ensures
        r as int == (total as int + page_size as int - 1) / page_size as int,
{
    let q = total / page_size;
    let rem = total % page_size;
    proof {
        vstd::arithmetic::div_mod::lemma_fundamental_div_mod(total as int, page_size as int);
        assert((q as int) * (page_size as int) == (page_size as int) * (q as int)) by (nonlinear_arith);
        assert((q as int + 1) * (page_size as int) == (q as int) * (page_size as int) + page_size as int) by (nonlinear_arith);
        if rem != 0 {
            assert(page_size >= 2);
            assert((q as int) * (page_size as int) >= 2 * (q as int)) by (nonlinear_arith)
                requires page_size >= 2, q >= 0;
        }
        if rem == 0 {
            vstd::arithmetic::div_mod::lemma_fundamental_div_mod_converse(
                total as int + page_size as int - 1,
                page_size as int,
                q as int,
                page_size as int - 1,
            );
        } else {
            vstd::arithmetic::div_mod::lemma_fundamental_div_mod_converse(
                total as int + page_size as int - 1,
                page_size as int,
                q as int + 1,
                rem as int - 1,
            );
        }
    }
    if rem == 0 {
        q
    } else {
        q + 1
    }
}

/// The pages cover every entry, and the last page is not empty.
pub proof fn lemma_pages_cover(total: u64, page_size: u64)
    requires
        page_size >= 1,
    ensures
        ((total as int + page_size as int - 1) / (page_size as int)) * (page_size as int) >= total,
        total > 0 ==> (((total as int + page_size as int - 1) / (page_size as int)) - 1) * (
        page_size as int) < total,
{
    let n = total as int + page_size as int - 1;
    let d = page_size as int;
    vstd::arithmetic::div_mod::lemma_fundamental_div_mod(n, d);
    let q = n / d;
    let r = n % d;
    assert(q * d == d * q) by (nonlinear_arith);
    assert((q - 1) * d == q * d - d) by (nonlinear_arith);
}

/// The entries awaiting a caller's approval.
pub enum PendingScope {
    /// Administrators: entries awaiting either approval, and requests to edit.
    Everything,
    /// Department managers: the entries of the other members of their
    /// department that await the first approval or ask to be edited, and the
    /// entries awaiting the second approval on projects they own.
    Department { members: Vec<i32>, owned_projects: Vec<i32> },
    /// Project managers: entries awaiting the second approval.
    SecondStage,
}

pub open spec fn pending_scope_admits(scope: PendingScope, e: TimeEntry) -> bool {
    match scope {
        PendingScope::Everything => e.status@ == pending() || e.status@ == dept_approved()
            || e.edit_requested == 1,
        PendingScope::Department { members, owned_projects } => {
            ||| (members@.contains(e.user_id) && (e.status@ == pending() || e.edit_requested == 1))
            ||| (owned_projects@.len() > 0 && (e.project_id matches Some(p) && owned_projects@.contains(p))
                && e.status@ == dept_approved())
        },
        PendingScope::SecondStage => e.status@ == dept_approved(),
    }
}

/// The identifiers of the accounts in department `dept` other than `me`, in order.
pub open spec fn colleagues_of(users: Seq<User>, dept: i32, me: i32) -> Seq<i32>
    decreases users.len(),
{
    if users.len() == 0 {
        Seq::empty()
    } else if users.last().department_id == Some(dept) && users.last().id != me {
        colleagues_of(users.drop_last(), dept, me).push(users.last().id)
    } else {
        colleagues_of(users.drop_last(), dept, me)
    }
}

/// The identifiers of the projects whose owner field is exactly `name`, in order.
pub open spec fn projects_owned_by(projects: Seq<Project>, name: Seq<char>) -> Seq<i32>
    decreases projects.len(),
{
    if projects.len() == 0 {
        Seq::empty()
    } else if opt_view(projects.last().owner) == Some(name) {
        projects_owned_by(projects.drop_last(), name).push(projects.last().id)
    } else {
        projects_owned_by(projects.drop_last(), name)
    }
}

proof fn lemma_colleagues_exclude(users: Seq<User>, dept: i32, me: i32)
    ensures
        !colleagues_of(users, dept, me).contains(me),
    decreases users.len(),
{
    if users.len() > 0 {
        lemma_colleagues_exclude(users.drop_last(), dept, me);
        let rest = colleagues_of(users.drop_last(), dept, me);
        if users.last().department_id == Some(dept) && users.last().id != me {
            assert forall|i: int| 0 <= i < rest.len() + 1 implies rest.push(users.last().id)[i] != me by {
                if i < rest.len() {
                    assert(rest[i] != me);
                }
            }
        }
    }
}

/// A department manager's own entries never wait in their list for the
/// first approval or an edit: the only ones of theirs it can hold await the
/// second approval on a project they own.
pub proof fn lemma_manager_pending_excludes_own(
    scope: PendingScope,
    users: Seq<User>,
    dept: i32,
    me: i32,
    e: TimeEntry,
)
    requires
        (scope matches PendingScope::Department { members, owned_projects } && members@
            == colleagues_of(users, dept, me)),
        pending_scope_admits(scope, e),
        e.user_id == me,
    ensures
        e.status@ == dept_approved(),
{
    lemma_colleagues_exclude(users, dept, me);
}

fn colleagues(users: &Vec<User>, dept: i32, me: i32) -> (r: Vec<i32>)
    ensures
        r@ == colleagues_of(users@, dept, me),
{
    let mut r: Vec<i32> = Vec::new();
    let mut i: usize = 0;
    while i < users.len()
        invariant
            i <= users@.len(),
            r@ == colleagues_of(users@.take(i as int), dept, me),
        decreases users.len() - i,
    {
        assert(users@.take(i + 1).drop_last() =~= users@.take(i as int));
        if users[i].department_id == Some(dept) && users[i].id != me {
            r.push(users[i].id);
        }
        i = i + 1;
    }
    assert(users@.take(users@.len() as int) =~= users@);
    r
}

fn owned_projects(projects: &Vec<Project>, name: &str) -> (r: Vec<i32>)
    ensures
        r@ == projects_owned_by(projects@, name@),
{
    let mut r: Vec<i32> = Vec::new();
    let mut i: usize = 0;
    while i < projects.len()
        invariant
            i <= projects@.len(),
            r@ == projects_owned_by(projects@.take(i as int), name@),
        decreases projects.len() - i,
    {
        assert(projects@.take(i + 1).drop_last() =~= projects@.take(i as int));
        let owns = match &projects[i].owner {
            Some(o) => str_eq(o.as_str(), name),
            None => false,
        };
        if owns {
            r.push(projects[i].id);
        }
        i = i + 1;
    }
    assert(projects@.take(projects@.len() as int) =~= projects@);
    r
}

/// The check of the pending-approval list that needs no lookup: only
/// administrators, department managers and project managers have one.
pub fn pending_list_gate(auth: &AuthUser) -> (r: Result<(), Failure>)
    ensures
        r == (if auth.role@ == admin() || auth.role@ == dept_manager() || auth.role@ == project_manager() {
            Ok::<(), Failure>(())
        } else {
            Err(Failure::PendingListForbidden)
        }),
{
    let role = auth.role.as_str();
    if is_admin(role) || is_dept_manager(role) || is_project_manager_role(role) {
        Ok(())
    } else {
        Err(Failure::PendingListForbidden)
    }
}

/// The entries awaiting the caller's approval; `users` and `projects` hold
/// every account and every project.
pub fn pending_scope(auth: &AuthUser, users: &Vec<User>, projects: &Vec<Project>) -> (r: Result<PendingScope, Failure>)
    ensures
        auth.role@ == admin() ==> r matches Ok(PendingScope::Everything),
        auth.role@ == dept_manager() ==> match user_with_id(users@, auth.user_id) {
            None => r == Err::<PendingScope, Failure>(Failure::CurrentUserNotFound),
            Some(me) => match me.department_id {
                None => r == Err::<PendingScope, Failure>(Failure::ManagerWithoutDepartment),
                Some(dept) => (r matches Ok(PendingScope::Department { members, owned_projects })
                    && members@ == colleagues_of(users@, dept, auth.user_id) && owned_projects@
                    == projects_owned_by(projects@, me.username@)),
            },
        },
        auth.role@ == project_manager() ==> r matches Ok(PendingScope::SecondStage),
        !(auth.role@ == admin() || auth.role@ == dept_manager() || auth.role@ == project_manager())
            ==> r == Err::<PendingScope, Failure>(Failure::PendingListForbidden),
{
    proof {
        lemma_roles_distinct();
    }
    let role = auth.role.as_str();
    if is_admin(role) {
        return Ok(PendingScope::Everything);
    }
    if is_dept_manager(role) {
        let me = match find_user(users, auth.user_id) {
            Some(u) => u,
            None => {
                return Err(Failure::CurrentUserNotFound);
            },
        };
        let dept = match me.department_id {
            Some(d) => d,
            None => {
                return Err(Failure::ManagerWithoutDepartment);
            },
        };
        return Ok(
            PendingScope::Department {
                members: colleagues(users, dept, auth.user_id),
                owned_projects: owned_projects(projects, me.username.as_str()),
            },
        );
    }
    if is_project_manager_role(role) {
        return Ok(PendingScope::SecondStage);
    }
    Err(Failure::PendingListForbidden)
}

/// A project manager's scope admits exactly the entries past their first
/// approval: those whose status is dept_approved, approved or rejected.
pub proof fn lemma_decided_scope(f: EntryFilter, e: TimeEntry)
    requires
        f.scope matches EntryScope::Decided,
        f.start_date is None,
        f.end_date is None,
        f.month is None,
        f.user_id is None,
        f.project_id is None,
    ensures
        filter_admits(f, e) == (e.status@ == "dept_approved"@ || e.status@ == "approved"@
            || e.status@ == "rejected"@),
{
}

} // verus!
