//! The roles an account can hold, and tests of a role name against them.
use vstd::prelude::*;
use crate::text::str_eq;

verus! {

pub open spec fn admin() -> Seq<char> {
    "admin"@
}

pub open spec fn timekeeper() -> Seq<char> {
    "timekeeper"@
}

pub open spec fn dept_manager() -> Seq<char> {
    "dept_manager"@
}

pub open spec fn project_manager() -> Seq<char> {
    "project_manager"@
}

pub open spec fn employee() -> Seq<char> {
    "employee"@
}

pub fn is_admin(role: &str) -> (r: bool)
    ensures
        r == (role@ == admin()),
{
    str_eq(role, "admin")
}

pub fn is_timekeeper(role: &str) -> (r: bool)
    ensures
        r == (role@ == timekeeper()),
{
    str_eq(role, "timekeeper")
}

pub fn is_dept_manager(role: &str) -> (r: bool)
    ensures
        r == (role@ == dept_manager()),
{
    str_eq(role, "dept_manager")
}

pub fn is_project_manager_role(role: &str) -> (r: bool)
    ensures
        r == (role@ == project_manager()),
{
    str_eq(role, "project_manager")
}

/// The role names differ from one another.
pub proof fn lemma_roles_distinct()
    ensures
        admin() != timekeeper(),
        admin() != dept_manager(),
        admin() != project_manager(),
        admin() != employee(),
        timekeeper() != dept_manager(),
        timekeeper() != project_manager(),
        timekeeper() != employee(),
        dept_manager() != project_manager(),
        dept_manager() != employee(),
        project_manager() != employee(),
{
    reveal_strlit("admin");
    reveal_strlit("timekeeper");
    reveal_strlit("dept_manager");
    reveal_strlit("project_manager");
    reveal_strlit("employee");
    assert(admin()[0] != timekeeper()[0]);
    assert(admin()[0] != dept_manager()[0]);
    assert(admin()[0] != project_manager()[0]);
    assert(admin()[0] != employee()[0]);
    assert(timekeeper()[0] != dept_manager()[0]);
    assert(timekeeper()[0] != project_manager()[0]);
    assert(timekeeper()[0] != employee()[0]);
    assert(dept_manager()[0] != project_manager()[0]);
    assert(dept_manager()[0] != employee()[0]);
    assert(project_manager()[0] != employee()[0]);
}

/// Roles that may see every account and handle registrations and time entries
/// beyond their own: administrators, timekeepers and department managers.
pub open spec fn is_staff(role: Seq<char>) -> bool {
    role == admin() || role == timekeeper() || role == dept_manager()
}

pub fn staff(role: &str) -> (r: bool)
    ensures
        r == is_staff(role@),
{
    is_admin(role) || is_timekeeper(role) || is_dept_manager(role)
}

} // verus!
