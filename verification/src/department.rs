//! Departments: the tree they form, and the checks on their management.
use vstd::prelude::*;
use crate::auth::AuthUser;
use crate::error::Failure;
use crate::models::{Department, User};
use crate::roles::{admin, is_admin, is_timekeeper, timekeeper};
use vstd::set_lib::{lemma_int_range, lemma_len_subset, set_int_range};

verus! {

/// A department as the public registration page lists it.
pub struct DepartmentResponse {
    pub id: i32,
    pub name: String,
    pub parent_id: Option<i32>,
}

/// A department as signed-in users see it listed.
pub struct DepartmentResponseAuth {
    pub id: i32,
    pub name: String,
    pub parent_id: Option<i32>,
}

/// The name and parent of a department to create or update.
pub struct CreateDepartment {
    pub name: String,
    pub parent_id: Option<i32>,
}

/// A department with the departments under it.
pub struct DepartmentNode {
    pub id: i32,
    pub name: String,
    pub parent_id: Option<i32>,
    pub children: Vec<DepartmentNode>,
}

pub fn department_response(d: &Department) -> (r: DepartmentResponse)
    ensures
        r.id == d.id,
        r.name == d.name,
        r.parent_id == d.parent_id,
{
    DepartmentResponse { id: d.id, name: d.name.clone(), parent_id: d.parent_id }
}

pub fn department_response_auth(d: &Department) -> (r: DepartmentResponseAuth)
    ensures
        r.id == d.id,
        r.name == d.name,
        r.parent_id == d.parent_id,
{
    DepartmentResponseAuth { id: d.id, name: d.name.clone(), parent_id: d.parent_id }
}

/// The departments of `depts` whose parent is `parent`, in their order.
pub open spec fn children_of(depts: Seq<Department>, parent: Option<i32>) -> Seq<Department>
    decreases depts.len(),
{
    if depts.len() == 0 {
        depts
    } else if depts.last().parent_id == parent {
        children_of(depts.drop_last(), parent).push(depts.last())
    } else {
        children_of(depts.drop_last(), parent)
    }
}

/// `nodes` lists the departments under `parent`, each with the departments
/// under it, down to `depth` levels.
pub open spec fn forest_matches(
    nodes: Seq<DepartmentNode>,
    depts: Seq<Department>,
    parent: Option<i32>,
    depth: nat,
) -> bool
    decreases depth,
{
    if depth == 0 {
        nodes.len() == 0
    } else {
        let cs = children_of(depts, parent);
        &&& nodes.len() == cs.len()
        &&& forall|i: int|
            0 <= i < cs.len() ==> {
                &&& #[trigger] nodes[i].id == cs[i].id
                &&& nodes[i].name == cs[i].name
                &&& nodes[i].parent_id == cs[i].parent_id
                &&& forest_matches(nodes[i].children@, depts, Some(cs[i].id), (depth - 1) as nat)
            }
    }
}

fn build_forest(depts: &[Department], parent: Option<i32>, depth: usize) -> (r: Vec<DepartmentNode>)
    ensures
        forest_matches(r@, depts@, parent, depth as nat),
    decreases depth,
{
    let mut out: Vec<DepartmentNode> = Vec::new();
    if depth == 0 {
        return out;
    }
    let mut i: usize = 0;
    while i < depts.len()
        invariant
            i <= depts@.len(),
            depth > 0,
            out@.len() == children_of(depts@.take(i as int), parent).len(),
            forall|j: int|
                0 <= j < out@.len() ==> {
                    let c = children_of(depts@.take(i as int), parent)[j];
                    &&& #[trigger] out@[j].id == c.id
                    &&& out@[j].name == c.name
                    &&& out@[j].parent_id == c.parent_id
                    &&& forest_matches(out@[j].children@, depts@, Some(c.id), (depth - 1) as nat)
                },
        decreases depts.len() - i,
    {
        assert(depts@.take(i + 1).drop_last() =~= depts@.take(i as int));
        let d = &depts[i];
        if d.parent_id == parent {
            let children = build_forest(depts, Some(d.id), depth - 1);
            out.push(DepartmentNode { id: d.id, name: d.name.clone(), parent_id: d.parent_id, children });
        }
        i = i + 1;
    }
    assert(depts@.take(depts@.len() as int) =~= depts@);
    out
}

/// The departments under `parent_id` (the top-level ones for `None`), each
/// with the tree of departments under it.
pub fn build_department_tree(depts: &[Department], parent_id: Option<i32>) -> (r: Vec<DepartmentNode>)
    ensures
        forest_matches(r@, depts@, parent_id, depts@.len()),
{
    build_forest(depts, parent_id, depts.len())
}

/// No two departments share an identifier, as the store guarantees.
pub open spec fn ids_unique(depts: Seq<Department>) -> bool {
    forall|i: int, j: int| 0 <= i < j < depts.len() ==> #[trigger] depts[i].id != #[trigger] depts[j].id
}

/// `c` lists positions in `depts` of departments each of which (after the
/// first) is a child of the one before it.
pub open spec fn is_link_chain(depts: Seq<Department>, c: Seq<int>) -> bool {
    &&& c.len() >= 1
    &&& forall|i: int| 0 <= i < c.len() ==> 0 <= #[trigger] c[i] < depts.len()
    &&& forall|i: int|
        0 < i < c.len() ==> #[trigger] depts[c[i]].parent_id == Some(depts[c[i - 1]].id)
}

/// The parent links have no cycle: following them from child to parent never
/// comes back to a department already passed.
#[verifier::opaque]
pub open spec fn acyclic(depts: Seq<Department>) -> bool {
    forall|c: Seq<int>| #[trigger] is_link_chain(depts, c) ==> c.no_duplicates()
}

/// A chain that no department can repeat: one that starts at the top level
/// while identifiers are unique, or any chain when the links have no cycle.
pub open spec fn chain_bounded(depts: Seq<Department>, c: Seq<int>) -> bool {
    ||| ids_unique(depts) && depts[c[0]].parent_id == None::<i32>
    ||| acyclic(depts)
}

proof fn lemma_chain_distinct(depts: Seq<Department>, c: Seq<int>, a: int)
    requires
        ids_unique(depts),
        is_link_chain(depts, c),
        depts[c[0]].parent_id == None::<i32>,
        0 <= a < c.len(),
    ensures
        forall|b: int| a < b < c.len() ==> c[a] != #[trigger] c[b],
    decreases a,
{
    if a > 0 {
        lemma_chain_distinct(depts, c, a - 1);
        assert forall|b: int| a < b < c.len() implies c[a] != #[trigger] c[b] by {
            assert(c[a - 1] != c[b - 1]);
            assert(depts[c[a]].parent_id == Some(depts[c[a - 1]].id));
            assert(depts[c[b]].parent_id == Some(depts[c[b - 1]].id));
            if c[a - 1] < c[b - 1] {
                assert(depts[c[a - 1]].id != depts[c[b - 1]].id);
            } else {
                assert(depts[c[b - 1]].id != depts[c[a - 1]].id);
            }
        }
    } else {
        assert forall|b: int| a < b < c.len() implies c[a] != #[trigger] c[b] by {
            assert(depts[c[b]].parent_id == Some(depts[c[b - 1]].id));
        }
    }
}

proof fn lemma_chain_short(depts: Seq<Department>, c: Seq<int>)
    requires
        is_link_chain(depts, c),
        chain_bounded(depts, c),
    ensures
        c.len() <= depts.len(),
{
    if !acyclic(depts) {
        assert forall|a: int, b: int| 0 <= a < c.len() && 0 <= b < c.len() && a != b implies c[a] != c[b] by {
            if a < b {
                lemma_chain_distinct(depts, c, a);
            } else {
                lemma_chain_distinct(depts, c, b);
            }
        }
    }
    if acyclic(depts) {
        reveal(acyclic);
    }
    assert(c.no_duplicates());
    c.unique_seq_to_set();
    lemma_int_range(0, depts.len() as int);
    assert(c.to_set().subset_of(set_int_range(0, depts.len() as int)));
    lemma_len_subset(c.to_set(), set_int_range(0, depts.len() as int));
}

proof fn lemma_child_position(depts: Seq<Department>, p: Option<i32>, i: int)
    requires
        0 <= i < children_of(depts, p).len(),
    ensures
        exists|j: int|
            0 <= j < depts.len() && #[trigger] depts[j] == children_of(depts, p)[i]
                && depts[j].parent_id == p,
    decreases depts.len(),
{
    let rest = children_of(depts.drop_last(), p);
    if depts.last().parent_id == p && i == rest.len() {
        assert(depts[depts.len() - 1] == children_of(depts, p)[i]);
    } else {
        lemma_child_position(depts.drop_last(), p, i);
        let j = choose|j: int|
            0 <= j < depts.drop_last().len() && #[trigger] depts.drop_last()[j] == rest[i]
                && depts.drop_last()[j].parent_id == p;
        assert(depts[j] == children_of(depts, p)[i]);
    }
}

proof fn lemma_extend_chain(depts: Seq<Department>, c: Seq<int>, j: int)
    requires
        is_link_chain(depts, c),
        chain_bounded(depts, c),
        0 <= j < depts.len(),
        depts[j].parent_id == Some(depts[c.last()].id),
    ensures
        is_link_chain(depts, c.push(j)),
        chain_bounded(depts, c.push(j)),
{
    let c2 = c.push(j);
    assert forall|k: int| 0 < k < c2.len() implies #[trigger] depts[c2[k]].parent_id
        == Some(depts[c2[k - 1]].id) by {
        if k < c.len() {
            assert(depts[c[k]].parent_id == Some(depts[c[k - 1]].id));
        }
    }
    assert(c2[0] == c[0]);
}

proof fn lemma_forest_stable(
    nodes: Seq<DepartmentNode>,
    depts: Seq<Department>,
    c: Seq<int>,
    f: nat,
    g: nat,
)
    requires
        is_link_chain(depts, c),
        chain_bounded(depts, c),
        f + c.len() >= depts.len(),
        f <= g,
        forest_matches(nodes, depts, Some(depts[c.last()].id), f),
    ensures
        forest_matches(nodes, depts, Some(depts[c.last()].id), g),
    decreases f,
{
    let x = depts[c.last()].id;
    let cs = children_of(depts, Some(x));
    if f == 0 {
        if g > 0 && cs.len() > 0 {
            lemma_child_position(depts, Some(x), 0);
            let j = choose|j: int|
                0 <= j < depts.len() && #[trigger] depts[j] == cs[0] && depts[j].parent_id == Some(x);
            lemma_extend_chain(depts, c, j);
            lemma_chain_short(depts, c.push(j));
        }
    } else {
        assert forall|i: int| 0 <= i < cs.len() implies forest_matches(
            nodes[i].children@,
            depts,
            Some(cs[i].id),
            (g - 1) as nat,
        ) by {
            lemma_child_position(depts, Some(x), i);
            let j = choose|j: int|
                0 <= j < depts.len() && #[trigger] depts[j] == cs[i] && depts[j].parent_id == Some(x);
            lemma_extend_chain(depts, c, j);
            let c2 = c.push(j);
            assert(c2.last() == j);
            assert(nodes[i].id == cs[i].id);
            lemma_forest_stable(nodes[i].children@, depts, c2, (f - 1) as nat, (g - 1) as nat);
        }
    }
}

proof fn lemma_tree_complete_from(
    nodes: Seq<DepartmentNode>,
    depts: Seq<Department>,
    parent: Option<i32>,
    g: nat,
)
    requires
        forest_matches(nodes, depts, parent, depts.len()),
        g >= depts.len(),
        ids_unique(depts) && parent == None::<i32> || acyclic(depts),
    ensures
        forest_matches(nodes, depts, parent, g),
{
    let n = depts.len();
    let cs = children_of(depts, parent);
    if n == 0 {
        assert(cs.len() == 0);
        assert(nodes.len() == 0);
    } else {
        assert(nodes.len() == cs.len());
        assert forall|i: int| 0 <= i < cs.len() implies {
            &&& #[trigger] nodes[i].id == cs[i].id
            &&& nodes[i].name == cs[i].name
            &&& nodes[i].parent_id == cs[i].parent_id
            &&& forest_matches(nodes[i].children@, depts, Some(cs[i].id), (g - 1) as nat)
        } by {
            lemma_child_position(depts, parent, i);
            let j = choose|j: int|
                0 <= j < depts.len() && #[trigger] depts[j] == cs[i] && depts[j].parent_id == parent;
            let c = seq![j];
            assert(c.last() == j);
            assert(c[0] == j);
            assert(is_link_chain(depts, c));
            assert(nodes[i].id == cs[i].id);
            lemma_forest_stable(nodes[i].children@, depts, c, (n - 1) as nat, (g - 1) as nat);
        }
    }
}

/// The tree that `build_department_tree` gives for the top level holds every
/// department below: with identifiers unique, looking any number of levels
/// further down finds nothing more.
pub proof fn lemma_department_tree_complete(nodes: Seq<DepartmentNode>, depts: Seq<Department>, g: nat)
    requires
        ids_unique(depts),
        forest_matches(nodes, depts, None, depts.len()),
        g >= depts.len(),
    ensures
        forest_matches(nodes, depts, None, g),
{
    lemma_tree_complete_from(nodes, depts, None, g);
}

/// The same below any parent: when the parent links have no cycle, the tree
/// that `build_department_tree` gives under `parent` holds every department
/// below it.
pub proof fn lemma_department_subtree_complete(
    nodes: Seq<DepartmentNode>,
    depts: Seq<Department>,
    parent: Option<i32>,
    g: nat,
)
    requires
        acyclic(depts),
        forest_matches(nodes, depts, parent, depts.len()),
        g >= depts.len(),
    ensures
        forest_matches(nodes, depts, parent, g),
{
    lemma_tree_complete_from(nodes, depts, parent, g);
}

/// Whether `role` may create, change and delete departments.
pub fn can_manage_departments(role: &str) -> (r: bool)
    ensures
        r == (role@ == admin() || role@ == timekeeper()),
{
    is_admin(role) || is_timekeeper(role)
}

/// Checks that the caller may create a department.
pub fn check_create_department(auth: &AuthUser) -> (r: Result<(), Failure>)
    ensures
        r == (if auth.role@ == admin() || auth.role@ == timekeeper() {
            Ok::<(), Failure>(())
        } else {
            Err(Failure::NoPermission)
        }),
{
    if !can_manage_departments(auth.role.as_str()) {
        return Err(Failure::NoPermission);
    }
    Ok(())
}

/// The department `existing` (`None` when it was not found) with the name
/// and parent of `payload`.
pub fn update_department(auth: &AuthUser, existing: Option<Department>, payload: CreateDepartment) -> (r: Result<Department, Failure>)
    ensures
        !(auth.role@ == admin() || auth.role@ == timekeeper()) ==> r == Err::<Department, Failure>(Failure::NoPermission),
        (auth.role@ == admin() || auth.role@ == timekeeper()) ==> match existing {
            None => r == Err::<Department, Failure>(Failure::DepartmentNotFound),
            Some(d) => r == Ok::<Department, Failure>(Department { id: d.id, name: payload.name, parent_id: payload.parent_id }),
        },
{
    if !can_manage_departments(auth.role.as_str()) {
        return Err(Failure::NoPermission);
    }
    match existing {
        None => Err(Failure::DepartmentNotFound),
        Some(d) => Ok(Department { id: d.id, name: payload.name, parent_id: payload.parent_id }),
    }
}

/// Checks that the caller may delete the department `existing` (`None` when
/// it was not found), which `pending_registrations` pending registration
/// requests name.
pub fn check_delete_department(auth: &AuthUser, existing: Option<&Department>, pending_registrations: u64) -> (r: Result<(), Failure>)
    ensures
        r == (if !(auth.role@ == admin() || auth.role@ == timekeeper()) {
            Err(Failure::NoPermission)
        } else if existing is None {
            Err(Failure::DepartmentNotFound)
        } else if pending_registrations > 0 {
            Err(Failure::DepartmentHasPendingRegistrations(pending_registrations))
        } else {
            Ok::<(), Failure>(())
        }),
{
    if !can_manage_departments(auth.role.as_str()) {
        return Err(Failure::NoPermission);
    }
    if existing.is_none() {
        return Err(Failure::DepartmentNotFound);
    }
    if pending_registrations > 0 {
        return Err(Failure::DepartmentHasPendingRegistrations(pending_registrations));
    }
    Ok(())
}

/// The departments under a deleted one, moved to the top level.
pub fn detach_departments(children: Vec<Department>) -> (r: Vec<Department>)
    ensures
        r@.len() == children@.len(),
        forall|i: int|
            0 <= i < r@.len() ==> #[trigger] r@[i] == (Department {
                parent_id: None,
                ..children@[i]
            }),
{
    let mut r: Vec<Department> = Vec::new();
    let mut i: usize = 0;
    while i < children.len()
        invariant
            i <= children@.len(),
            r@.len() == i,
            forall|j: int|
                0 <= j < i ==> #[trigger] r@[j] == (Department { parent_id: None, ..children@[j] }),
        decreases children.len() - i,
    {
        let d = &children[i];
        r.push(Department { id: d.id, name: d.name.clone(), parent_id: None });
        i = i + 1;
    }
    r
}

/// The accounts of a deleted department, left without a department.
pub fn detach_users(members: Vec<User>) -> (r: Vec<User>)
    ensures
        r@.len() == members@.len(),
        forall|i: int|
            0 <= i < r@.len() ==> #[trigger] r@[i] == (User { department_id: None, ..members@[i] }),
{
    let mut r: Vec<User> = Vec::new();
    let mut i: usize = 0;
    while i < members.len()
        invariant
            i <= members@.len(),
            r@.len() == i,
            forall|j: int|
                0 <= j < i ==> #[trigger] r@[j] == (User { department_id: None, ..members@[j] }),
        decreases members.len() - i,
    {
        let mut u = members[i].clone();
        u.department_id = None;
        r.push(u);
        i = i + 1;
    }
    r
}

} // verus!
