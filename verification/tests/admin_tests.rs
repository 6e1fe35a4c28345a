use zggsds::auth::AuthUser;
use zggsds::department::{
    build_department_tree, check_create_department, check_delete_department, detach_departments,
    detach_users, update_department, CreateDepartment, DepartmentNode,
};
use zggsds::error::Failure;
use zggsds::models::{Department, Project, RegistrationRequest, User};
use zggsds::project::{
    check_delete_project, is_project_manager, new_project, to_response, update_project,
    CreateProject, UpdateProject,
};
use zggsds::registration::{
    assess_registration, check_registration_fields, normalize, pick_assignee, register_status,
    RegisterRequest, RegisterStatusQuery,
};
use zggsds::registration_approval::{
    approve_registration, pending_registration_department, registration_approver_gate,
    reject_registration, RejectPayload,
};
use zggsds::user::{new_user, update_user, CreateUser, UpdateUser};

fn auth(id: i32, role: &str) -> AuthUser {
    AuthUser { user_id: id, role: role.into() }
}

fn user(id: i32, name: &str, role: &str, dept: Option<i32>, deleted: bool) -> User {
    User {
        id,
        username: name.into(),
        email: format!("{name}@test.invalid"),
        password_hash: "h".into(),
        role: role.into(),
        department_id: dept,
        deleted,
    }
}

fn dept(id: i32, parent: Option<i32>) -> Department {
    Department { id, name: format!("d{id}"), parent_id: parent }
}

fn ids(nodes: &[DepartmentNode]) -> Vec<i32> {
    nodes.iter().map(|n| n.id).collect()
}

#[test]
fn department_tree() {
    let depts = vec![dept(1, None), dept(2, Some(1)), dept(3, None), dept(4, Some(2)), dept(5, Some(1)), dept(6, Some(99))];
    let tree = build_department_tree(&depts, None);
    assert_eq!(ids(&tree), vec![1, 3]);
    assert_eq!(ids(&tree[0].children), vec![2, 5]);
    assert_eq!(ids(&tree[0].children[0].children), vec![4]);
    assert!(tree[0].children[0].children[0].children.is_empty());
    assert!(tree[1].children.is_empty());
    assert_eq!(tree[0].name, "d1");
    assert_eq!(tree[0].children[1].parent_id, Some(1));
    let sub = build_department_tree(&depts, Some(99));
    assert_eq!(ids(&sub), vec![6]);
    assert!(build_department_tree(&[], None).is_empty());
    // a chain as deep as the list is long is built in full
    let chain: Vec<Department> = (1..=6).map(|i| dept(i, if i == 1 { None } else { Some(i - 1) })).collect();
    let mut level = build_department_tree(&chain, None);
    for expected in 1..=6 {
        assert_eq!(ids(&level), vec![expected]);
        level = level.remove(0).children;
    }
    assert!(level.is_empty());
}

#[test]
fn department_management() {
    let payload = || CreateDepartment { name: "New".into(), parent_id: Some(3) };
    assert_eq!(check_create_department(&auth(1, "timekeeper")), Ok(()));
    assert_eq!(check_create_department(&auth(1, "dept_manager")), Err(Failure::NoPermission));
    let d = update_department(&auth(1, "admin"), Some(dept(5, None)), payload()).unwrap();
    assert_eq!((d.id, d.name.as_str(), d.parent_id), (5, "New", Some(3)));
    assert!(matches!(update_department(&auth(1, "admin"), None, payload()), Err(Failure::DepartmentNotFound)));
    assert!(matches!(update_department(&auth(2, "employee"), Some(dept(5, None)), payload()), Err(Failure::NoPermission)));
    let existing = dept(5, None);
    assert_eq!(check_delete_department(&auth(1, "admin"), Some(&existing), 0), Ok(()));
    assert_eq!(check_delete_department(&auth(1, "admin"), None, 0), Err(Failure::DepartmentNotFound));
    let refused = check_delete_department(&auth(1, "admin"), Some(&existing), 2).unwrap_err();
    assert_eq!(refused.message(), "该部门存在 2 条待审批注册申请，无法删除。请先处理这些申请后再试");
    let kids = detach_departments(vec![dept(7, Some(5)), dept(8, Some(5))]);
    assert!(kids.iter().all(|d| d.parent_id.is_none()));
    assert_eq!(ids_of(&kids), vec![7, 8]);
    let members = detach_users(vec![user(2, "a", "employee", Some(5), false)]);
    assert_eq!(members[0].department_id, None);
    assert_eq!(members[0].username, "a");
}

fn ids_of(d: &[Department]) -> Vec<i32> {
    d.iter().map(|x| x.id).collect()
}

fn project() -> Project {
    Project {
        id: 3,
        project_no: Some("P-3".into()),
        name: "Alpha".into(),
        code: Some("A".into()),
        project_type: "研发".into(),
        status: "进行中".into(),
        cycle: None,
        owner: Some("olga".into()),
        description: None,
    }
}

#[test]
fn project_management() {
    assert!(is_project_manager("admin"));
    assert!(is_project_manager("timekeeper"));
    assert!(!is_project_manager("project_manager"));
    let create = CreateProject {
        project_no: None,
        name: "Beta".into(),
        code: None,
        project_type: "事务".into(),
        status: None,
        cycle: None,
        owner: None,
        description: Some("d".into()),
    };
    let p = new_project(&auth(1, "timekeeper"), create).unwrap();
    assert_eq!(p.status, "进行中");
    assert_eq!(p.name, "Beta");
    let refused = new_project(&auth(1, "employee"), CreateProject { project_no: None, name: "x".into(), code: None, project_type: "事务".into(), status: Some("暂停".into()), cycle: None, owner: None, description: None });
    assert!(matches!(refused, Err(Failure::ProjectCreateForbidden)));
    let change = UpdateProject {
        project_no: None,
        name: Some("Alpha 2".into()),
        code: None,
        project_type: None,
        status: Some("已结束".into()),
        cycle: Some("Q1".into()),
        owner: None,
        description: None,
    };
    let q = update_project(&auth(1, "admin"), Some(project()), change).unwrap();
    assert_eq!(q.name, "Alpha 2");
    assert_eq!(q.status, "已结束");
    assert_eq!(q.cycle.as_deref(), Some("Q1"));
    assert_eq!(q.project_no.as_deref(), Some("P-3"));
    assert_eq!(q.owner.as_deref(), Some("olga"));
    let empty = UpdateProject { project_no: None, name: None, code: None, project_type: None, status: None, cycle: None, owner: None, description: None };
    assert!(matches!(update_project(&auth(1, "admin"), None, empty), Err(Failure::ProjectNotFound)));
    let r = to_response(project());
    assert_eq!((r.id, r.name.as_str(), r.status.as_str()), (3, "Alpha", "进行中"));
    let p = project();
    assert_eq!(check_delete_project(&auth(1, "admin"), 0, Some(&p)), Ok(()));
    assert_eq!(check_delete_project(&auth(1, "admin"), 4, Some(&p)), Err(Failure::ProjectReferenced(4)));
    assert_eq!(check_delete_project(&auth(1, "admin"), 0, None), Err(Failure::ProjectNotFound));
    assert_eq!(check_delete_project(&auth(1, "dept_manager"), 0, Some(&p)), Err(Failure::ProjectDeleteForbidden));
    assert_eq!(Failure::ProjectReferenced(4).message(), "该项目已被 4 条工时记录引用，无法删除。请先删除/修改相关工时记录后再试");
}

fn register(username: &str, email: &str, password: &str) -> RegisterRequest {
    RegisterRequest { username: username.into(), email: email.into(), password: password.into(), department_id: 10 }
}

fn request(id: i32, username: &str, status: &str) -> RegistrationRequest {
    RegistrationRequest {
        id,
        username: username.into(),
        email: format!("{username}@test.invalid"),
        password_hash: "h".into(),
        department_id: 10,
        status: status.into(),
        assigned_approver_role: None,
        assigned_approver_id: None,
        approved_by: None,
        rejected_by: None,
        reject_reason: None,
    }
}

#[test]
fn registration_fields_and_conflicts() {
    assert_eq!(normalize("  carol "), "carol");
    assert_eq!(check_registration_fields(&register(" ", "a@b", "123456")), Err(Failure::UsernameEmpty));
    assert_eq!(check_registration_fields(&register("a", "  ", "123456")), Err(Failure::EmailEmpty));
    assert_eq!(check_registration_fields(&register("a", "a@b", " 12345 ")), Err(Failure::PasswordTooShort));
    let users = vec![user(1, "admin", "admin", None, false), user(2, "dave", "employee", Some(10), false), user(3, "erin", "employee", Some(10), true)];
    let requests = vec![request(1, "frank", "pending"), request(2, "gina", "rejected")];
    assert!(matches!(assess_registration(&register("x", "x@y", "123456"), false, &users, &requests), Err(Failure::RegistrationDepartmentMissing)));
    assert!(matches!(assess_registration(&register(" dave ", "new@y", "123456"), true, &users, &requests), Err(Failure::AccountExists)));
    assert!(matches!(assess_registration(&register("new", "dave@test.invalid", "123456"), true, &users, &requests), Err(Failure::AccountExists)));
    assert!(matches!(assess_registration(&register("frank", "f@y", "123456"), true, &users, &requests), Err(Failure::DuplicatePendingRegistration)));
    // deleted accounts and settled requests do not block a name
    let ok = assess_registration(&register(" erin ", " erin@y ", " secret1 "), true, &users, &requests).unwrap();
    assert_eq!(ok.username, "erin");
    assert_eq!(ok.email, "erin@y");
    assert_eq!(ok.status, "pending");
    assert_eq!(ok.assigned_approver_role.as_deref(), Some("admin"));
    assert_eq!(ok.assigned_approver_id, Some(1));
    assert!(bcrypt::verify("secret1", &ok.password_hash).unwrap());
    assert!(assess_registration(&register("gina", "g@y", "123456"), true, &users, &requests).is_ok());
}

#[test]
fn registrations_go_to_the_lowest_ranking_approver() {
    let mut users = vec![
        user(9, "adm", "admin", None, false),
        user(7, "tk2", "timekeeper", None, false),
        user(5, "tk1", "timekeeper", None, false),
        user(8, "dm-other", "dept_manager", Some(20), false),
    ];
    assert_eq!(pick_assignee(&users, 10), (Some("timekeeper".to_string()), Some(5)));
    users.push(user(12, "dm2", "dept_manager", Some(10), false));
    users.push(user(11, "dm1", "dept_manager", Some(10), false));
    users.push(user(3, "dm0", "dept_manager", Some(10), true));
    assert_eq!(pick_assignee(&users, 10), (Some("dept_manager".to_string()), Some(11)));
    assert_eq!(pick_assignee(&[user(4, "a", "admin", None, false)].to_vec(), 10), (Some("admin".to_string()), Some(4)));
    assert_eq!(pick_assignee(&vec![], 10), (None, None));
}

#[test]
fn registration_status_needs_id_and_address() {
    let q = |id: Option<i32>, email: Option<&str>| RegisterStatusQuery { request_id: id, email: email.map(|s| s.to_string()) };
    let mut found = request(4, "hal", "rejected");
    found.reject_reason = Some("no".into());
    let ok = register_status(&q(Some(4), Some(" hal@test.invalid ")), Some(found.clone())).unwrap();
    assert_eq!((ok.request_id, ok.status.as_str(), ok.reject_reason.as_deref()), (4, "rejected", Some("no")));
    assert!(matches!(register_status(&q(Some(4), Some("x@y")), Some(found.clone())), Err(Failure::RegistrationNotFound)));
    assert!(matches!(register_status(&q(None, Some("hal@test.invalid")), Some(found.clone())), Err(Failure::RegistrationNotFound)));
    assert!(matches!(register_status(&q(Some(4), None), Some(found)), Err(Failure::RegistrationNotFound)));
    assert!(matches!(register_status(&q(Some(4), Some("hal@test.invalid")), None), Err(Failure::RegistrationNotFound)));
}

#[test]
fn registration_approvals() {
    let users = vec![
        user(1, "admin", "admin", None, false),
        user(3, "manny", "dept_manager", Some(10), false),
        user(4, "nora", "dept_manager", Some(20), false),
        user(5, "otto", "dept_manager", None, false),
        user(6, "ivy", "employee", None, false),
    ];
    assert_eq!(pending_registration_department(&auth(1, "timekeeper"), &users), Ok(None));
    assert_eq!(pending_registration_department(&auth(3, "dept_manager"), &users), Ok(Some(10)));
    assert_eq!(pending_registration_department(&auth(5, "dept_manager"), &users), Err(Failure::ManagerWithoutDepartment));
    assert_eq!(pending_registration_department(&auth(6, "employee"), &users), Err(Failure::NoPermission));

    let (account, done) = approve_registration(&auth(3, "dept_manager"), Some(request(1, "jay", "pending")), &users).unwrap();
    assert_eq!(account.username, "jay");
    assert_eq!(account.role, "employee");
    assert_eq!(account.department_id, Some(10));
    assert_eq!(done.status, "approved");
    assert_eq!(done.approved_by, Some(3));
    assert!(matches!(approve_registration(&auth(4, "dept_manager"), Some(request(1, "jay", "pending")), &users), Err(Failure::OtherDepartmentRequest)));
    assert!(matches!(approve_registration(&auth(1, "admin"), Some(request(1, "jay", "approved")), &users), Err(Failure::RequestProcessed)));
    assert!(matches!(approve_registration(&auth(1, "admin"), None, &users), Err(Failure::RequestNotFound)));
    assert!(matches!(approve_registration(&auth(1, "admin"), Some(request(1, "ivy", "pending")), &users), Err(Failure::AccountTakenOnApproval)));
    assert!(matches!(approve_registration(&auth(6, "employee"), Some(request(1, "jay", "pending")), &users), Err(Failure::NoPermission)));

    let rejected = reject_registration(&auth(1, "admin"), Some(request(2, "kim", "pending")), &users, RejectPayload { reason: "dup".into() }).unwrap();
    assert_eq!(rejected.status, "rejected");
    assert_eq!(rejected.rejected_by, Some(1));
    assert_eq!(rejected.reject_reason.as_deref(), Some("dup"));
    assert!(matches!(reject_registration(&auth(9, "dept_manager"), Some(request(2, "kim", "pending")), &users, RejectPayload { reason: "x".into() }), Err(Failure::CurrentUserNotFound)));
}

#[test]
fn account_administration() {
    let create = || CreateUser { username: "lee".into(), email: "lee@x".into(), password: "pw-123456".into(), role: "employee".into(), department_id: Some(2) };
    let u = new_user(&auth(1, "admin"), create()).unwrap();
    assert_eq!(u.username, "lee");
    assert!(bcrypt::verify("pw-123456", &u.password_hash).unwrap());
    assert!(matches!(new_user(&auth(1, "timekeeper"), create()), Err(Failure::NoPermission)));
    let old = user(5, "max", "employee", Some(2), false);
    let change = UpdateUser { username: None, email: Some("m@x".into()), password: None, role: Some("dept_manager".into()), department_id: Some(None) };
    let changed = update_user(&auth(1, "admin"), Some(old.clone()), change).unwrap();
    assert_eq!(changed.username, "max");
    assert_eq!(changed.email, "m@x");
    assert_eq!(changed.role, "dept_manager");
    assert_eq!(changed.department_id, None);
    assert_eq!(changed.password_hash, "h");
    let keep = UpdateUser { username: None, email: None, password: None, role: None, department_id: None };
    let same = update_user(&auth(1, "admin"), Some(old.clone()), keep).unwrap();
    assert_eq!(same.department_id, Some(2));
    let pw = UpdateUser { username: None, email: None, password: Some("fresh-pass".into()), role: None, department_id: None };
    let re = update_user(&auth(1, "admin"), Some(old), pw).unwrap();
    assert!(bcrypt::verify("fresh-pass", &re.password_hash).unwrap());
    assert!(matches!(update_user(&auth(1, "admin"), None, UpdateUser { username: None, email: None, password: None, role: None, department_id: None }), Err(Failure::AccountNotFound)));
}

#[test]
fn only_staff_decide_registrations() {
    for role in ["admin", "timekeeper", "dept_manager"] {
        assert!(registration_approver_gate(&auth(1, role)).is_ok());
    }
    for role in ["employee", "project_manager"] {
        assert!(matches!(registration_approver_gate(&auth(1, role)), Err(Failure::NoPermission)));
    }
}
