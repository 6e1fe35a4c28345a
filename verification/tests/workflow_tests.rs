use zggsds::auth::AuthUser;
use zggsds::calendar::Date;
use zggsds::error::Failure;
use zggsds::models::{Project, TimeEntry, User};
use zggsds::time_entry::{
    active_project, allow_edit, batch_row_project, check_batch_description, check_batch_size,
    check_delete, check_update, current_username_if_dept_manager, deny_edit, first_approval,
    has_project_owner, is_project_owner, needs_second_approval, new_time_entry,
    project_requires_second_approval, request_edit, resolve_initial_status, second_approval,
    apply_update, edit_manager_gate, first_approval_gate, second_approval_gate, UpdateStatus,
};

fn user(id: i32, name: &str, role: &str, dept: Option<i32>) -> User {
    User {
        id,
        username: name.into(),
        email: format!("{name}@test.invalid"),
        password_hash: String::new(),
        role: role.into(),
        department_id: dept,
        deleted: false,
    }
}

fn project(id: i32, kind: &str, owner: Option<&str>, status: &str) -> Project {
    Project {
        id,
        project_no: Some(format!("P{id}")),
        name: format!("project {id}"),
        code: None,
        project_type: kind.into(),
        status: status.into(),
        cycle: None,
        owner: owner.map(|s| s.to_string()),
        description: None,
    }
}

fn entry(id: i32, user_id: i32, project_id: Option<i32>, status: &str) -> TimeEntry {
    TimeEntry {
        id,
        user_id,
        project_id,
        work_date: Date { year: 2026, month: 2, day: 10 },
        description: "work".into(),
        status: status.into(),
        approved_by: None,
        second_approved_by: None,
        second_status: None,
        edit_allowed: 0,
        edit_requested: 0,
    }
}

fn auth(id: i32, role: &str) -> AuthUser {
    AuthUser { user_id: id, role: role.into() }
}

fn verdict(s: &str) -> UpdateStatus {
    UpdateStatus { status: s.into() }
}

fn staff() -> Vec<User> {
    vec![
        user(1, "admin", "admin", None),
        user(2, "alice", "employee", Some(10)),
        user(3, "manny", "dept_manager", Some(10)),
        user(4, "olga", "project_manager", None),
        user(5, "bob", "employee", Some(20)),
    ]
}

#[test]
fn second_approval_types_and_owners() {
    assert!(needs_second_approval("交付"));
    assert!(needs_second_approval("研发"));
    assert!(needs_second_approval("售前"));
    assert!(!needs_second_approval("事务"));
    assert!(has_project_owner(Some(" olga ")));
    assert!(!has_project_owner(Some("   ")));
    assert!(!has_project_owner(None));
    assert!(is_project_owner(Some(" olga "), "olga"));
    assert!(!is_project_owner(Some("olga"), "Olga"));
    assert!(!is_project_owner(Some(""), ""));
    assert!(project_requires_second_approval(&project(1, "研发", Some("olga"), "进行中")));
    assert!(!project_requires_second_approval(&project(1, "研发", Some(" "), "进行中")));
    assert!(!project_requires_second_approval(&project(1, "事务", Some("olga"), "进行中")));
}

#[test]
fn initial_status_by_role_and_project() {
    let dev = project(1, "研发", Some("olga"), "进行中");
    let chores = project(2, "事务", Some("olga"), "进行中");
    assert_eq!(resolve_initial_status(&auth(2, "employee"), Some(&dev), None), "pending");
    assert_eq!(resolve_initial_status(&auth(1, "admin"), None, None), "pending");
    let mgr = auth(3, "dept_manager");
    assert_eq!(resolve_initial_status(&mgr, None, Some("manny")), "approved");
    assert_eq!(resolve_initial_status(&mgr, Some(&chores), Some("manny")), "approved");
    assert_eq!(resolve_initial_status(&mgr, Some(&dev), Some("manny")), "dept_approved");
    assert_eq!(resolve_initial_status(&mgr, Some(&dev), None), "dept_approved");
    assert_eq!(resolve_initial_status(&mgr, Some(&dev), Some("olga")), "approved");
}

#[test]
fn entries_need_an_active_project() {
    assert!(matches!(active_project(None, None), Ok(None)));
    assert!(matches!(active_project(Some(1), None), Err(Failure::ProjectNotFound)));
    assert!(matches!(
        active_project(Some(1), Some(project(1, "事务", None, "已结束"))),
        Err(Failure::ProjectInactive)
    ));
    assert!(matches!(
        active_project(Some(1), Some(project(1, "事务", None, "进行中"))),
        Ok(Some(_))
    ));
    assert!(matches!(batch_row_project(3, Some(1), None), Err(Failure::RowProjectNotFound(3))));
    assert!(matches!(
        batch_row_project(4, Some(1), Some(project(1, "事务", None, "暂停"))),
        Err(Failure::RowProjectInactive(4))
    ));
}

#[test]
fn department_managers_name_is_looked_up() {
    let users = staff();
    assert_eq!(current_username_if_dept_manager(&auth(2, "employee"), None), Ok(None));
    assert_eq!(
        current_username_if_dept_manager(&auth(3, "dept_manager"), Some(&users[2])),
        Ok(Some("manny".to_string()))
    );
    assert_eq!(
        current_username_if_dept_manager(&auth(9, "dept_manager"), None),
        Err(Failure::CurrentUserNotFound)
    );
}

#[test]
fn new_entries_and_batches() {
    let date = Date { year: 2026, month: 2, day: 9 };
    let e = new_time_entry(&auth(2, "employee"), Some(1), date, "  fixed bugs \n", "pending");
    assert_eq!(e.user_id, 2);
    assert_eq!(e.description, "fixed bugs");
    assert_eq!(e.work_type, "development");
    assert_eq!(e.status, "pending");
    assert_eq!(e.edit_allowed, 0);
    assert_eq!(check_batch_size(0), Err(Failure::BatchEmpty));
    assert_eq!(check_batch_size(500), Ok(()));
    assert_eq!(check_batch_size(501), Err(Failure::BatchTooLarge));
    assert_eq!(check_batch_description(2, "  "), Err(Failure::RowDescriptionEmpty(2)));
    assert_eq!(check_batch_description(2, "x"), Ok(()));
    assert_eq!(Failure::RowDescriptionEmpty(12).message(), "第12条: 描述不能为空");
}

#[test]
fn first_approval_by_department_manager() {
    let users = staff();
    let projects = vec![project(7, "研发", Some("olga"), "进行中"), project(8, "事务", None, "进行中")];
    let mgr = auth(3, "dept_manager");
    // needs the project owner's approval afterwards
    let out = first_approval(&mgr, &verdict("approved"), Some(entry(1, 2, Some(7), "pending")), &users, &projects).unwrap();
    assert_eq!(out.entry.status, "dept_approved");
    assert!(out.awaiting_second);
    assert_eq!(out.entry.approved_by, Some(3));
    // a project without a second stage is approved at once
    let out = first_approval(&mgr, &verdict("approved"), Some(entry(1, 2, Some(8), "pending")), &users, &projects).unwrap();
    assert_eq!(out.entry.status, "approved");
    assert!(!out.awaiting_second);
    // rejections are final
    let out = first_approval(&mgr, &verdict("rejected"), Some(entry(1, 2, Some(7), "pending")), &users, &projects).unwrap();
    assert_eq!(out.entry.status, "rejected");
    assert!(!out.awaiting_second);
}

#[test]
fn first_approval_refusals() {
    let users = staff();
    let projects: Vec<Project> = vec![];
    let mgr = auth(3, "dept_manager");
    let e = || Some(entry(1, 2, None, "pending"));
    assert!(matches!(first_approval(&auth(4, "project_manager"), &verdict("approved"), e(), &users, &projects), Err(Failure::FirstApprovalForbidden)));
    assert!(matches!(first_approval(&mgr, &verdict("maybe"), e(), &users, &projects), Err(Failure::InvalidApprovalStatus)));
    assert!(matches!(first_approval(&mgr, &verdict("approved"), None, &users, &projects), Err(Failure::EntryNotFound)));
    assert!(matches!(first_approval(&mgr, &verdict("approved"), Some(entry(1, 2, None, "approved")), &users, &projects), Err(Failure::AlreadyApproved)));
    assert!(matches!(first_approval(&mgr, &verdict("approved"), Some(entry(1, 3, None, "pending")), &users, &projects), Err(Failure::SelfApproval)));
    assert!(matches!(first_approval(&mgr, &verdict("approved"), Some(entry(1, 5, None, "pending")), &users, &projects), Err(Failure::OtherDepartmentEntry)));
    assert!(matches!(first_approval(&mgr, &verdict("approved"), Some(entry(1, 99, None, "pending")), &users, &projects), Err(Failure::EntryOwnerNotFound)));
    assert!(matches!(first_approval(&auth(77, "dept_manager"), &verdict("approved"), e(), &users, &projects), Err(Failure::CurrentUserNotFound)));
    // administrators approve across departments
    let out = first_approval(&auth(1, "admin"), &verdict("approved"), Some(entry(1, 5, None, "pending")), &users, &projects).unwrap();
    assert_eq!(out.entry.status, "approved");
}

#[test]
fn second_approval_flow() {
    let users = staff();
    let projects = vec![project(7, "研发", Some("manny"), "进行中")];
    let waiting = || Some(entry(1, 2, Some(7), "dept_approved"));
    let out = second_approval(&auth(4, "project_manager"), verdict("approved"), waiting(), &users, &projects).unwrap();
    assert_eq!(out.status, "approved");
    assert_eq!(out.second_approved_by, Some(4));
    assert_eq!(out.second_status, Some("approved".to_string()));
    let out = second_approval(&auth(1, "admin"), verdict("whatever"), waiting(), &users, &projects).unwrap();
    assert_eq!(out.status, "rejected");
    assert_eq!(out.second_status, Some("whatever".to_string()));
    // a department manager owning the project may decide
    assert!(second_approval(&auth(3, "dept_manager"), verdict("approved"), waiting(), &users, &projects).is_ok());
    let other = vec![project(7, "研发", Some("olga"), "进行中")];
    assert!(matches!(second_approval(&auth(3, "dept_manager"), verdict("approved"), waiting(), &users, &other), Err(Failure::NotProjectOwner)));
    assert!(matches!(second_approval(&auth(2, "employee"), verdict("approved"), waiting(), &users, &projects), Err(Failure::SecondApprovalForbidden)));
    assert!(matches!(second_approval(&auth(4, "project_manager"), verdict("approved"), Some(entry(1, 2, Some(7), "pending")), &users, &projects), Err(Failure::NotDeptApproved)));
}

#[test]
fn edit_requests() {
    let users = staff();
    let today = Date { year: 2026, month: 2, day: 20 };
    let approved = || Some(entry(1, 2, None, "approved"));
    let req = request_edit(&auth(2, "employee"), approved(), today).unwrap();
    assert_eq!(req.edit_requested, 1);
    assert!(matches!(request_edit(&auth(5, "employee"), approved(), today), Err(Failure::RequestEditNotOwn)));
    assert!(matches!(request_edit(&auth(2, "employee"), Some(entry(1, 2, None, "pending")), today), Err(Failure::PendingDirectlyEditable)));
    assert!(matches!(request_edit(&auth(2, "employee"), Some(entry(1, 2, None, "rejected")), today), Err(Failure::RejectedDirectlyEditable)));
    assert!(matches!(request_edit(&auth(2, "employee"), approved(), Date { year: 2026, month: 3, day: 1 }), Err(Failure::RequestEditOtherMonth)));

    let mut asked = entry(1, 2, None, "approved");
    asked.edit_requested = 1;
    let allowed = allow_edit(&auth(3, "dept_manager"), Some(asked.clone()), today, &users).unwrap();
    assert_eq!((allowed.edit_allowed, allowed.edit_requested), (1, 0));
    assert!(matches!(allow_edit(&auth(2, "employee"), Some(asked.clone()), today, &users), Err(Failure::AllowEditForbidden)));
    assert!(matches!(allow_edit(&auth(3, "dept_manager"), Some(asked.clone()), Date { year: 2025, month: 2, day: 1 }, &users), Err(Failure::AllowEditOtherMonth)));
    let mut own = asked.clone();
    own.user_id = 3;
    assert!(matches!(allow_edit(&auth(3, "dept_manager"), Some(own), today, &users), Err(Failure::OwnEntryOperation)));
    let mut foreign = asked.clone();
    foreign.user_id = 5;
    assert!(matches!(deny_edit(&auth(3, "dept_manager"), Some(foreign), &users), Err(Failure::OtherDepartmentOperation)));
    let denied = deny_edit(&auth(1, "admin"), Some(asked.clone()), &users).unwrap();
    assert_eq!(denied.edit_requested, 0);
    assert!(matches!(deny_edit(&auth(1, "admin"), approved(), &users), Err(Failure::EditNotRequested)));
    assert!(matches!(deny_edit(&auth(4, "project_manager"), approved(), &users), Err(Failure::DenyEditForbidden)));
}

#[test]
fn changes_and_withdrawals() {
    let pending = entry(1, 2, None, "pending");
    let approved = entry(1, 2, None, "approved");
    assert_eq!(check_update(&auth(2, "employee"), Some(&pending)), Ok(()));
    assert_eq!(check_update(&auth(5, "employee"), Some(&pending)), Err(Failure::UpdateNotOwn));
    assert_eq!(check_update(&auth(1, "admin"), Some(&pending)), Ok(()));
    assert_eq!(check_update(&auth(2, "employee"), Some(&approved)), Err(Failure::UpdateLocked));
    let mut unlocked = approved.clone();
    unlocked.edit_allowed = 1;
    assert_eq!(check_update(&auth(2, "employee"), Some(&unlocked)), Ok(()));
    let mine = entry(1, 3, None, "approved");
    assert_eq!(check_update(&auth(3, "dept_manager"), Some(&mine)), Ok(()));
    assert_eq!(check_update(&auth(3, "dept_manager"), None), Err(Failure::EntryNotFound));
    let changed = apply_update(unlocked, Some(4), Date { year: 2026, month: 2, day: 11 }, "new".into());
    assert_eq!(changed.project_id, Some(4));
    assert_eq!(changed.edit_allowed, 0);
    assert_eq!(changed.status, "approved");

    assert_eq!(check_delete(&auth(2, "employee"), Some(&pending)), Ok(()));
    assert_eq!(check_delete(&auth(2, "employee"), Some(&approved)), Err(Failure::DeleteNotPending));
    assert_eq!(check_delete(&auth(5, "employee"), Some(&pending)), Err(Failure::DeleteNotOwn));
    assert_eq!(check_delete(&auth(1, "admin"), Some(&pending)), Ok(()));
    assert_eq!(check_delete(&auth(1, "admin"), None), Err(Failure::EntryNotFound));
}

#[test]
fn gates_need_no_lookup() {
    let approve = UpdateStatus { status: "approved".into() };
    let odd = UpdateStatus { status: "maybe".into() };
    let who = |role: &str| AuthUser { user_id: 1, role: role.into() };
    assert!(first_approval_gate(&who("admin"), &approve).is_ok());
    assert!(first_approval_gate(&who("dept_manager"), &approve).is_ok());
    assert!(matches!(first_approval_gate(&who("dept_manager"), &odd), Err(Failure::InvalidApprovalStatus)));
    assert!(matches!(first_approval_gate(&who("employee"), &odd), Err(Failure::FirstApprovalForbidden)));
    assert!(second_approval_gate(&who("project_manager")).is_ok());
    assert!(matches!(second_approval_gate(&who("timekeeper")), Err(Failure::SecondApprovalForbidden)));
    assert!(edit_manager_gate(&who("admin"), Failure::DenyEditForbidden).is_ok());
    assert!(matches!(edit_manager_gate(&who("employee"), Failure::AllowEditForbidden), Err(Failure::AllowEditForbidden)));
}
