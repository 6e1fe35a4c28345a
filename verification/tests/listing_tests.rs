use zggsds::auth::AuthUser;
use zggsds::calendar::Date;
use zggsds::embed::resolve_asset;
use zggsds::error::Failure;
use zggsds::export::{content_disposition, export_labels, export_rows, status_label};
use zggsds::models::{Project, TimeEntry, User};
use zggsds::query::{
    base_scope, entry_admitted, page_params, pending_list_gate, pending_scope, total_pages, EntryFilter,
    EntryScope, PendingScope,
};

fn user(id: i32, name: &str, role: &str, dept: Option<i32>) -> User {
    User {
        id,
        username: name.into(),
        email: format!("{name}@x"),
        password_hash: String::new(),
        role: role.into(),
        department_id: dept,
        deleted: false,
    }
}

fn project(id: i32, no: Option<&str>, code: Option<&str>, owner: Option<&str>) -> Project {
    Project {
        id,
        project_no: no.map(|s| s.into()),
        name: format!("project {id}"),
        code: code.map(|s| s.into()),
        project_type: "研发".into(),
        status: "进行中".into(),
        cycle: None,
        owner: owner.map(|s| s.into()),
        description: None,
    }
}

fn entry(user_id: i32, project_id: Option<i32>, status: &str) -> TimeEntry {
    TimeEntry {
        id: 1,
        user_id,
        project_id,
        work_date: Date { year: 2026, month: 1, day: 5 },
        description: "d".into(),
        status: status.into(),
        approved_by: None,
        second_approved_by: None,
        second_status: None,
        edit_allowed: 0,
        edit_requested: 0,
    }
}

#[test]
fn paging_defaults_and_bounds() {
    let p = page_params(None, None);
    assert_eq!((p.page, p.page_size), (1, 10));
    let p = page_params(Some(0), Some(0));
    assert_eq!((p.page, p.page_size), (1, 1));
    let p = page_params(Some(7), Some(1000));
    assert_eq!((p.page, p.page_size), (7, 100));
    assert_eq!(total_pages(0, 10), 0);
    assert_eq!(total_pages(10, 10), 1);
    assert_eq!(total_pages(11, 10), 2);
    assert_eq!(total_pages(1, 1), 1);
    assert_eq!(total_pages(u64::MAX, 2), u64::MAX / 2 + 1);
}

#[test]
fn scopes_by_role() {
    let users = vec![user(1, "m", "dept_manager", Some(5)), user(2, "a", "employee", Some(5)), user(3, "b", "employee", Some(6)), user(4, "c", "employee", Some(5))];
    match base_scope(&AuthUser { user_id: 1, role: "dept_manager".into() }, &users).unwrap() {
        EntryScope::Members(ids) => assert_eq!(ids, vec![1, 2, 4]),
        _ => panic!("expected the department"),
    }
    assert!(matches!(base_scope(&AuthUser { user_id: 1, role: "timekeeper".into() }, &users), Ok(EntryScope::All)));
    assert!(matches!(base_scope(&AuthUser { user_id: 3, role: "employee".into() }, &users), Ok(EntryScope::Own(3))));
    assert!(matches!(base_scope(&AuthUser { user_id: 9, role: "dept_manager".into() }, &users), Err(Failure::CurrentUserNotFound)));
}

#[test]
fn pending_approvals_by_role() {
    let users = vec![user(1, "m", "dept_manager", Some(5)), user(2, "a", "employee", Some(5)), user(3, "b", "employee", Some(6))];
    let projects = vec![project(7, None, None, Some("m")), project(8, None, None, Some(" m")), project(9, None, None, None)];
    match pending_scope(&AuthUser { user_id: 1, role: "dept_manager".into() }, &users, &projects).unwrap() {
        PendingScope::Department { members, owned_projects } => {
            assert_eq!(members, vec![2]);
            assert_eq!(owned_projects, vec![7]);
        },
        _ => panic!("expected the department"),
    }
    assert!(matches!(pending_scope(&AuthUser { user_id: 1, role: "admin".into() }, &users, &projects), Ok(PendingScope::Everything)));
    assert!(matches!(pending_scope(&AuthUser { user_id: 1, role: "project_manager".into() }, &users, &projects), Ok(PendingScope::SecondStage)));
    assert!(matches!(pending_scope(&AuthUser { user_id: 1, role: "timekeeper".into() }, &users, &projects), Err(Failure::PendingListForbidden)));
    let lonely = vec![user(1, "m", "dept_manager", None)];
    assert!(matches!(pending_scope(&AuthUser { user_id: 1, role: "dept_manager".into() }, &lonely, &projects), Err(Failure::ManagerWithoutDepartment)));
}

#[test]
fn export_cells() {
    let users = vec![user(1, "ann", "employee", None), user(2, "ben", "employee", None)];
    let projects = vec![project(7, Some("P-7"), Some("C7"), None), project(8, None, Some("C8"), None), project(9, None, None, None)];
    let l = export_labels(&entry(2, Some(7), "dept_approved"), &users, &projects);
    assert_eq!((l.user.as_str(), l.project_no.as_str(), l.project_name.as_str(), l.status.as_str()), ("ben", "P-7", "project 7", "部门已审批"));
    let l = export_labels(&entry(1, Some(8), "pending"), &users, &projects);
    assert_eq!((l.project_no.as_str(), l.status.as_str()), ("C8", "待审批"));
    let l = export_labels(&entry(5, Some(9), "approved"), &users, &projects);
    assert_eq!((l.user.as_str(), l.project_no.as_str(), l.status.as_str()), ("-", "-", "已通过"));
    let l = export_labels(&entry(1, Some(42), "archived"), &users, &projects);
    assert_eq!((l.project_no.as_str(), l.project_name.as_str(), l.status.as_str()), ("-", "-", "archived"));
    let l = export_labels(&entry(1, None, "rejected"), &users, &projects);
    assert_eq!((l.project_no.as_str(), l.status.as_str()), ("-", "已拒绝"));
    assert_eq!(status_label("approved"), "已通过");
}

#[test]
fn download_names_are_percent_encoded() {
    assert_eq!(content_disposition("a b.xlsx"), "attachment; filename=a%20b%2Exlsx");
    assert_eq!(content_disposition("工时"), "attachment; filename=%E5%B7%A5%E6%97%B6");
    assert_eq!(content_disposition("Az09"), "attachment; filename=Az09");
}

#[test]
fn asset_paths() {
    assert_eq!(resolve_asset(""), Some(("index.html".to_string(), "text/html".to_string())));
    assert_eq!(resolve_asset("/"), Some(("index.html".to_string(), "text/html".to_string())));
    assert_eq!(resolve_asset("//app.js").map(|(p, _)| p), Some("app.js".to_string()));
    assert_eq!(resolve_asset("style.css").map(|(_, m)| m), Some("text/css".to_string()));
    assert_eq!(resolve_asset("blob").map(|(_, m)| m), Some("application/octet-stream".to_string()));
    assert_eq!(resolve_asset("users"), None);
    assert_eq!(resolve_asset("/auth/login"), None);
    assert_eq!(resolve_asset("time-entries.html"), None);
    assert_eq!(resolve_asset("departmentsX"), None);
}

#[test]
fn failure_messages() {
    assert_eq!(Failure::NoPermission.message(), "无权限");
    assert_eq!(Failure::BadCredentials.message(), "用户名或密码错误");
    assert_eq!(Failure::RowProjectInactive(0).message(), "第0条: 只能为进行中的项目填写工时");
    assert_eq!(Failure::ProjectReferenced(1234567).message(), "该项目已被 1234567 条工时记录引用，无法删除。请先删除/修改相关工时记录后再试");
}

#[test]
fn export_rows_keep_the_admitted_entries_in_order() {
    let users = vec![user(1, "ann", "employee", None), user(2, "ben", "employee", None)];
    let projects = vec![project(7, Some("P-7"), None, None)];
    let mut first = entry(2, Some(7), "approved");
    first.work_date = Date { year: 2026, month: 1, day: 20 };
    let second = entry(1, None, "pending");
    let mut third = entry(2, None, "rejected");
    third.work_date = Date { year: 2025, month: 12, day: 31 };
    let entries = vec![first, second, third];
    let filter = EntryFilter {
        scope: EntryScope::Members(vec![2]),
        start_date: None,
        end_date: None,
        month: Some((Date { year: 2026, month: 1, day: 1 }, Date { year: 2026, month: 1, day: 31 })),
        user_id: None,
        project_id: None,
    };
    assert!(entry_admitted(&filter, &entries[0]));
    assert!(!entry_admitted(&filter, &entries[1]));
    assert!(!entry_admitted(&filter, &entries[2]));
    let rows = export_rows(&filter, &entries, &users, &projects);
    assert_eq!(rows.len(), 1);
    assert_eq!(rows[0].0, 0);
    assert_eq!((rows[0].1.user.as_str(), rows[0].1.project_no.as_str(), rows[0].1.status.as_str()), ("ben", "P-7", "已通过"));
    let everything = EntryFilter { scope: EntryScope::All, month: None, ..filter };
    let rows = export_rows(&everything, &entries, &users, &projects);
    let positions: Vec<usize> = rows.iter().map(|r| r.0).collect();
    assert_eq!(positions, vec![0, 1, 2]);
    assert_eq!(rows[1].1.user, "ann");
    assert_eq!(rows[2].1.status, "已拒绝");
}

#[test]
fn only_approvers_have_a_pending_list() {
    for role in ["admin", "dept_manager", "project_manager"] {
        assert!(pending_list_gate(&AuthUser { user_id: 1, role: role.into() }).is_ok());
    }
    for role in ["timekeeper", "employee"] {
        assert!(matches!(pending_list_gate(&AuthUser { user_id: 1, role: role.into() }), Err(Failure::PendingListForbidden)));
    }
}

#[test]
fn export_rows_come_newest_first() {
    let users = vec![user(1, "ann", "employee", None)];
    let projects = vec![];
    let dated = |id: i32, y: i32, m: u32, d: u32| {
        let mut e = entry(1, None, "pending");
        e.id = id;
        e.work_date = Date { year: y, month: m, day: d };
        e
    };
    let entries = vec![
        dated(10, 2025, 12, 31),
        dated(11, 2026, 1, 5),
        dated(12, 2026, 1, 20),
        dated(13, 2026, 1, 5),
        dated(14, 2024, 6, 1),
    ];
    let everything = EntryFilter {
        scope: EntryScope::All,
        start_date: None,
        end_date: None,
        month: None,
        user_id: None,
        project_id: None,
    };
    let rows = export_rows(&everything, &entries, &users, &projects);
    let positions: Vec<usize> = rows.iter().map(|r| r.0).collect();
    // the two entries of 5 January keep their order
    assert_eq!(positions, vec![2, 1, 3, 0, 4]);
    let since = EntryFilter { start_date: Some(Date { year: 2026, month: 1, day: 1 }), ..everything };
    let positions: Vec<usize> = export_rows(&since, &entries, &users, &projects).iter().map(|r| r.0).collect();
    assert_eq!(positions, vec![2, 1, 3]);
}
