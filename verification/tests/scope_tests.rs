use eladmin_rs::dept::{get_dept_children, DeptDto};
use eladmin_rs::error::AppError;
use eladmin_rs::role::{DataScope, RoleSmallDto};
use eladmin_rs::scope::{get_customize, get_dept_ids, RoleDeptLink};
use eladmin_rs::user::{DeptSmallDto, SysUserDTO};

fn dept(id: i64, pid: Option<i64>, enabled: bool) -> DeptDto {
    DeptDto {
        dept_id: id,
        pid,
        sub_count: 0,
        name: format!("dept-{}", id),
        dept_sort: 0,
        enabled,
        children: Vec::new(),
    }
}

fn role(id: i64, scope: Option<DataScope>) -> RoleSmallDto {
    RoleSmallDto { id, name: format!("role-{}", id), level: 1, data_scope: scope }
}

fn user_with_dept(dept_id: i64) -> SysUserDTO {
    SysUserDTO {
        user_id: 1,
        dept_id: Some(dept_id),
        dept: Some(DeptSmallDto { id: dept_id, name: "own".to_string() }),
        username: "alice".to_string(),
        password: String::new(),
        nick_name: None,
        gender: None,
        phone: None,
        email: None,
        avatar_name: None,
        avatar_path: None,
        is_admin: false,
        enabled: true,
    }
}

fn sorted(mut v: Vec<i64>) -> Vec<i64> {
    v.sort();
    v
}

// 1 -> 2 -> 3, 1 -> 4 (disabled) -> 5, 6 standalone
fn sample_table() -> Vec<DeptDto> {
    vec![
        dept(1, None, true),
        dept(2, Some(1), true),
        dept(3, Some(2), true),
        dept(4, Some(1), false),
        dept(5, Some(4), true),
        dept(6, None, true),
    ]
}

#[test]
fn closure_collects_enabled_descendants() {
    let table = sample_table();
    let r = get_dept_children(&table, &vec![1]);
    assert_eq!(sorted(r), vec![2, 3]);
}

#[test]
fn closure_twice_on_same_input_yields_same_set() {
    let table = sample_table();
    let r1 = get_dept_children(&table, &vec![1]);
    let r2 = get_dept_children(&table, &vec![1]);
    assert_eq!(sorted(r1), sorted(r2));
}

#[test]
fn disabled_department_never_contributes_its_id() {
    let table = sample_table();
    let r = get_dept_children(&table, &vec![1]);
    assert!(!r.contains(&4));
}

#[test]
fn disabled_ancestor_prunes_enabled_descendants() {
    let table = sample_table();
    // 5 is enabled, but its parent 4 is disabled: the walk never
    // descends into 4, so 5 stays out.
    let r = get_dept_children(&table, &vec![1]);
    assert!(!r.contains(&5));
    // Seeding 4 directly still reaches 5: the seed itself is not
    // filtered, only the chain below it must be enabled.
    let r = get_dept_children(&table, &vec![4]);
    assert_eq!(sorted(r), vec![5]);
}

#[test]
fn customize_adds_linked_depts_and_closure() {
    let table = sample_table();
    let links = vec![RoleDeptLink { role_id: 10, dept_id: 1 }, RoleDeptLink {
        role_id: 11,
        dept_id: 6,
    }];
    let mut acc: Vec<i64> = Vec::new();
    get_customize(&mut acc, 10, &links, &table);
    assert_eq!(sorted(acc), vec![1, 2, 3]);
}

#[test]
fn this_level_and_customize_are_order_independent() {
    let table = sample_table();
    let links = vec![RoleDeptLink { role_id: 11, dept_id: 6 }];
    let user = user_with_dept(3);
    let a = role(10, Some(DataScope::ThisLevel));
    let b = role(11, Some(DataScope::Customize));
    let r1 = get_dept_ids(&user, &vec![a, b], &links, &table).unwrap();
    let a = role(10, Some(DataScope::ThisLevel));
    let b = role(11, Some(DataScope::Customize));
    let r2 = get_dept_ids(&user, &vec![b, a], &links, &table).unwrap();
    assert_eq!(sorted(r1), sorted(r2));
    let a = role(10, Some(DataScope::ThisLevel));
    let b = role(11, Some(DataScope::Customize));
    let r3 = get_dept_ids(&user, &vec![a, b], &links, &table).unwrap();
    assert_eq!(sorted(r3), vec![3, 6]);
}

#[test]
fn all_scope_is_order_dependent() {
    // Pins the reference behavior: an `All` role stops the iteration,
    // keeping only what earlier roles gathered.
    let table = sample_table();
    let links: Vec<RoleDeptLink> = Vec::new();
    let user = user_with_dept(3);
    let this_level = role(10, Some(DataScope::ThisLevel));
    let all = role(11, Some(DataScope::All));
    let first = get_dept_ids(&user, &vec![this_level, all], &links, &table).unwrap();
    assert_eq!(sorted(first), vec![3]);
    let this_level = role(10, Some(DataScope::ThisLevel));
    let all = role(11, Some(DataScope::All));
    let second = get_dept_ids(&user, &vec![all, this_level], &links, &table).unwrap();
    assert_eq!(second, Vec::<i64>::new());
}

#[test]
fn unrecognized_scope_fails_resolution() {
    let table = sample_table();
    let links: Vec<RoleDeptLink> = Vec::new();
    let user = user_with_dept(3);
    let bad = role(10, None);
    let r = get_dept_ids(&user, &vec![bad], &links, &table);
    match r {
        Err(AppError::InternalServerError(m)) => assert_eq!(m, "data scope corrupt"),
        other => panic!("expected a data-integrity error, got {:?}", other),
    }
}

#[test]
fn this_level_without_department_adds_nothing() {
    let table = sample_table();
    let links: Vec<RoleDeptLink> = Vec::new();
    let mut user = user_with_dept(3);
    user.dept = None;
    let r = get_dept_ids(&user, &vec![role(10, Some(DataScope::ThisLevel))], &links, &table)
        .unwrap();
    assert_eq!(r, Vec::<i64>::new());
}

#[test]
fn empty_roles_resolve_to_empty_scope() {
    let table = sample_table();
    let r = get_dept_ids(&user_with_dept(3), &Vec::new(), &Vec::new(), &table).unwrap();
    assert_eq!(r, Vec::<i64>::new());
}

#[test]
fn data_scope_tags_parse() {
    assert_eq!(DataScope::from_tag("\u{5168}\u{90e8}"), Some(DataScope::All));
    assert_eq!(DataScope::from_tag("\u{672c}\u{7ea7}"), Some(DataScope::ThisLevel));
    assert_eq!(DataScope::from_tag("\u{81ea}\u{5b9a}\u{4e49}"), Some(DataScope::Customize));
    assert_eq!(DataScope::from_tag("all"), None);
    assert_eq!(DataScope::from_tag(""), None);
}
