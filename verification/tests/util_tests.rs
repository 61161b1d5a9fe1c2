use eladmin_rs::config::LoginCodeType;
use eladmin_rs::role::map_to_granted_authorities;
use eladmin_rs::text::{build_redis_uri, eq_ignore_ascii_case, u32_to_string};
use eladmin_rs::user::{DeptSmallDto, SysUserDTO};

fn plain_user(is_admin: bool) -> SysUserDTO {
    SysUserDTO {
        user_id: 1,
        dept_id: None,
        dept: None,
        username: "alice".to_string(),
        password: String::new(),
        nick_name: None,
        gender: None,
        phone: None,
        email: None,
        avatar_name: None,
        avatar_path: None,
        is_admin,
        enabled: true,
    }
}

#[test]
fn decimal_rendering_is_exact() {
    assert_eq!(u32_to_string(0), "0");
    assert_eq!(u32_to_string(7), "7");
    assert_eq!(u32_to_string(12345), "12345");
    assert_eq!(u32_to_string(u32::MAX), "4294967295");
}

#[test]
fn redis_uri_is_assembled_exactly() {
    let uri = build_redis_uri("redis://localhost:6379", &0, &5, &10);
    assert_eq!(uri, "redis://localhost:6379?db=0&timeout=5&max_connections=10");
}

#[test]
fn ascii_case_insensitive_comparison() {
    assert!(eq_ignore_ascii_case("AbC1", "aBc1"));
    assert!(eq_ignore_ascii_case("", ""));
    assert!(!eq_ignore_ascii_case("abc", "abd"));
    assert!(!eq_ignore_ascii_case("abc", "ab"));
    assert!(eq_ignore_ascii_case("straße", "STRAße"));
    assert!(!eq_ignore_ascii_case("Ö", "ö"));
}

#[test]
fn granted_authorities_for_admin_is_the_wildcard() {
    let perms = vec![Some("user:list".to_string()), Some("user:add".to_string())];
    let r = map_to_granted_authorities(&plain_user(true), &perms);
    assert_eq!(r, vec!["admin".to_string()]);
}

#[test]
fn granted_authorities_dedup_and_drop_empty() {
    let perms = vec![
        Some("user:list".to_string()),
        None,
        Some(String::new()),
        Some("user:add".to_string()),
        Some("user:list".to_string()),
    ];
    let mut r = map_to_granted_authorities(&plain_user(false), &perms);
    r.sort();
    assert_eq!(r, vec!["user:add".to_string(), "user:list".to_string()]);
}

#[test]
fn set_dept_fills_the_department() {
    let mut user = plain_user(false);
    user.set_dept(42, "research");
    match user.dept {
        Some(DeptSmallDto { id, ref name }) => {
            assert_eq!(id, 42);
            assert_eq!(name, "research");
        },
        None => panic!("department must be set"),
    }
    assert_eq!(user.username, "alice");
}

#[test]
fn login_code_type_tags_parse() {
    assert_eq!(LoginCodeType::from_tag("chinese"), Some(LoginCodeType::Chinese));
    assert_eq!(LoginCodeType::from_tag("chinese_gif"), Some(LoginCodeType::ChineseGif));
    assert_eq!(LoginCodeType::from_tag("gif"), Some(LoginCodeType::Gif));
    assert_eq!(LoginCodeType::from_tag("spec"), Some(LoginCodeType::Spec));
    assert_eq!(LoginCodeType::from_tag("arithmetic"), Some(LoginCodeType::Arithmetic));
    assert_eq!(LoginCodeType::from_tag("gifs"), None);
    assert_eq!(LoginCodeType::from_tag(""), None);
}
