use eladmin_rs::config::JwtConfig;
use eladmin_rs::error::AppError;
use eladmin_rs::jwt::JwtClaims;
use eladmin_rs::session::{check_token, logout, TokenState};
use eladmin_rs::store::KvStore;
use eladmin_rs::user::SysUserDTO;

fn test_cfg() -> JwtConfig {
    JwtConfig {
        header: "Authorization".to_string(),
        token_start_with: "Bearer".to_string(),
        base64_secret: "SECRET-REDACTED".to_string(),
        token_validity_in_seconds: 3600,
        online_key: "online-token-".to_string(),
        code_key: "code-key-".to_string(),
        detect: 10,
        renew: 50,
    }
}

fn test_user(name: &str) -> SysUserDTO {
    SysUserDTO {
        user_id: 7,
        dept_id: Some(3),
        dept: None,
        username: name.to_string(),
        password: String::new(),
        nick_name: None,
        gender: None,
        phone: None,
        email: None,
        avatar_name: None,
        avatar_path: None,
        is_admin: false,
        enabled: true,
    }
}

fn claims_for(sid: &str) -> JwtClaims {
    JwtClaims { uuid: sid.to_string(), username: "alice".to_string(), exp: 9_999_999_999 }
}

#[test]
fn check_token_authorized_on_live_entry() {
    let cfg = test_cfg();
    let mut store: KvStore<SysUserDTO> = KvStore::new();
    store.set_with_expiry("online-token-sid1".to_string(), test_user("alice"), 1100);
    let r = check_token(&mut store, &cfg, TokenState::Authorized(claims_for("sid1")), 1000);
    let user = r.expect("live session must be authorized");
    assert_eq!(user.username, "alice");
}

#[test]
fn check_token_rejects_missing_entry() {
    let cfg = test_cfg();
    let mut store: KvStore<SysUserDTO> = KvStore::new();
    let r = check_token(&mut store, &cfg, TokenState::Authorized(claims_for("sid1")), 1000);
    assert!(matches!(r, Err(AppError::Unauthorized)));
}

#[test]
fn check_token_rejects_expired_entry() {
    let cfg = test_cfg();
    let mut store: KvStore<SysUserDTO> = KvStore::new();
    store.set_with_expiry("online-token-sid1".to_string(), test_user("alice"), 1000);
    let r = check_token(&mut store, &cfg, TokenState::Authorized(claims_for("sid1")), 1000);
    assert!(matches!(r, Err(AppError::Unauthorized)));
}

#[test]
fn check_token_maps_decoder_rejections() {
    let cfg = test_cfg();
    let mut store: KvStore<SysUserDTO> = KvStore::new();
    let r = check_token(&mut store, &cfg, TokenState::Unauthorized, 1000);
    assert!(matches!(r, Err(AppError::Unauthorized)));
    let r = check_token(&mut store, &cfg, TokenState::Forbidden, 1000);
    assert!(matches!(r, Err(AppError::Forbidden)));
}

#[test]
fn renewal_fires_exactly_within_detect_window() {
    let cfg = test_cfg();
    let mut store: KvStore<SysUserDTO> = KvStore::new();
    // remaining 10 == detect 10: renewal fires, TTL becomes exactly renew.
    store.set_with_expiry("online-token-sid1".to_string(), test_user("alice"), 1010);
    let r = check_token(&mut store, &cfg, TokenState::Authorized(claims_for("sid1")), 1000);
    assert!(r.is_ok());
    let exp = store.expiry_of(&"online-token-sid1".to_string()).unwrap();
    assert_eq!(exp, 1000 + 50);
}

#[test]
fn renewal_does_not_fire_above_detect_window() {
    let cfg = test_cfg();
    let mut store: KvStore<SysUserDTO> = KvStore::new();
    // remaining 11 > detect 10: the entry stays untouched.
    store.set_with_expiry("online-token-sid1".to_string(), test_user("alice"), 1011);
    let r = check_token(&mut store, &cfg, TokenState::Authorized(claims_for("sid1")), 1000);
    assert!(r.is_ok());
    let exp = store.expiry_of(&"online-token-sid1".to_string()).unwrap();
    assert_eq!(exp, 1011);
}

#[test]
fn logout_removes_the_session() {
    let cfg = test_cfg();
    let mut store: KvStore<SysUserDTO> = KvStore::new();
    store.set_with_expiry("online-token-sid1".to_string(), test_user("alice"), 2000);
    logout(&mut store, &cfg, &"sid1".to_string());
    assert!(store.expiry_of(&"online-token-sid1".to_string()).is_none());
}

#[test]
fn logout_on_nonexistent_session_does_not_error() {
    let cfg = test_cfg();
    let mut store: KvStore<SysUserDTO> = KvStore::new();
    store.set_with_expiry("online-token-other".to_string(), test_user("bob"), 2000);
    logout(&mut store, &cfg, &"missing".to_string());
    assert_eq!(store.expiry_of(&"online-token-other".to_string()), Some(2000));
}

#[test]
fn store_set_overwrites_and_get_live_respects_expiry() {
    let mut store: KvStore<String> = KvStore::new();
    store.set_with_expiry("k".to_string(), "v1".to_string(), 100);
    store.set_with_expiry("k".to_string(), "v2".to_string(), 200);
    assert_eq!(store.get_live(&"k".to_string(), 150), Some(&"v2".to_string()));
    assert_eq!(store.get_live(&"k".to_string(), 200), None);
    assert!(!store.expire_at(&"absent".to_string(), 300));
    assert!(store.expire_at(&"k".to_string(), 300));
    assert_eq!(store.get_live(&"k".to_string(), 250), Some(&"v2".to_string()));
    store.delete(&"k".to_string());
    assert_eq!(store.expiry_of(&"k".to_string()), None);
}
