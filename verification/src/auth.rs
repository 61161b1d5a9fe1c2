use vstd::prelude::*;
use crate::config::{JwtConfig, LoginCodeConfig};
use crate::dept::{dept_ids_distinct, dept_map, DeptDto};
use crate::error::AppError;
use crate::jwt::{generate_jwt_token, new_session_id, token_of, JwtUserDTO};
use crate::role::{map_to_granted_authorities, perm_set, view_set, views_distinct, RoleSmallDto};
use crate::scope::{get_dept_ids, resolve_spec, user_dept_id, RoleDeptLink};
use crate::store::KvStore;
use crate::text::{eq_ignore_ascii_case, eq_ignore_case};
use crate::user::SysUserDTO;

verus! {

/// A login request: the username, the encrypted password as it came
/// over the wire, the captcha handle, and the captcha answer.
#[derive(Debug)]
pub struct AuthUserDTO {
    pub username: String,
    pub password: String,
    pub uuid: String,
    pub code: Option<String>,
}

/// A captcha challenge as returned to the client: whether captchas are
/// on, the rendered image, and the handle under which the answer is
/// cached.
#[derive(Debug)]
pub struct CodeResultVO {
    pub enabled: u8,
    pub img: Option<String>,
    pub uuid: Option<String>,
}

/// A successful login: the full token (scheme prefix included) and the
/// resolved identity.
#[derive(Debug)]
pub struct LoginRespVo {
    pub token: String,
    pub user: JwtUserDTO,
}

/// Whether the stored password hash matches the presented plaintext.
/// The outcome is a pure function of the two strings.
pub uninterp spec fn password_matches(plain: Seq<char>, hashed: Seq<char>) -> bool;

/// Relies on bcrypt::verify: the hash embeds its own salt and cost, so
/// the outcome depends on the password and the stored hash alone. A
/// malformed hash verifies nothing.
#[verifier::external_body]
fn verify_password(db_pass: &str, input_pass: &str) -> (r: bool)
    ensures
        r == password_matches(input_pass@, db_pass@),
{
    bcrypt::verify(input_pass, db_pass).unwrap_or(false)
}

/// What a login attempt with these repository rows must return and
/// leave behind. With a live, matching captcha (or captchas off) and
/// correct credentials on an enabled account whose scopes resolve,
/// login succeeds outright: token issuing has no failure path.
pub open spec fn login_post(
    jwt_cfg: JwtConfig,
    captcha_enabled: bool,
    cap_old: Map<Seq<char>, (String, i64)>,
    cap_new: Map<Seq<char>, (String, i64)>,
    on_old: Map<Seq<char>, (SysUserDTO, i64)>,
    on_new: Map<Seq<char>, (SysUserDTO, i64)>,
    payload: AuthUserDTO,
    password: Seq<char>,
    user_row: Option<SysUserDTO>,
    menu_permissions: Seq<Option<String>>,
    roles: Seq<RoleSmallDto>,
    links: Seq<RoleDeptLink>,
    dm: Map<i64, (Option<i64>, bool)>,
    session_id: Seq<char>,
    now: i64,
    r: Result<LoginRespVo, AppError>,
) -> bool {
    let unchanged = cap_new == cap_old && on_new == on_old;
    let cap_live = cap_old.contains_key(payload.uuid@) && cap_old[payload.uuid@].1 > now;
    let cap_match = match payload.code {
        Some(c) => eq_ignore_case(cap_old[payload.uuid@].0@, c@),
        None => false,
    };
    if captcha_enabled && !cap_live {
        &&& r matches Err(e) && (e matches AppError::BadRequest(m) && m@
            == "captcha absent or expired"@)
        &&& unchanged
    } else if captcha_enabled && !cap_match {
        &&& r matches Err(e) && (e matches AppError::BadRequest(m) && m@ == "captcha mismatch"@)
        &&& unchanged
    } else {
        match user_row {
            None => (r matches Err(e) && e is UsernameNotFound) && unchanged,
            Some(u) => {
                if !u.enabled {
                    &&& r matches Err(e) && (e matches AppError::BadRequest(m) && m@
                        == "account is not activated"@)
                    &&& unchanged
                } else if resolve_spec(roles, user_dept_id(u), links, dm) is None {
                    &&& r matches Err(e) && (e matches AppError::InternalServerError(m) && m@
                        == "data scope corrupt"@)
                    &&& unchanged
                } else if !password_matches(password, u.password@) {
                    &&& r matches Err(e) && (e matches AppError::BadRequest(m) && m@
                        == "invalid username or password"@)
                    &&& unchanged
                } else {
                    r matches Ok(resp) && {
                        &&& resp.user.user == u
                        &&& (u.is_admin ==> resp.user.roles@.len() == 1 && resp.user.roles@[0]@
                            == "admin"@)
                        &&& (!u.is_admin ==> view_set(resp.user.roles@) == perm_set(
                            menu_permissions,
                        ) && views_distinct(resp.user.roles@))
                        &&& Some(resp.user.data_scopes@.to_set()) == resolve_spec(
                            roles,
                            user_dept_id(u),
                            links,
                            dm,
                        )
                        &&& resp.user.data_scopes@.no_duplicates()
                        &&& resp.token@ == jwt_cfg.token_start_with@ + " "@ + token_of(
                            session_id,
                            u.username@,
                            now + jwt_cfg.token_validity_in_seconds,
                            jwt_cfg.base64_secret@,
                        )
                        &&& on_new == on_old.insert(
                            jwt_cfg.online_key@ + session_id,
                            (u, (now + jwt_cfg.token_validity_in_seconds) as i64),
                        )
                        &&& cap_new == cap_old.remove(payload.uuid@)
                    }
                }
            },
        }
    }
}

/// Checks the presented credentials against the user row and builds
/// the identity: granted permissions and the resolved data scope.
/// Fails exactly for a missing user, a disabled account, a corrupt
/// data-scope tag, or a wrong password, in that order.
pub fn username_password_authentication(
    user_row: Option<SysUserDTO>,
    password: &str,
    menu_permissions: &Vec<Option<String>>,
    roles: &Vec<RoleSmallDto>,
    links: &Vec<RoleDeptLink>,
    depts: &Vec<DeptDto>,
) -> (r: Result<JwtUserDTO, AppError>)
    requires
        dept_ids_distinct(depts@),
    ensures
        match user_row {
            None => r matches Err(e) && e is UsernameNotFound,
            Some(u) => {
                if !u.enabled {
                    r matches Err(e) && (e matches AppError::BadRequest(m) && m@
                        == "account is not activated"@)
                } else if resolve_spec(roles@, user_dept_id(u), links@, dept_map(depts@)) is None {
                    r matches Err(e) && (e matches AppError::InternalServerError(m) && m@
                        == "data scope corrupt"@)
                } else if !password_matches(password@, u.password@) {
                    r matches Err(e) && (e matches AppError::BadRequest(m) && m@
                        == "invalid username or password"@)
                } else {
                    &&& r matches Ok(j)
                    &&& j.user == u
                    &&& (u.is_admin ==> j.roles@.len() == 1 && j.roles@[0]@ == "admin"@)
                    &&& (!u.is_admin ==> view_set(j.roles@) == perm_set(menu_permissions@)
                        && views_distinct(j.roles@))
                    &&& Some(j.data_scopes@.to_set()) == resolve_spec(
                        roles@,
                        user_dept_id(u),
                        links@,
                        dept_map(depts@),
                    )
                    &&& j.data_scopes@.no_duplicates()
                }
            },
        },
{
    let user = match user_row {
        None => {
            return Err(AppError::UsernameNotFound);
        },
        Some(u) => u,
    };
    if !user.enabled {
        return Err(AppError::BadRequest(String::from_str("account is not activated")));
    }
    let data_scopes = match get_dept_ids(&user, roles, links, depts) {
        Ok(v) => v,
        Err(e) => {
            return Err(e);
        },
    };
    let granted = map_to_granted_authorities(&user, menu_permissions);
    if !verify_password(user.password.as_str(), password) {
        return Err(AppError::BadRequest(String::from_str("invalid username or password")));
    }
    Ok(JwtUserDTO { user, roles: granted, data_scopes })
}

/// The login flow with the session id supplied by the caller: captcha
/// check when enabled, credential check, token issue, and one write
/// caching the identity under the new session for exactly the
/// configured validity window; the consumed captcha entry is removed.
pub fn login(
    jwt_cfg: &JwtConfig,
    captcha_enabled: bool,
    captcha_store: &mut KvStore<String>,
    online_store: &mut KvStore<SysUserDTO>,
    payload: &AuthUserDTO,
    password: &str,
    user_row: Option<SysUserDTO>,
    menu_permissions: &Vec<Option<String>>,
    roles: &Vec<RoleSmallDto>,
    links: &Vec<RoleDeptLink>,
    depts: &Vec<DeptDto>,
    session_id: String,
    now: i64,
) -> (r: Result<LoginRespVo, AppError>)
    requires
        old(captcha_store).wf(),
        old(online_store).wf(),
        dept_ids_distinct(depts@),
        0 <= now,
        0 <= jwt_cfg.token_validity_in_seconds,
        now + jwt_cfg.token_validity_in_seconds <= i64::MAX,
    ensures
        final(captcha_store).wf(),
        final(online_store).wf(),
        login_post(
            *jwt_cfg,
            captcha_enabled,
            old(captcha_store)@,
            final(captcha_store)@,
            old(online_store)@,
            final(online_store)@,
            *payload,
            password@,
            user_row,
            menu_permissions@,
            roles@,
            links@,
            dept_map(depts@),
            session_id@,
            now,
            r,
        ),
{
    if captcha_enabled {
        match captcha_store.get_live(&payload.uuid, now) {
            Some(stored) => {
                let ok = match &payload.code {
                    Some(c) => eq_ignore_ascii_case(stored.as_str(), c.as_str()),
                    None => false,
                };
                if !ok {
                    return Err(AppError::BadRequest(String::from_str("captcha mismatch")));
                }
            },
            None => {
                return Err(AppError::BadRequest(String::from_str("captcha absent or expired")));
            },
        }
    }
    let jwt_user = match username_password_authentication(
        user_row,
        password,
        menu_permissions,
        roles,
        links,
        depts,
    ) {
        Ok(j) => j,
        Err(e) => {
            return Err(e);
        },
    };
    let token_body = match generate_jwt_token(jwt_cfg, &jwt_user, &session_id, now) {
        Ok(t) => t,
        Err(e) => {
            return Err(e);
        },
    };
    let mut token = jwt_cfg.token_start_with.clone();
    token.append(" ");
    token.append(token_body.as_str());
    let mut cache_key = jwt_cfg.online_key.clone();
    cache_key.append(session_id.as_str());
    online_store.set_with_expiry(
        cache_key,
        jwt_user.user.clone(),
        now + jwt_cfg.token_validity_in_seconds,
    );
    captcha_store.delete(&payload.uuid);
    Ok(LoginRespVo { token, user: jwt_user })
}

/// The login flow as the HTTP layer calls it: a fresh opaque session
/// id is drawn and the attempt proceeds as [`login`] with it.
pub fn login_fresh(
    jwt_cfg: &JwtConfig,
    captcha_enabled: bool,
    captcha_store: &mut KvStore<String>,
    online_store: &mut KvStore<SysUserDTO>,
    payload: &AuthUserDTO,
    password: &str,
    user_row: Option<SysUserDTO>,
    menu_permissions: &Vec<Option<String>>,
    roles: &Vec<RoleSmallDto>,
    links: &Vec<RoleDeptLink>,
    depts: &Vec<DeptDto>,
    now: i64,
) -> (r: Result<LoginRespVo, AppError>)
    requires
        old(captcha_store).wf(),
        old(online_store).wf(),
        dept_ids_distinct(depts@),
        0 <= now,
        0 <= jwt_cfg.token_validity_in_seconds,
        now + jwt_cfg.token_validity_in_seconds <= i64::MAX,
    ensures
        final(captcha_store).wf(),
        final(online_store).wf(),
        exists|session_id: Seq<char>|
            login_post(
                *jwt_cfg,
                captcha_enabled,
                old(captcha_store)@,
                final(captcha_store)@,
                old(online_store)@,
                final(online_store)@,
                *payload,
                password@,
                user_row,
                menu_permissions@,
                roles@,
                links@,
                dept_map(depts@),
                session_id,
                now,
                r,
            ),
{
    let session_id = new_session_id();
    let ghost sid = session_id@;
    let r = login(
        jwt_cfg,
        captcha_enabled,
        captcha_store,
        online_store,
        payload,
        password,
        user_row,
        menu_permissions,
        roles,
        links,
        depts,
        session_id,
        now,
    );
    proof {
        assert(login_post(
            *jwt_cfg,
            captcha_enabled,
            old(captcha_store)@,
            captcha_store@,
            old(online_store)@,
            online_store@,
            *payload,
            password@,
            user_row,
            menu_permissions@,
            roles@,
            links@,
            dept_map(depts@),
            sid,
            now,
            r,
        ));
    }
    r
}

/// Caches a freshly rendered captcha answer: the key is the configured
/// code-key prefix followed by the fresh handle, and the entry lives
/// for the configured number of minutes.
pub fn store_captcha(
    captcha_store: &mut KvStore<String>,
    jwt_cfg: &JwtConfig,
    login_code: &LoginCodeConfig,
    text: String,
    fresh_id: &str,
    now: i64,
) -> (key: String)
    requires
        old(captcha_store).wf(),
        0 <= now,
        0 <= login_code.expiration,
        now + 60 * login_code.expiration <= i64::MAX,
    ensures
        final(captcha_store).wf(),
        key@ == jwt_cfg.code_key@ + fresh_id@,
        final(captcha_store)@ == old(captcha_store)@.insert(
            key@,
            (text, (now + 60 * login_code.expiration) as i64),
        ),
{
    let mut key = jwt_cfg.code_key.clone();
    key.append(fresh_id);
    let expiration = login_code.expiration * 60;
    let stored_key = key.clone();
    captcha_store.set_with_expiry(stored_key, text, now + expiration);
    key
}

} // verus!
