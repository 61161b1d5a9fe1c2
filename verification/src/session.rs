use vstd::prelude::*;
use crate::config::JwtConfig;
use crate::error::AppError;
use crate::jwt::JwtClaims;
use crate::store::KvStore;
use crate::user::SysUserDTO;

verus! {

/// Outcome of decoding and checking the request's token, before the
/// session cache is consulted.
pub enum TokenState {
    /// The token decoded and its signature checked; the claims are
    /// carried along.
    Authorized(JwtClaims),
    /// The token is missing or expired.
    Unauthorized,
    /// The token is structurally invalid, distinct from mere expiry.
    Forbidden,
}

/// The per-request session gate: a decoded token is authorized
/// exactly when its session-cache entry exists with time still left;
/// a session about to run out (remaining time within the `detect`
/// look-ahead) is renewed to exactly the `renew` window.
pub fn check_token(
    store: &mut KvStore<SysUserDTO>,
    cfg: &JwtConfig,
    token: TokenState,
    now: i64,
) -> (r: Result<SysUserDTO, AppError>)
    requires
        old(store).wf(),
        0 <= now,
        1 <= cfg.renew,
        0 <= cfg.detect,
        now + cfg.renew <= i64::MAX,
    ensures
        final(store).wf(),
        (r is Ok) <==> (token matches TokenState::Authorized(c) && old(store)@.contains_key(
            cfg.online_key@ + c.uuid@,
        ) && old(store)@[cfg.online_key@ + c.uuid@].1 > now),
        match token {
            TokenState::Forbidden => r matches Err(e) && e is Forbidden && final(store)@ == old(
                store,
            )@,
            TokenState::Unauthorized => r matches Err(e) && e is Unauthorized && final(store)@
                == old(store)@,
            TokenState::Authorized(c) => ({
                let key = cfg.online_key@ + c.uuid@;
                if old(store)@.contains_key(key) && old(store)@[key].1 > now {
                    &&& r matches Ok(u) && u == old(store)@[key].0
                    &&& (old(store)@[key].1 - now <= cfg.detect ==> final(store)@ == old(
                        store,
                    )@.insert(key, (old(store)@[key].0, (now + cfg.renew) as i64)))
                    &&& (old(store)@[key].1 - now > cfg.detect ==> final(store)@ == old(store)@)
                } else {
                    r matches Err(e) && e is Unauthorized && final(store)@ == old(store)@
                }
            }),
        },
{
    match token {
        TokenState::Forbidden => Err(AppError::Forbidden),
        TokenState::Unauthorized => Err(AppError::Unauthorized),
        TokenState::Authorized(claims) => {
            let mut key = cfg.online_key.clone();
            key.append(claims.uuid.as_str());
            match store.expiry_of(&key) {
                None => Err(AppError::Unauthorized),
                Some(expires_at) => {
                    if expires_at <= now {
                        return Err(AppError::Unauthorized);
                    }
                    let remaining = expires_at - now;
                    if remaining <= cfg.detect {
                        store.expire_at(&key, now + cfg.renew);
                    }
                    match store.get_live(&key, now) {
                        Some(user) => Ok(user.clone()),
                        None => Err(AppError::Unauthorized),
                    }
                },
            }
        },
    }
}

/// Ends a session: the cache entry under the session id is removed.
/// Logging out a session that does not exist changes nothing and is
/// not an error.
pub fn logout(store: &mut KvStore<SysUserDTO>, cfg: &JwtConfig, session_id: &String)
    requires
        old(store).wf(),
    ensures
        final(store).wf(),
        final(store)@ == old(store)@.remove(cfg.online_key@ + session_id@),
{
    let mut key = cfg.online_key.clone();
    key.append(session_id.as_str());
    store.delete(&key);
}

} // verus!
