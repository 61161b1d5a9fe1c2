use vstd::prelude::*;
use crate::config::JwtConfig;
use crate::error::AppError;
use crate::user::SysUserDTO;

verus! {

/// Claims embedded in an issued token: the opaque session id, the
/// username, and the expiry timestamp. Renewal extends only the
/// session-cache TTL, never this embedded expiry.
#[derive(Debug)]
pub struct JwtClaims {
    pub uuid: String,
    pub username: String,
    pub exp: u64,
}

/// The identity a successful login returns: the cached user record,
/// the granted permissions, and the data-scope department ids.
#[derive(Debug)]
pub struct JwtUserDTO {
    pub user: SysUserDTO,
    pub roles: Vec<String>,
    pub data_scopes: Vec<i64>,
}

#[verifier::external_type_specification]
#[verifier::external_body]
pub struct ExJwtError(jsonwebtoken::errors::Error);

/// The signed token for the given claims and secret. The token is a
/// pure function of its arguments; nothing more is assumed of its
/// text.
pub uninterp spec fn token_of(
    session_id: Seq<char>,
    username: Seq<char>,
    exp: int,
    secret: Seq<char>,
) -> Seq<char>;

/// Relies on jsonwebtoken::encode with the default header: under
/// HMAC-SHA256 the token depends on the serialized claims and the
/// secret alone. The call always succeeds: the default header's
/// algorithm family matches the secret key's, serializing this claim
/// object of two strings and an integer cannot fail, and HMAC signing
/// returns the signature unconditionally.
#[verifier::external_body]
fn jwt_encode(uuid: &str, username: &str, exp: u64, secret: &str) -> (r: Result<
    String,
    jsonwebtoken::errors::Error,
>)
    ensures
        r is Ok,
        r matches Ok(t) ==> t@ == token_of(uuid@, username@, exp as int, secret@),
{
    let mut claims = serde_json::Map::new();
    claims.insert("uuid".to_string(), serde_json::Value::from(uuid));
    claims.insert("username".to_string(), serde_json::Value::from(username));
    claims.insert("exp".to_string(), serde_json::Value::from(exp));
    jsonwebtoken::encode(
        &jsonwebtoken::Header::default(),
        &serde_json::Value::Object(claims),
        &jsonwebtoken::EncodingKey::from_secret(secret.as_bytes()),
    )
}

/// Relies on uuid::Uuid::new_v4 for a fresh opaque session id; the
/// value is random, so nothing is assumed about it.
#[verifier::external_body]
pub(crate) fn new_session_id() -> (r: String) {
    uuid::Uuid::new_v4().to_string()
}

/// Issues the signed token of a session: the claims are the session
/// id, the user's name, and an expiry of `now` plus the configured
/// validity window. Issuing always succeeds.
pub fn generate_jwt_token(
    cfg: &JwtConfig,
    jwt_user: &JwtUserDTO,
    token_id: &String,
    now: i64,
) -> (r: Result<String, AppError>)
    requires
        0 <= now,
        0 <= cfg.token_validity_in_seconds,
        now + cfg.token_validity_in_seconds <= i64::MAX,
    ensures
        r matches Ok(t) && t@ == token_of(
            token_id@,
            jwt_user.user.username@,
            now + cfg.token_validity_in_seconds,
            cfg.base64_secret@,
        ),
{
    let exp = (now + cfg.token_validity_in_seconds) as u64;
    match jwt_encode(
        token_id.as_str(),
        jwt_user.user.username.as_str(),
        exp,
        cfg.base64_secret.as_str(),
    ) {
        Ok(t) => Ok(t),
        Err(_) => Err(AppError::InternalServerError(String::from_str("token encoding failed"))),
    }
}

} // verus!
