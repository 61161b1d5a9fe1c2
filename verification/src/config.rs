use vstd::prelude::*;

verus! {

/// Connection settings of the SQL database behind the repositories.
#[derive(Debug, Clone)]
pub struct DatabaseConfig {
    pub url: String,
    pub pool_size: u64,
    pub timeout_seconds: u64,
}

/// Port the HTTP layer listens on.
#[derive(Debug, Clone)]
pub struct WebServerConfig {
    pub port: String,
}

/// Private key used to decrypt the password field of login requests.
#[derive(Debug, Clone)]
pub struct RsaConfig {
    pub private_key: String,
}

/// Connection settings of the session cache.
#[derive(Debug, Clone)]
pub struct RedisConfig {
    pub url: String,
    pub database: u32,
    pub timeout_seconds: u32,
    pub max_size: u32,
}

/// Token issuing and session-renewal policy.
///
/// `token_validity_in_seconds` is both the embedded token validity and
/// the TTL of the session-cache entry written at login: the two are
/// kept in lockstep so the cache neither outlives nor expires before
/// the token. `detect` is the look-ahead threshold under which a
/// session is renewed, and `renew` the length it is renewed to.
#[derive(Debug, Clone)]
pub struct JwtConfig {
    pub header: String,
    pub token_start_with: String,
    pub base64_secret: String,
    pub token_validity_in_seconds: i64,
    pub online_key: String,
    pub code_key: String,
    pub detect: i64,
    pub renew: i64,
}

/// Captcha rendering and validity settings.
#[derive(Debug, Clone)]
pub struct LoginCodeConfig {
    pub enabled: bool,
    pub code_type: LoginCodeType,
    /// Captcha validity, in minutes.
    pub expiration: i64,
    pub height: u32,
    pub width: u32,
    pub length: usize,
    pub font_name: Option<String>,
    pub font_size: u32,
}

/// Which kind of captcha image is rendered.
#[derive(Debug, Clone, Copy, PartialEq, Eq, Structural)]
pub enum LoginCodeType {
    Chinese,
    ChineseGif,
    Gif,
    Spec,
    Arithmetic,
}

impl LoginCodeType {
    /// The captcha kind for a configuration tag; an unknown tag is
    /// rejected, exactly when it is none of the five.
    pub fn from_tag(tag: &str) -> (r: Option<LoginCodeType>)
        ensures
            match r {
                Some(LoginCodeType::Chinese) => tag@ == "chinese"@,
                Some(LoginCodeType::ChineseGif) => tag@ == "chinese_gif"@,
                Some(LoginCodeType::Gif) => tag@ == "gif"@,
                Some(LoginCodeType::Spec) => tag@ == "spec"@,
                Some(LoginCodeType::Arithmetic) => tag@ == "arithmetic"@,
                None => tag@ != "chinese"@ && tag@ != "chinese_gif"@ && tag@ != "gif"@ && tag@
                    != "spec"@ && tag@ != "arithmetic"@,
            },
    {
        let t = String::from_str(tag);
        if t == String::from_str("chinese") {
            Some(LoginCodeType::Chinese)
        } else if t == String::from_str("chinese_gif") {
            Some(LoginCodeType::ChineseGif)
        } else if t == String::from_str("gif") {
            Some(LoginCodeType::Gif)
        } else if t == String::from_str("spec") {
            Some(LoginCodeType::Spec)
        } else if t == String::from_str("arithmetic") {
            Some(LoginCodeType::Arithmetic)
        } else {
            None
        }
    }
}

/// Login-flow settings.
#[derive(Debug, Clone)]
pub struct LoginProperties {
    pub cache_enable: bool,
    pub single: bool,
    pub login_code: LoginCodeConfig,
}

/// The whole configuration, assembled once at process start and handed
/// into each component.
#[derive(Debug, Clone)]
pub struct AppConfig {
    pub database: DatabaseConfig,
    pub webserver: WebServerConfig,
    pub rsa: RsaConfig,
    pub redis: RedisConfig,
    pub login: LoginProperties,
    pub jwt: JwtConfig,
}

} // verus!
