use vstd::prelude::*;

verus! {

/// Error taxonomy of the core: user-facing request errors, the two
/// middleware rejections, and wrapped infrastructure failures.
#[derive(Debug)]
pub enum AppError {
    /// A business-rule violation in the request (bad captcha, bad
    /// credentials, disabled account), with a human-readable reason.
    BadRequest(String),
    /// An infrastructure or data-integrity failure, with detail.
    InternalServerError(String),
    /// Missing, expired or unknown session.
    Unauthorized,
    /// Structurally invalid token, distinct from mere expiry.
    Forbidden,
    /// Login-only: no account with the given username.
    UsernameNotFound,
}

impl AppError {
    /// Human-readable description of the error.
    pub fn message(&self) -> (r: String)
        ensures
            match self {
                AppError::BadRequest(m) => r@ == "Bad request: "@ + m@,
                AppError::InternalServerError(m) => r@ == "Internal server error: "@ + m@,
                AppError::Unauthorized => r@ == "Unauthorized"@,
                AppError::Forbidden => r@ == "Forbidden"@,
                AppError::UsernameNotFound => r@ == "Username not found"@,
            },
    {
        match self {
            AppError::BadRequest(m) => String::from_str("Bad request: ").concat(m.as_str()),
            AppError::InternalServerError(m) => {
                String::from_str("Internal server error: ").concat(m.as_str())
            },
            AppError::Unauthorized => String::from_str("Unauthorized"),
            AppError::Forbidden => String::from_str("Forbidden"),
            AppError::UsernameNotFound => String::from_str("Username not found"),
        }
    }
}

} // verus!
