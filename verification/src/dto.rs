//! Request and response shapes of the API surface, with the verified
//! request validation rules: a well-formed email, a password of at least
//! eight characters, a nonempty name.

use crate::api_error::ApiError;
use crate::user::User;
use vstd::prelude::*;
use vstd::string::StrSliceExecFns;

verus! {

#[derive(Debug)]
pub struct RegisterRequest {
    pub email: String,
    pub password: String,
    pub name: String,
}

#[derive(Debug)]
pub struct LoginRequest {
    pub email: String,
    pub password: String,
}

#[derive(Debug)]
pub struct AuthResponse {
    pub success: bool,
    pub data: AuthData,
}

#[derive(Debug)]
pub struct AuthData {
    pub token: String,
    pub token_type: String,
    pub expires_in: i64,
}

#[derive(Debug)]
pub struct UserResponse {
    pub success: bool,
    pub data: UserData,
}

#[derive(Debug)]
pub struct UserData {
    pub id: u128,
    pub email: String,
    pub name: String,
    pub created_at: i64,
}

#[derive(Debug)]
pub struct HealthResponse {
    pub status: String,
    pub version: String,
    pub database: String,
}

/// Whether a text is admissible as an email address, by the HTML5 rule:
/// the outcome of validator's `validate_email`, a fixed function of the
/// text.
pub uninterp spec fn email_accepted(s: Seq<char>) -> bool;

/// Relies on validator's `ValidateEmail` for `&str`: the HTML5
/// valid-email check.
#[verifier::external_body]
fn is_valid_email(email: &str) -> (r: bool)
    ensures
        r == email_accepted(email@),
{
    validator::ValidateEmail::validate_email(&email)
}

impl RegisterRequest {
    /// A registration request is valid when the email is admissible, the
    /// password has at least eight characters and the name is nonempty.
    pub open spec fn spec_valid(&self) -> bool {
        email_accepted(self.email@) && self.password@.len() >= 8 && self.name@.len() >= 1
    }

    /// Validate the request; the error is a 400 with the validation code.
    pub fn validate(&self) -> (r: Result<(), ApiError>)
        ensures
            r is Ok <==> self.spec_valid(),
            (r matches Err(e) ==> e@.status == 400 && e@.code == Some("VALIDATION_ERROR"@)),
    {
        let ok = is_valid_email(self.email.as_str()) && self.password.as_str().unicode_len() >= 8
            && self.name.as_str().unicode_len() >= 1;
        if ok {
            Ok(())
        } else {
            Err(
                ApiError::bad_request("Validation failed".to_owned()).with_code(
                    "VALIDATION_ERROR".to_owned(),
                ),
            )
        }
    }
}

impl LoginRequest {
    /// A login request is valid when the email is admissible.
    pub open spec fn spec_valid(&self) -> bool {
        email_accepted(self.email@)
    }

    /// Validate the request; the error is a 400 with the validation code.
    pub fn validate(&self) -> (r: Result<(), ApiError>)
        ensures
            r is Ok <==> self.spec_valid(),
            (r matches Err(e) ==> e@.status == 400 && e@.code == Some("VALIDATION_ERROR"@)),
    {
        if is_valid_email(self.email.as_str()) {
            Ok(())
        } else {
            Err(
                ApiError::bad_request("Validation failed".to_owned()).with_code(
                    "VALIDATION_ERROR".to_owned(),
                ),
            )
        }
    }
}

impl AuthResponse {
    /// The successful authentication response: the bearer token and the
    /// lifetime in seconds.
    pub fn for_token(token: String, expiration_hours: i64) -> (r: AuthResponse)
        requires
            1 <= expiration_hours,
            expiration_hours * 3600 <= i64::MAX,
        ensures
            r.success == true,
            r.data.token@ == token@,
            r.data.token_type@ == "Bearer"@,
            r.data.expires_in == expiration_hours * 3600,
    {
        AuthResponse {
            success: true,
            data: AuthData {
                token,
                token_type: "Bearer".to_owned(),
                expires_in: expiration_hours * 3600,
            },
        }
    }
}

impl UserData {
    /// The public shape of a user row: everything but the digest and the
    /// flags.
    pub fn from_user(user: User) -> (r: UserData)
        ensures
            r.id == user@.id,
            r.email@ == user@.email,
            r.name@ == user@.name,
            r.created_at == user@.created_at,
    {
        UserData { id: user.id, email: user.email, name: user.name, created_at: user.created_at }
    }
}

impl UserResponse {
    /// The successful user-detail response.
    pub fn for_user(user: User) -> (r: UserResponse)
        ensures
            r.success == true,
            r.data.id == user@.id,
            r.data.email@ == user@.email,
            r.data.name@ == user@.name,
            r.data.created_at == user@.created_at,
    {
        UserResponse { success: true, data: UserData::from_user(user) }
    }
}

impl HealthResponse {
    /// The health report: always healthy when we can answer at all; the
    /// database section says whether the store responded.
    pub fn report(version: String, db_connected: bool) -> (r: HealthResponse)
        ensures
            r.status@ == "healthy"@,
            r.version@ == version@,
            r.database@ == (if db_connected {
                "connected"@
            } else {
                "disconnected"@
            }),
    {
        HealthResponse {
            status: "healthy".to_owned(),
            version,
            database: if db_connected {
                "connected".to_owned()
            } else {
                "disconnected".to_owned()
            },
        }
    }
}

} // verus!
