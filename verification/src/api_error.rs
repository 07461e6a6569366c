//! The unified API error: an HTTP status code, a message, an optional
//! machine-readable code, and the JSON body shape; with the exact mapping
//! from domain errors. Internal failures map to generic messages — no
//! internal detail leaks to the caller.

use crate::errors::DomainError;
use vstd::prelude::*;

verus! {

/// Unified API error type.
#[derive(Debug)]
pub struct ApiError {
    /// The HTTP status code.
    pub status: u16,
    pub message: String,
    pub error_code: Option<String>,
}

/// JSON response body for errors.
#[derive(Debug)]
pub struct ErrorResponse {
    pub success: bool,
    pub error: ErrorBody,
}

#[derive(Debug)]
pub struct ErrorBody {
    pub message: String,
    pub code: Option<String>,
}

/// The mathematical view of an API error.
pub ghost struct ApiErrorView {
    pub status: u16,
    pub message: Seq<char>,
    pub code: Option<Seq<char>>,
}

impl View for ApiError {
    type V = ApiErrorView;

    open spec fn view(&self) -> ApiErrorView {
        ApiErrorView {
            status: self.status,
            message: self.message@,
            code: match self.error_code {
                Some(c) => Some(c@),
                None => None,
            },
        }
    }
}

/// Where each domain error surfaces: status, message, code. The two
/// internal failures share the caller-facing shape of a generic error.
pub open spec fn spec_api_error(e: DomainError) -> ApiErrorView {
    match e {
        DomainError::UserNotFound => ApiErrorView {
            status: 404,
            message: "User not found"@,
            code: Some("USER_NOT_FOUND"@),
        },
        DomainError::UserAlreadyExists => ApiErrorView {
            status: 409,
            message: "User already exists with this email"@,
            code: Some("USER_ALREADY_EXISTS"@),
        },
        DomainError::InvalidCredentials => ApiErrorView {
            status: 401,
            message: "Invalid email or password"@,
            code: Some("INVALID_CREDENTIALS"@),
        },
        DomainError::PasswordHashingFailed => ApiErrorView {
            status: 500,
            message: "An error occurred during registration"@,
            code: None,
        },
        DomainError::TokenGenerationFailed => ApiErrorView {
            status: 500,
            message: "An error occurred during authentication"@,
            code: None,
        },
        DomainError::DatabaseError(_) => ApiErrorView {
            status: 500,
            message: "A database error occurred"@,
            code: None,
        },
    }
}

impl ApiError {
    pub fn new(status: u16, message: String) -> (r: ApiError)
        ensures
            r@.status == status,
            r@.message == message@,
            r@.code is None,
    {
        ApiError { status, message, error_code: None }
    }

    pub fn with_code(self, code: String) -> (r: ApiError)
        ensures
            r@.status == self@.status,
            r@.message == self@.message,
            r@.code == Some(code@),
    {
        ApiError { status: self.status, message: self.message, error_code: Some(code) }
    }

    pub fn bad_request(message: String) -> (r: ApiError)
        ensures
            r@.status == 400,
            r@.message == message@,
            r@.code is None,
    {
        Self::new(400, message)
    }

    pub fn unauthorized(message: String) -> (r: ApiError)
        ensures
            r@.status == 401,
            r@.message == message@,
            r@.code is None,
    {
        Self::new(401, message)
    }

    pub fn forbidden(message: String) -> (r: ApiError)
        ensures
            r@.status == 403,
            r@.message == message@,
            r@.code is None,
    {
        Self::new(403, message)
    }

    pub fn not_found(message: String) -> (r: ApiError)
        ensures
            r@.status == 404,
            r@.message == message@,
            r@.code is None,
    {
        Self::new(404, message)
    }

    pub fn conflict(message: String) -> (r: ApiError)
        ensures
            r@.status == 409,
            r@.message == message@,
            r@.code is None,
    {
        Self::new(409, message)
    }

    pub fn internal(message: String) -> (r: ApiError)
        ensures
            r@.status == 500,
            r@.message == message@,
            r@.code is None,
    {
        Self::new(500, message)
    }

    pub fn unprocessable(message: String) -> (r: ApiError)
        ensures
            r@.status == 422,
            r@.message == message@,
            r@.code is None,
    {
        Self::new(422, message)
    }

    /// The API error each domain error surfaces as.
    pub fn from_domain(e: DomainError) -> (r: ApiError)
        ensures
            r@ == spec_api_error(e),
    {
        match e {
            DomainError::UserNotFound => Self::not_found("User not found".to_owned()).with_code(
                "USER_NOT_FOUND".to_owned(),
            ),
            DomainError::UserAlreadyExists => Self::conflict(
                "User already exists with this email".to_owned(),
            ).with_code("USER_ALREADY_EXISTS".to_owned()),
            DomainError::InvalidCredentials => Self::unauthorized(
                "Invalid email or password".to_owned(),
            ).with_code("INVALID_CREDENTIALS".to_owned()),
            DomainError::PasswordHashingFailed => Self::internal(
                "An error occurred during registration".to_owned(),
            ),
            DomainError::TokenGenerationFailed => Self::internal(
                "An error occurred during authentication".to_owned(),
            ),
            DomainError::DatabaseError(_) => Self::internal("A database error occurred".to_owned()),
        }
    }

    /// The JSON body this error is served as: never a success, the
    /// message and code as they stand.
    pub fn response_body(self) -> (r: ErrorResponse)
        ensures
            r.success == false,
            r.error.message@ == self@.message,
            (match r.error.code {
                Some(c) => self@.code == Some(c@),
                None => self@.code is None,
            }),
    {
        ErrorResponse {
            success: false,
            error: ErrorBody { message: self.message, code: self.error_code },
        }
    }
}

} // verus!
