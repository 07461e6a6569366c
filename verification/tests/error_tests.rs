use auth_core::api_error::ApiError;
use auth_core::dto::{AuthResponse, HealthResponse, LoginRequest, RegisterRequest, UserData};
use auth_core::errors::DomainError;
use auth_core::store::StoreError;
use auth_core::user::User;

#[test]
fn test_domain_errors_map_to_exact_api_errors() {
    let e = ApiError::from_domain(DomainError::UserNotFound);
    assert_eq!((e.status, e.message.as_str()), (404, "User not found"));
    assert_eq!(e.error_code.as_deref(), Some("USER_NOT_FOUND"));

    let e = ApiError::from_domain(DomainError::UserAlreadyExists);
    assert_eq!((e.status, e.message.as_str()), (409, "User already exists with this email"));
    assert_eq!(e.error_code.as_deref(), Some("USER_ALREADY_EXISTS"));

    let e = ApiError::from_domain(DomainError::InvalidCredentials);
    assert_eq!((e.status, e.message.as_str()), (401, "Invalid email or password"));
    assert_eq!(e.error_code.as_deref(), Some("INVALID_CREDENTIALS"));

    let e = ApiError::from_domain(DomainError::PasswordHashingFailed);
    assert_eq!((e.status, e.message.as_str()), (500, "An error occurred during registration"));
    assert_eq!(e.error_code, None);

    let e = ApiError::from_domain(DomainError::TokenGenerationFailed);
    assert_eq!((e.status, e.message.as_str()), (500, "An error occurred during authentication"));
    assert_eq!(e.error_code, None);

    let e = ApiError::from_domain(DomainError::DatabaseError(StoreError::Failure));
    assert_eq!((e.status, e.message.as_str()), (500, "A database error occurred"));
    assert_eq!(e.error_code, None);
}

#[test]
fn test_internal_errors_share_a_generic_surface() {
    let hashing = ApiError::from_domain(DomainError::PasswordHashingFailed);
    let database = ApiError::from_domain(DomainError::DatabaseError(StoreError::Failure));
    assert_eq!(hashing.status, database.status);
    assert_eq!(hashing.error_code, database.error_code);
}

#[test]
fn test_error_response_body_shape() {
    let body = ApiError::conflict("taken".to_string())
        .with_code("USER_ALREADY_EXISTS".to_string())
        .response_body();
    assert!(!body.success);
    assert_eq!(body.error.message, "taken");
    assert_eq!(body.error.code.as_deref(), Some("USER_ALREADY_EXISTS"));
}

#[test]
fn test_api_error_constructors() {
    assert_eq!(ApiError::bad_request("m".to_string()).status, 400);
    assert_eq!(ApiError::unauthorized("m".to_string()).status, 401);
    assert_eq!(ApiError::forbidden("m".to_string()).status, 403);
    assert_eq!(ApiError::not_found("m".to_string()).status, 404);
    assert_eq!(ApiError::conflict("m".to_string()).status, 409);
    assert_eq!(ApiError::internal("m".to_string()).status, 500);
    assert_eq!(ApiError::unprocessable("m".to_string()).status, 422);
}

#[test]
fn test_register_request_validation() {
    let good = RegisterRequest {
        email: "user@example.com".to_string(),
        password: "password123".to_string(),
        name: "John Doe".to_string(),
    };
    assert!(good.validate().is_ok());

    let bad_email = RegisterRequest { email: "not-an-email".to_string(), ..request_like(&good) };
    let e = bad_email.validate().unwrap_err();
    assert_eq!(e.status, 400);
    assert_eq!(e.error_code.as_deref(), Some("VALIDATION_ERROR"));

    let short_pw = RegisterRequest { password: "short".to_string(), ..request_like(&good) };
    assert!(short_pw.validate().is_err());

    let no_name = RegisterRequest { name: "".to_string(), ..request_like(&good) };
    assert!(no_name.validate().is_err());
}

fn request_like(r: &RegisterRequest) -> RegisterRequest {
    RegisterRequest {
        email: r.email.clone(),
        password: r.password.clone(),
        name: r.name.clone(),
    }
}

#[test]
fn test_login_request_validation() {
    let good = LoginRequest {
        email: "user@example.com".to_string(),
        password: "anything".to_string(),
    };
    assert!(good.validate().is_ok());
    let bad = LoginRequest { email: "nope".to_string(), password: "anything".to_string() };
    assert!(bad.validate().is_err());
}

#[test]
fn test_auth_response_shape() {
    let r = AuthResponse::for_token("tok".to_string(), 24);
    assert!(r.success);
    assert_eq!(r.data.token, "tok");
    assert_eq!(r.data.token_type, "Bearer");
    assert_eq!(r.data.expires_in, 24 * 3600);
}

#[test]
fn test_user_data_shape() {
    let u = User::new("a@b.com".to_string(), "digest".to_string(), "Ann".to_string(), 7);
    let id = u.id;
    let d = UserData::from_user(u);
    assert_eq!(d.id, id);
    assert_eq!(d.email, "a@b.com");
    assert_eq!(d.name, "Ann");
    assert_eq!(d.created_at, 7);
}

#[test]
fn test_health_response_shape() {
    let h = HealthResponse::report("0.1.0".to_string(), true);
    assert_eq!((h.status.as_str(), h.version.as_str(), h.database.as_str()), ("healthy", "0.1.0", "connected"));
    let h = HealthResponse::report("0.1.0".to_string(), false);
    assert_eq!(h.database, "disconnected");
}

#[test]
fn test_domain_error_messages() {
    assert_eq!(DomainError::InvalidCredentials.message(), "Invalid credentials");
    assert_eq!(DomainError::UserNotFound.message(), "User not found");
    assert_eq!(DomainError::UserAlreadyExists.message(), "User already exists with this email");
}
