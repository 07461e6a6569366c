//! Credential-issuance and request-authentication core.
//!
//! The library turns a verified identity into a signed, time-bounded bearer
//! token and turns an incoming token back into a verified identity. It
//! covers password hashing and verification, token issuance and parsing,
//! the request-authentication gate, and the register/login flows over a
//! user-store interface.

pub mod api_error;
pub mod auth_service;
pub mod base64url;
pub mod claims;
pub mod config;
pub mod dto;
pub mod errors;
pub mod gate;
pub mod jwt;
pub mod numeral;
pub mod password;
pub mod store;
pub mod text;
pub mod user;
pub mod user_service;
