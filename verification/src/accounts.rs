//! Message shapes of the surrounding account and synthesis endpoints.
//!
//! Account storage, authentication and plan handling are collaborators
//! outside this crate's verified pipeline; these are the plain data shapes
//! exchanged with them, kept here so every wire type of the service lives
//! in one place.  They carry no behaviour.

use vstd::prelude::*;

verus! {

/// A synthesis request over the streaming endpoint, with an optional voice.
#[derive(Debug, Clone)]
pub struct ProTTSMessage {
    pub text: String,
    pub voice: Option<String>,
}

/// A one-shot synthesis request.
#[derive(Debug, Clone)]
pub struct PlusTTS {
    pub text: String,
}

/// A stored account record.
#[derive(Debug, Clone)]
pub struct User {
    pub user_id: String,
    pub user_name: String,
    pub user_email: String,
    pub user_pass: String,
}

/// A request to create an account.
#[derive(Debug, Clone)]
pub struct SignupRequest {
    pub user_name: String,
    pub user_email: String,
    pub user_pass: String,
}

/// A request to sign in.
#[derive(Debug, Clone)]
pub struct SigninRequest {
    pub user_email: String,
    pub user_pass: String,
}

/// A request to change an account's plan.
#[derive(Debug, Clone)]
pub struct PlanRequest {
    pub user_id: String,
    pub plan: i32,
}

/// An account, as reported back to the caller.
#[derive(Debug, Clone)]
pub struct UserResponse {
    pub user_id: String,
    pub user_name: String,
    pub user_email: String,
}

/// The answer to a signup request.
#[derive(Debug, Clone)]
pub struct SignupResponse {
    pub user_id: String,
    pub success: bool,
}

/// A failure report.
#[derive(Debug, Clone)]
pub struct ErrorResponse {
    pub error: String,
}

/// A bare success report.
#[derive(Debug, Clone)]
pub struct SuccessResponse {
    pub success: bool,
}

/// A synthesis request tied to an account.
#[derive(Debug, Clone)]
pub struct TtsRequest {
    pub user_id: String,
    pub text: String,
}

/// The answer to a synthesis request.
#[derive(Debug, Clone)]
pub struct TtsResponse {
    pub success: bool,
    pub message: String,
}

} // verus!
