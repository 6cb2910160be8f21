//! Logging in and creating users.

use vstd::prelude::*;

verus! {

/// A login attempt.
#[derive(Debug, PartialEq, Eq)]
pub struct LoginDto {
    pub login: String,
    pub password: String,
}

/// A user to create.
#[derive(Debug, PartialEq, Eq)]
pub struct CreateUserDto {
    pub login: String,
    pub password: String,
    pub role: String,
}

/// The outcome of a login attempt: the user where it succeeded, empty
/// texts where it did not.
#[derive(Debug, PartialEq, Eq)]
pub struct LoginResponseDto {
    pub id: String,
    pub login: String,
    pub role: String,
    pub success: bool,
    pub message: String,
}

} // verus!
