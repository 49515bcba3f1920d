//! Users and the filters used to find and change them.
use vstd::prelude::*;

use crate::calendar::DateTime;

verus! {

pub struct User {
    pub id: i32,
    pub email: String,
    pub email_verification_token: Option<String>,
    pub email_verification_token_expires_at: Option<DateTime>,
    pub email_verified_at: Option<DateTime>,
    pub password_hash: String,
    pub password_reset_token: Option<String>,
    pub password_reset_token_expires_at: Option<DateTime>,
    pub created_at: DateTime,
    pub updated_at: DateTime,
}

pub struct UserFilter {
    pub id: Option<i32>,
    pub email: Option<String>,
    pub email_verification_token: Option<String>,
    pub password_hash: Option<String>,
    pub password_reset_token: Option<String>,
}

/// The columns to change on user `id`; `None` leaves a column as it is.
pub struct UserUpdateFilter {
    pub id: i32,
    pub email: Option<String>,
    pub email_verification_token: Option<Option<String>>,
    pub password_hash: Option<String>,
    pub password_reset_token: Option<Option<String>>,
}

} // verus!
