//! Refresh tokens: single-use credentials that are revoked when consumed.
use vstd::prelude::*;

use crate::calendar::DateTime;

verus! {

pub struct RefreshToken {
    pub id: i32,
    pub user_id: i32,
    pub token: String,
    pub expires_at: DateTime,
    pub revoked_at: Option<DateTime>,
    pub created_at: DateTime,
}

} // verus!
