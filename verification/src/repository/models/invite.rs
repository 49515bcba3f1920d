//! Signup invitations.
use vstd::prelude::*;

use crate::calendar::DateTime;

verus! {

pub struct Invite {
    pub id: i32,
    pub email: String,
    pub token: String,
    pub invited_by_user_id: i32,
    pub expires_at: DateTime,
    pub accepted_at: Option<DateTime>,
    pub accepted_by_user_id: Option<i32>,
    pub created_at: DateTime,
}

impl Invite {
    pub open spec fn spec_is_redeemable(self, now: DateTime) -> bool {
        self.accepted_at is None && now.spec_before(self.expires_at)
    }

    /// An invite is usable only while it is unexpired and unaccepted; expiry
    /// is exclusive, so an invite expiring at `now` is no longer usable.
    /// Callers must also confirm the signup address matches `email`; a token
    /// alone is not sufficient, so that a forwarded link cannot be redeemed by
    /// someone other than the intended recipient.
    pub fn is_redeemable(&self, now: DateTime) -> (r: bool)
        ensures
            r == self.spec_is_redeemable(now),
    {
        self.accepted_at.is_none() && now.before(&self.expires_at)
    }
}

} // verus!
