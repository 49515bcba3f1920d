//! Events in a user's history: signups, logins, password resets.
use vstd::prelude::*;

use crate::calendar::DateTime;

verus! {

pub struct UserEvent {
    pub id: i32,
    pub user_id: i32,
    pub event_type: String,
    pub ip_address: String,
    pub created_at: DateTime,
}

#[derive(Clone, Copy, Debug, PartialEq, Eq, Structural)]
pub enum EventType {
    FailedLogin,
    Login,
    Logout,
    PasswordReset,
    Signup,
}

pub open spec fn event_type_text(e: EventType) -> Seq<char> {
    match e {
        EventType::FailedLogin => "failed_login"@,
        EventType::Login => "login"@,
        EventType::Logout => "logout"@,
        EventType::PasswordReset => "password_reset"@,
        EventType::Signup => "signup"@,
    }
}

impl EventType {
    /// The stored text of this event type.
    pub fn as_str(&self) -> (s: &'static str)
        ensures
            s@ == event_type_text(*self),
    {
        match self {
            EventType::FailedLogin => "failed_login",
            EventType::Login => "login",
            EventType::Logout => "logout",
            EventType::PasswordReset => "password_reset",
            EventType::Signup => "signup",
        }
    }
}

} // verus!
