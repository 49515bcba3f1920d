pub mod garden_event;
pub mod garden_schedule;
pub mod invite;
pub mod refresh_token;
pub mod user;
pub mod irrigation_event;
pub mod irrigation_schedule;
pub mod user_event;
pub mod sump_event;
