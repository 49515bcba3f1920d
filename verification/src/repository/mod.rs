pub mod models;
pub mod implementation;
