pub mod schedule;
