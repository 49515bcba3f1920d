pub mod control;
pub mod debounce;
pub mod schedule;
pub mod sensor;
