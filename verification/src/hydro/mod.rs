pub mod gpio;
pub mod garden;
pub mod weather;
pub mod schedule;
pub mod pool_pump;
pub mod debounce;
pub mod sensor;
pub mod signal;
pub mod heater;
pub mod control;
