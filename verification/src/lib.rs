//! Verified decision logic for a Raspberry Pi appliance controller: a sump
//! pump driven by water level sensors, a pool pump, and rain-aware garden
//! watering schedules.
pub mod calendar;
pub mod text;
pub mod repository;
pub mod hydro;
pub mod clock;
pub mod sump;
pub mod sort;
