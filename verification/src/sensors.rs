//! Producers of readings.

pub mod api;
pub mod mqtt_heater;
