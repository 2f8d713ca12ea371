//! Home telemetry and control hub: the rules that normalise readings, keep the
//! heater fan's state and turn commands into ordered protocol writes.

pub mod config;
pub mod db;
pub mod msg;
pub mod sensors;
pub mod switches;
pub mod utils;
pub mod webhook;
