//! Manual switches.

pub mod gpio;
