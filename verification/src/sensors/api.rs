//! Producers that read a cloud service.

pub mod netatmo;
