//! Helpers around the operating system's names for a device.

pub mod device_parse;
