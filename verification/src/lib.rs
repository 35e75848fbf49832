//! Protocol core of the Hinata NFC reader: the PN532 frame codec, the
//! subscription registry and transport decisions of the device worker, the
//! request/acknowledge/response orchestration and the card-list decoder.
//!
//! Everything here is free of hardware I/O: the worker that owns the HID
//! handle feeds these functions with what it read and performs what they
//! return.

pub mod builder;
pub mod card;
pub mod device;
pub mod error;
pub mod message;
pub mod pn532;
pub mod transport;
pub mod utils;
