//! The PN532 chip protocol: opcodes and status codes, the frame codec, the
//! commands built on a port to the chip, and the decoder of card lists.

pub mod codes;
pub mod frame;
pub mod port;
pub mod targets;

pub use self::codes::{FelicaCommand, MifareCommand, Pn532Command, Pn532Direction, Pn532Error};
pub use self::frame::{FrameError, Pn532Packet};
pub use self::targets::{gen_felica_poll_initial_data, parse_in_list_passive_target};
pub use self::port::{Pn532, Pn532Port};
