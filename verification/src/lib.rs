//! Host-side client for a "laser setup" lab device reachable over a serial
//! link. The device speaks a length-delimited, magic-byte-framed binary
//! protocol carrying control commands (valve, channel selection, camera
//! actuator) and tunnelled I2C transactions.
//!
//! This crate holds the protocol logic: the frame codec, the request
//! builders, and the interpretation of device responses. The serial I/O
//! itself (opening the port, writing bytes, awaiting bytes with a timeout)
//! is left to the embedding application, which feeds raw bytes in and out
//! of the verified engine.

use vstd::prelude::*;

pub mod control;
pub mod error;
pub mod frame;
pub mod i2c;
pub mod messages;
pub mod request_codec;
pub mod response_codec;
pub mod session;
pub mod wire;

pub use control::ControlIntents;
pub use control::ControlState;
pub use control::CurrentControlState;
pub use error::Error;
pub use error::I2cErrorKind;
pub use i2c::I2CBus;
pub use i2c::I2cTransactionOp;
pub use messages::CameraState;
pub use session::LaserSetup;
pub use session::ReadEvent;
pub use session::new_request;
pub use messages::I2cResultCode;
pub use messages::Status;
pub use messages::ValveState;

verus! {

/// Number of selectable channels on the device; valid channel numbers are
/// `0 .. CHANNELS_COUNT - 1`.
pub const CHANNELS_COUNT: u32 = 16;

} // verus!
