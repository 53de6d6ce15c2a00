//! The uniform error type surfaced by every protocol operation.

use vstd::prelude::*;

use crate::messages::Status;

verus! {

/// The kind of an I2C-level failure reported by the device, mirroring the
/// standard embedded I2C error taxonomy (the embedding application maps
/// these onto its own I2C error type).
#[derive(Debug, Clone, Copy, PartialEq, Eq, Structural)]
pub enum I2cErrorKind {
    /// Bus error (or a failure the protocol does not disambiguate further).
    Bus,
    /// The device could not hold the requested amount of data.
    Overrun,
    /// The target did not acknowledge an address or data byte.
    NoAcknowledge,
    /// Any other failure.
    Other,
}

/// Every failure a protocol operation can surface. Failures propagate to
/// the immediate caller; no retry or recovery is attempted by this crate.
#[derive(Debug, Clone, Copy, PartialEq, Eq, Structural)]
pub enum Error {
    /// The request cannot be represented on the wire (for example a channel
    /// number outside `0 .. CHANNELS_COUNT - 1`).
    EncodeError,
    /// An incoming frame was malformed beyond recovery.
    DecoderError,
    /// The serial link failed; raised by the embedding application.
    IoError,
    /// The stream closed before a frame was produced.
    UnexpectedEndOfStream,
    /// No response arrived within the configured time budget.
    Timeout,
    /// The device answered with a non-Ok global status, or with a response
    /// whose shape violates the protocol.
    Protocol(Status),
    /// The device reported an I2C-level failure.
    I2C(I2cErrorKind),
}

impl Error {
    /// The I2C error kind this error corresponds to, `Other` for every
    /// non-I2C failure.
    pub fn kind(&self) -> (r: I2cErrorKind)
        ensures
            r == (match *self {
                Error::I2C(k) => k,
                _ => I2cErrorKind::Other,
            }),
    {
        if let Error::I2C(k) = self {
            *k
        } else {
            I2cErrorKind::Other
        }
    }
}

} // verus!
