use vstd::prelude::*;

verus! {

/// Errors surfaced by any battery backend.
#[derive(Debug, PartialEq, Eq)]
pub enum Error {
    /// The device does not support the requested command.
    Unsupported,
    /// Discovery found no matching device.
    NotFound(String),
    /// A transport / connection failure (BLE, serial, CAN, ...).
    Transport(String),
    /// The device returned data that could not be decoded.
    Decode(String),
    /// A command argument was invalid for this device.
    InvalidArgument(String),
    /// Timed out waiting for the device.
    Timeout,
    /// A backend-specific error passed through verbatim.
    Backend(String),
}

} // verus!
