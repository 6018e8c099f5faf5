//! Port input and output, as requests that the caller carries out.

use vstd::prelude::*;

verus! {

/// One step of a conversation with a device.
#[derive(Debug, Clone, Copy, PartialEq, Eq, Structural)]
pub enum PortCommand {
    /// Write `value` to the port at `port`.
    Write { port: u16, value: u8 },
    /// Give the device time to take in the last write.
    Wait,
}

} // verus!
