//! The two message vocabularies: commands to the port supervisor and
//! notifications to the event relay.

use vstd::prelude::*;

verus! {

/// A request to the port supervisor, consumed once, in arrival order.
#[derive(Debug, Clone, PartialEq, Eq)]
pub enum Command {
    /// Open the named port at the given baud rate, replacing any open one.
    Open(String, u32),
    /// Write these bytes to the open port.
    Send(Vec<u8>),
    /// Close the open port, if any.
    Close,
}

/// A report to the event relay, consumed once, in arrival order.
#[derive(Debug, Clone, PartialEq, Eq)]
pub enum Notification {
    /// Bytes read from the device, never empty.
    DataReceived(Vec<u8>),
    /// This many bytes were written to the device.
    SendCompleted(usize),
    /// The device failed while being read; its reader has stopped.
    DeviceDisconnected,
}

/// What went wrong with the device, as the serial layer classifies it.
#[derive(Debug, Clone, Copy, PartialEq, Eq)]
pub enum PortErrorKind {
    /// The device is not available: missing, removed, or in use elsewhere.
    NoDevice,
    /// A parameter was refused.
    InvalidInput,
    /// An input/output fault.
    Io,
    /// Anything else.
    Unknown,
}

} // verus!
