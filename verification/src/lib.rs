//! Driver core for a wireless radio module speaking a binary API-frame
//! protocol over a byte link: byte-level framing with a checksum, a typed
//! codec for the frame payloads, and a bounded-queue duplex transport.

use vstd::prelude::*;

pub mod api_frame;
pub mod queues;
pub mod transport;

pub use transport::{XBeeApiSpi, XBeeLink};

verus! {

/// Short address that every module on the network listens to.
pub const BROADCAST_ADDR: u16 = 0xFFFF;

/// Short address that reaches the network coordinator.
pub const COORDINATOR_ADDR: u16 = 0xFFFE;

/// Destination or source of a data-transmission frame: the protocol carries
/// either a 16-bit network address or a 64-bit hardware address.
#[derive(Clone, Copy, Debug, PartialEq, Eq, Structural)]
pub enum Addr {
    Short(u16),
    Long(u64),
}

/// Why a buffered frame could not be decoded: the framing layer rejected it,
/// or the payload grammar did.
#[derive(Copy, Clone, Debug, PartialEq)]
pub enum XBeeApiError {
    Unpack(api_frame::ApiUnpackError),
    Parse(()),
}

/// A module in transparent mode, bridged over a byte link plus a delay
/// capability. The core protocol engine does not depend on it; the
/// guard-time command handshake itself is blocking I/O and lives with the
/// hardware layer.
pub struct XBeeTransparent<U, D> {
    pub serial: U,
    pub timer: D,
    pub cmd_char: u8,
    pub guard_time: u16,
}

impl<U, D> XBeeTransparent<U, D> {
    pub fn new(uart: U, delay: D, cmd_char: u8, guard_time: u16) -> (r: XBeeTransparent<U, D>)
        ensures
            r.serial == uart,
            r.timer == delay,
            r.cmd_char == cmd_char,
            r.guard_time == guard_time,
    {
        XBeeTransparent { serial: uart, timer: delay, cmd_char, guard_time }
    }
}

} // verus!
