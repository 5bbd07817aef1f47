use vstd::prelude::*;

verus! {

/// Ways in which parsing or building a packet can fail.
#[derive(Clone, Copy, Debug, PartialEq, Eq, Structural)]
pub enum Error {
    /// The buffer is shorter than the header, or than the length the header declares.
    SmallBuffer,
    /// The bytes do not hold a packet of the expected protocol.
    InvalidPacket,
    /// A one-shot builder step was taken twice.
    AlreadyDefined,
    /// A fixed-size buffer cannot grow to the requested size.
    OutOfCapacity,
    /// A deferred patch points outside the finished buffer.
    InvalidOffset,
}

} // verus!
