//! Transports: the ways a virtio device is shown to a guest.

use byteorder::{ByteOrder, LittleEndian};
use vmm_sys_util::eventfd::EventFd;
use vstd::prelude::*;

pub mod laws;
pub mod mmio;

verus! {

/// Errors of a transport.
#[derive(Clone, Copy, Debug, PartialEq, Eq, Structural)]
pub enum Error {
    /// The device declares a queue whose maximum size is no power of two
    /// up to 32768.
    QueueMaxSize(u16),
    /// The number of queue events differs from the number of queues the
    /// device declares.
    QueueEventCount,
    /// A ring address of a restored queue is not aligned as its ring
    /// requires.
    QueueAddressSet,
    /// The index of a used ring could not be read from guest memory.
    QueueRingIndex,
}

/// What a transport tells the VMM to route without entering the transport.
pub trait VirtioTransport {
    /// The events to signal when the guest writes to the notify register,
    /// each with the address of that register.
    fn ioeventfds(&self, base_addr: u64) -> Vec<(&EventFd, u64)>;
}

/// The four bytes of `value`, least significant first.
pub open spec fn le_bytes(value: u32) -> Seq<u8> {
    seq![value as u8, (value >> 8) as u8, (value >> 16) as u8, (value >> 24) as u8]
}

/// The number whose bytes, least significant first, are the first four of
/// `bytes`.
pub open spec fn from_le_bytes(bytes: Seq<u8>) -> u32 {
    (bytes[0] as u32) | (bytes[1] as u32) << 8 | (bytes[2] as u32) << 16 | (bytes[3] as u32) << 24
}

/// `LittleEndian::write_u32`: puts the bytes of `value`, least significant
/// first, into the first four bytes of `buf` and leaves the rest as it was.
/// The outside function panics on a shorter buffer.
#[verifier::external_body]
pub(crate) fn write_u32_le(buf: &mut [u8], value: u32)
    requires
        old(buf)@.len() >= 4,
    ensures
        final(buf)@ == le_bytes(value) + old(buf)@.skip(4),
{
    LittleEndian::write_u32(buf, value)
}

/// `LittleEndian::read_u32`: the number whose bytes, least significant
/// first, are the first four of `buf`. The outside function panics on a
/// shorter buffer.
#[verifier::external_body]
pub(crate) fn read_u32_le(buf: &[u8]) -> (value: u32)
    requires
        buf@.len() >= 4,
    ensures
        value == from_le_bytes(buf@),
{
    LittleEndian::read_u32(buf)
}

/// Reading back what was written gives the number that was written.
pub proof fn lemma_le_round_trip(value: u32)
    ensures
        from_le_bytes(le_bytes(value)) == value,
{
    let b0 = value as u8;
    let b1 = (value >> 8) as u8;
    let b2 = (value >> 16) as u8;
    let b3 = (value >> 24) as u8;
    assert((b0 as u32) | (b1 as u32) << 8 | (b2 as u32) << 16 | (b3 as u32) << 24 == value)
        by (bit_vector)
        requires
            b0 == value as u8,
            b1 == (value >> 8) as u8,
            b2 == (value >> 16) as u8,
            b3 == (value >> 24) as u8,
    ;
}

} // verus!
