//! The interrupt adapter of the MMIO transport: every virtio interrupt is
//! folded into one of two bits of a status word that the guest reads and
//! acknowledges, and the one interrupt line of the device is fired.

use std::sync::atomic::{AtomicUsize, Ordering};
use std::sync::Arc;
use vstd::prelude::*;

verus! {

/// Bit of the interrupt status that says a used ring was updated.
pub const INTERRUPT_STATUS_USED_RING: u32 = 0x1;

/// Bit of the interrupt status that says the configuration changed.
pub const INTERRUPT_STATUS_CONFIG_CHANGED: u32 = 0x2;

/// What a virtio device interrupts for.
#[derive(Clone, Copy, Debug, PartialEq, Eq, Structural)]
pub enum VirtioInterruptType {
    Config,
    Queue(u16),
}

/// The status bit an interrupt raises. All queues share one bit.
pub open spec fn status_bit(int_type: VirtioInterruptType) -> u32 {
    match int_type {
        VirtioInterruptType::Config => INTERRUPT_STATUS_CONFIG_CHANGED,
        VirtioInterruptType::Queue(_) => INTERRUPT_STATUS_USED_RING,
    }
}

/// The status word after an interrupt was raised on `status`.
pub open spec fn raised(status: usize, int_type: VirtioInterruptType) -> usize {
    status | (status_bit(int_type) as usize)
}

/// The status word after the guest acknowledged the bits of `value`.
pub open spec fn acknowledged(status: usize, value: u32) -> usize {
    status & !(value as usize)
}

/// The status word as the guest reads it: its lower 32 bits.
pub open spec fn status_register(status: usize) -> u32 {
    status as u32
}

/// The status bit an interrupt raises.
pub fn interrupt_status_bit(int_type: VirtioInterruptType) -> (bit: u32)
    ensures
        bit == status_bit(int_type),
{
    match int_type {
        VirtioInterruptType::Config => INTERRUPT_STATUS_CONFIG_CHANGED,
        VirtioInterruptType::Queue(_queue_index) => INTERRUPT_STATUS_USED_RING,
    }
}

/// The bits that an interrupt sets in the status word.
pub fn raise_mask(int_type: VirtioInterruptType) -> (mask: usize)
    ensures
        mask == status_bit(int_type) as usize,
        forall|status: usize| status | mask == raised(status, int_type),
{
    interrupt_status_bit(int_type) as usize
}

/// The mask that keeps every bit but those of `value`.
pub fn acknowledge_mask(value: u32) -> (mask: usize)
    ensures
        mask == !(value as usize),
        forall|status: usize| status & mask == acknowledged(status, value),
{
    !(value as usize)
}

/// The status word as the guest reads it.
pub fn interrupt_status_register(status: usize) -> (value: u32)
    ensures
        value == status_register(status),
{
    #[verifier::truncate]
    (status as u32)
}

/// However many queue interrupts were raised and whatever the queues were,
/// the used-ring bit is set afterwards; one configuration interrupt sets
/// the configuration bit; and an interrupt that is raised takes no bit
/// away.
pub proof fn lemma_raise_sets_bit(status: usize, int_type: VirtioInterruptType)
    ensures
        int_type is Queue ==> raised(status, int_type) & 0x1 == 0x1,
        int_type is Config ==> raised(status, int_type) & 0x2 == 0x2,
        raised(status, int_type) & status == status,
        raised(raised(status, int_type), int_type) == raised(status, int_type),
{
    assert((status | 1usize) & 0x1 == 0x1) by (bit_vector);
    assert((status | 2usize) & 0x2 == 0x2) by (bit_vector);
    assert((status | 1usize) & status == status) by (bit_vector);
    assert((status | 2usize) & status == status) by (bit_vector);
    assert(((status | 1usize) | 1usize) == (status | 1usize)) by (bit_vector);
    assert(((status | 2usize) | 2usize) == (status | 2usize)) by (bit_vector);
}

/// The status word after a run of interrupts.
pub open spec fn raised_all(status: usize, int_types: Seq<VirtioInterruptType>) -> usize
    decreases int_types.len(),
{
    if int_types.len() == 0 {
        status
    } else {
        raised(raised_all(status, int_types.drop_last()), int_types.last())
    }
}

/// After any nonempty run of queue interrupts the used-ring bit is set.
pub proof fn lemma_queue_interrupts_set_used_ring(
    status: usize,
    int_types: Seq<VirtioInterruptType>,
)
    requires
        int_types.len() > 0,
        forall|i: int| 0 <= i < int_types.len() ==> int_types[i] is Queue,
    ensures
        raised_all(status, int_types) & 0x1 == 0x1,
{
    lemma_raise_sets_bit(raised_all(status, int_types.drop_last()), int_types.last());
}

/// An acknowledgement clears exactly the bits of its value: each of them
/// is clear afterwards and every other bit is as it was.
pub proof fn lemma_acknowledge_clears_exactly(status: usize, value: u32)
    ensures
        acknowledged(status, value) & (value as usize) == 0,
        acknowledged(status, value) & !(value as usize) == status & !(value as usize),
        acknowledged(status, value) | (status & (value as usize)) == status,
{
    let v = value as usize;
    assert((status & !v) & v == 0) by (bit_vector);
    assert((status & !v) & !v == status & !v) by (bit_vector);
    assert((status & !v) | (status & v) == status) by (bit_vector);
}

/// The interrupt status of one transport, shared between the transport and
/// the adapters handed to its device. Every access is sequentially
/// consistent. Other holders may change the word at any time, so no
/// contract speaks of its value.
pub struct InterruptStatus {
    bits: Arc<AtomicUsize>,
}

impl InterruptStatus {
    /// A status word with no bit set.
    pub fn new() -> InterruptStatus {
        InterruptStatus { bits: Arc::new(AtomicUsize::new(0)) }
    }

    /// Another handle to the same status word.
    pub fn share(&self) -> (shared: InterruptStatus)
        ensures
            shared == *self,
    {
        InterruptStatus { bits: self.bits.clone() }
    }

    /// The status word as it is now.
    pub fn load(&self) -> usize {
        self.bits.load(Ordering::SeqCst)
    }

    /// Replaces the status word.
    pub fn store(&self, status: usize) {
        self.bits.store(status, Ordering::SeqCst)
    }

    /// Sets the bits of `bits` in one step.
    pub fn fetch_or(&self, bits: usize) -> usize {
        self.bits.fetch_or(bits, Ordering::SeqCst)
    }

    /// Keeps the bits of `mask` and clears the others in one step.
    pub fn fetch_and(&self, mask: usize) -> usize {
        self.bits.fetch_and(mask, Ordering::SeqCst)
    }
}

/// The sink behind an adapter: the interrupt line of the device.
pub trait InterruptSourceGroup {
    /// What a failed attempt to fire the line reports.
    type Failure;

    /// What a call of `trigger` may give.
    open spec fn fired(&self, index: u32, result: Result<(), Self::Failure>) -> bool {
        true
    }

    /// Fires the interrupt of the given index.
    fn trigger(&self, index: u32) -> (result: Result<(), Self::Failure>)
        ensures
            self.fired(index, result),
    ;
}

/// What a virtio device signals its driver through.
pub trait VirtioInterrupt {
    /// What a failed attempt to interrupt reports.
    type Failure;

    /// What a call of `trigger` may give.
    open spec fn triggered(
        &self,
        int_type: VirtioInterruptType,
        result: Result<(), Self::Failure>,
    ) -> bool {
        true
    }

    /// Interrupts the driver.
    fn trigger(&self, int_type: VirtioInterruptType) -> (result: Result<(), Self::Failure>)
        ensures
            self.triggered(int_type, result),
    ;
}

/// The adapter of the MMIO transport: it binds the status word of the
/// transport to the interrupt line of the device.
pub struct VirtioInterruptIntx<S: InterruptSourceGroup> {
    interrupt_status: InterruptStatus,
    interrupt: S,
}

impl<S: InterruptSourceGroup> VirtioInterruptIntx<S> {
    /// An adapter that raises its interrupts on `interrupt_status` and
    /// fires `interrupt`.
    pub fn new(interrupt_status: InterruptStatus, interrupt: S) -> (adapter: Self)
        ensures
            adapter.status() == interrupt_status,
            adapter.sink() == interrupt,
    {
        VirtioInterruptIntx { interrupt_status, interrupt }
    }

    /// The status word this adapter raises its interrupts on.
    pub closed spec fn status(&self) -> InterruptStatus {
        self.interrupt_status
    }

    /// The interrupt line this adapter fires.
    pub closed spec fn sink(&self) -> S {
        self.interrupt
    }
}

impl<S: InterruptSourceGroup> VirtioInterrupt for VirtioInterruptIntx<S> {
    type Failure = S::Failure;

    /// The result is that of firing index 0 of the line.
    open spec fn triggered(
        &self,
        int_type: VirtioInterruptType,
        result: Result<(), Self::Failure>,
    ) -> bool {
        self.sink().fired(0, result)
    }

    /// Sets the status bit of the interrupt, then fires index 0 of the line
    /// and hands its result on.
    fn trigger(&self, int_type: VirtioInterruptType) -> (result: Result<(), Self::Failure>) {
        self.interrupt_status.fetch_or(raise_mask(int_type));
        self.interrupt.trigger(0)
    }
}

} // verus!
