//! The virtqueues of a transport. A queue is a `virtio_queue::Queue`; what
//! the transport knows of one is its configuration, named by `queue_view`.

use std::sync::atomic::Ordering;
use virtio_queue::{Queue, QueueT};
use vm_memory::{GuestAddress, GuestAddressSpace, GuestMemoryAtomic, GuestMemoryMmap};
use vstd::prelude::*;

verus! {

#[verifier::external_type_specification]
#[verifier::external_body]
pub struct ExQueue(virtio_queue::Queue);

/// Guest memory: the address-indexed byte store that the queues' rings live
/// in. It is shared with the rest of the VMM and with the guest, so nothing
/// is known here of what it holds.
#[verifier::external_body]
pub struct GuestMemory {
    pub inner: GuestMemoryAtomic<GuestMemoryMmap>,
}

/// The largest queue size the virtio standard allows.
pub const MAX_QUEUE_SIZE: u16 = 32768;

/// The configuration of a queue.
pub struct QueueView {
    /// The maximum size in elements offered by the device.
    pub max_size: u16,
    /// The queue size in elements the driver selected.
    pub size: u16,
    /// Whether the driver has finished configuring the queue.
    pub ready: bool,
    /// Guest physical address of the descriptor table.
    pub desc_table: u64,
    /// Guest physical address of the available ring.
    pub avail_ring: u64,
    /// Guest physical address of the used ring.
    pub used_ring: u64,
    /// Tail position of the available ring.
    pub next_avail: u16,
    /// Head position of the used ring.
    pub next_used: u16,
    /// Whether used-ring event indices were negotiated.
    pub event_idx_enabled: bool,
}

/// What a queue holds.
pub uninterp spec fn queue_view(queue: Queue) -> QueueView;

/// A size is a nonzero power of two.
pub open spec fn power_of_two(size: u16) -> bool {
    size != 0 && size & ((size - 1) as u16) == 0
}

/// The sizes a device may offer: powers of two up to `MAX_QUEUE_SIZE`.
pub open spec fn valid_max_size(max_size: u16) -> bool {
    power_of_two(max_size) && max_size <= MAX_QUEUE_SIZE
}

/// The sizes a driver may select on a queue that offers `max_size`.
pub open spec fn valid_size(size: u16, max_size: u16) -> bool {
    power_of_two(size) && size <= max_size
}

/// Descriptor tables are aligned to 16 bytes.
pub open spec fn desc_table_aligned(addr: u64) -> bool {
    addr & 0xf == 0
}

/// Available rings are aligned to 2 bytes.
pub open spec fn avail_ring_aligned(addr: u64) -> bool {
    addr & 0x1 == 0
}

/// Used rings are aligned to 4 bytes.
pub open spec fn used_ring_aligned(addr: u64) -> bool {
    addr & 0x3 == 0
}

/// The address that results when one half of `current` is replaced: `low`
/// replaces the lower 32 bits, `high` the upper 32 bits, and a half that is
/// not given stays.
pub open spec fn merged_address(current: u64, low: Option<u32>, high: Option<u32>) -> u64 {
    let lo = match low {
        Some(l) => l as u64,
        None => (current as u32) as u64,
    };
    let hi = match high {
        Some(h) => h as u64,
        None => ((current >> 32) as u32) as u64,
    };
    (hi << 32) | lo
}

impl QueueView {
    /// The invariant of a queue's configuration.
    pub open spec fn wf(self) -> bool {
        &&& valid_max_size(self.max_size)
        &&& valid_size(self.size, self.max_size)
        &&& desc_table_aligned(self.desc_table)
        &&& avail_ring_aligned(self.avail_ring)
        &&& used_ring_aligned(self.used_ring)
    }

    /// A queue as it is created and as a reset leaves it: sized to its
    /// maximum, not ready, its rings at address zero.
    pub open spec fn fresh(max_size: u16) -> QueueView {
        QueueView {
            max_size,
            size: max_size,
            ready: false,
            desc_table: 0,
            avail_ring: 0,
            used_ring: 0,
            next_avail: 0,
            next_used: 0,
            event_idx_enabled: false,
        }
    }

    /// The configuration after the driver asked for `size`: an invalid size
    /// is ignored.
    pub open spec fn with_size(self, size: u16) -> QueueView {
        if valid_size(size, self.max_size) {
            QueueView { size, ..self }
        } else {
            self
        }
    }

    /// The configuration after one half of the descriptor table address was
    /// written: a misaligned result is ignored.
    pub open spec fn with_desc_table(self, low: Option<u32>, high: Option<u32>) -> QueueView {
        let addr = merged_address(self.desc_table, low, high);
        if desc_table_aligned(addr) {
            QueueView { desc_table: addr, ..self }
        } else {
            self
        }
    }

    /// As `with_desc_table`, for the available ring.
    pub open spec fn with_avail_ring(self, low: Option<u32>, high: Option<u32>) -> QueueView {
        let addr = merged_address(self.avail_ring, low, high);
        if avail_ring_aligned(addr) {
            QueueView { avail_ring: addr, ..self }
        } else {
            self
        }
    }

    /// As `with_desc_table`, for the used ring.
    pub open spec fn with_used_ring(self, low: Option<u32>, high: Option<u32>) -> QueueView {
        let addr = merged_address(self.used_ring, low, high);
        if used_ring_aligned(addr) {
            QueueView { used_ring: addr, ..self }
        } else {
            self
        }
    }
}

/// The part of a queue's configuration that a snapshot records.
#[derive(Clone, Copy, Debug, PartialEq, Eq, Structural)]
pub struct QueueState {
    pub max_size: u16,
    pub size: u16,
    pub ready: bool,
    pub desc_table: u64,
    pub avail_ring: u64,
    pub used_ring: u64,
}

impl QueueView {
    /// The record a snapshot takes of this configuration.
    pub open spec fn state(self) -> QueueState {
        QueueState {
            max_size: self.max_size,
            size: self.size,
            ready: self.ready,
            desc_table: self.desc_table,
            avail_ring: self.avail_ring,
            used_ring: self.used_ring,
        }
    }
}

/// `Queue::new`: refuses a maximum size that is zero, above 32768 or no
/// power of two, and otherwise gives a queue sized to its maximum, not
/// ready, with its rings at address zero and its indices at zero.
#[verifier::external_body]
pub(crate) fn queue_new(max_size: u16) -> (r: Option<Queue>)
    ensures
        r is Some <==> valid_max_size(max_size),
        r matches Some(q) ==> queue_view(q) == QueueView::fresh(max_size),
{
    Queue::new(max_size).ok()
}

/// `Queue::state`: the queue's configuration, of which the six recorded
/// fields are handed on.
#[verifier::external_body]
pub(crate) fn queue_state(queue: &Queue) -> (s: QueueState)
    ensures
        s == queue_view(*queue).state(),
{
    let s = queue.state();
    QueueState {
        max_size: s.max_size,
        size: s.size,
        ready: s.ready,
        desc_table: s.desc_table,
        avail_ring: s.avail_ring,
        used_ring: s.used_ring,
    }
}

/// `Queue::set_size`: stores a size that is a nonzero power of two no
/// larger than the maximum and ignores any other.
#[verifier::external_body]
pub(crate) fn queue_set_size(queue: &mut Queue, size: u16)
    ensures
        queue_view(*final(queue)) == queue_view(*old(queue)).with_size(size),
{
    queue.set_size(size)
}

/// `Queue::set_ready`: stores the flag.
#[verifier::external_body]
pub(crate) fn queue_set_ready(queue: &mut Queue, ready: bool)
    ensures
        queue_view(*final(queue)) == (QueueView { ready, ..queue_view(*old(queue)) }),
{
    queue.set_ready(ready)
}

/// `Queue::set_desc_table_address`: replaces the given halves of the
/// address and ignores the write if the result is not aligned to 16 bytes.
#[verifier::external_body]
pub(crate) fn queue_set_desc_table_address(queue: &mut Queue, low: Option<u32>, high: Option<u32>)
    ensures
        queue_view(*final(queue)) == queue_view(*old(queue)).with_desc_table(low, high),
{
    queue.set_desc_table_address(low, high)
}

/// `Queue::set_avail_ring_address`: replaces the given halves of the
/// address and ignores the write if the result is not aligned to 2 bytes.
#[verifier::external_body]
pub(crate) fn queue_set_avail_ring_address(queue: &mut Queue, low: Option<u32>, high: Option<u32>)
    ensures
        queue_view(*final(queue)) == queue_view(*old(queue)).with_avail_ring(low, high),
{
    queue.set_avail_ring_address(low, high)
}

/// `Queue::set_used_ring_address`: replaces the given halves of the address
/// and ignores the write if the result is not aligned to 4 bytes.
#[verifier::external_body]
pub(crate) fn queue_set_used_ring_address(queue: &mut Queue, low: Option<u32>, high: Option<u32>)
    ensures
        queue_view(*final(queue)) == queue_view(*old(queue)).with_used_ring(low, high),
{
    queue.set_used_ring_address(low, high)
}

/// `Queue::try_set_desc_table_address`: stores an address aligned to 16
/// bytes and refuses any other, leaving the queue as it was.
#[verifier::external_body]
pub(crate) fn queue_try_set_desc_table_address(queue: &mut Queue, addr: u64) -> (stored: bool)
    ensures
        stored == desc_table_aligned(addr),
        stored ==> queue_view(*final(queue)) == (QueueView {
            desc_table: addr,
            ..queue_view(*old(queue))
        }),
        !stored ==> queue_view(*final(queue)) == queue_view(*old(queue)),
{
    queue.try_set_desc_table_address(GuestAddress(addr)).is_ok()
}

/// `Queue::try_set_avail_ring_address`: stores an address aligned to 2
/// bytes and refuses any other, leaving the queue as it was.
#[verifier::external_body]
pub(crate) fn queue_try_set_avail_ring_address(queue: &mut Queue, addr: u64) -> (stored: bool)
    ensures
        stored == avail_ring_aligned(addr),
        stored ==> queue_view(*final(queue)) == (QueueView {
            avail_ring: addr,
            ..queue_view(*old(queue))
        }),
        !stored ==> queue_view(*final(queue)) == queue_view(*old(queue)),
{
    queue.try_set_avail_ring_address(GuestAddress(addr)).is_ok()
}

/// `Queue::try_set_used_ring_address`: stores an address aligned to 4 bytes
/// and refuses any other, leaving the queue as it was.
#[verifier::external_body]
pub(crate) fn queue_try_set_used_ring_address(queue: &mut Queue, addr: u64) -> (stored: bool)
    ensures
        stored == used_ring_aligned(addr),
        stored ==> queue_view(*final(queue)) == (QueueView {
            used_ring: addr,
            ..queue_view(*old(queue))
        }),
        !stored ==> queue_view(*final(queue)) == queue_view(*old(queue)),
{
    queue.try_set_used_ring_address(GuestAddress(addr)).is_ok()
}

/// `Queue::set_next_avail`: stores the index.
#[verifier::external_body]
pub(crate) fn queue_set_next_avail(queue: &mut Queue, next_avail: u16)
    ensures
        queue_view(*final(queue)) == (QueueView { next_avail, ..queue_view(*old(queue)) }),
{
    queue.set_next_avail(next_avail)
}

/// `Queue::set_next_used`: stores the index.
#[verifier::external_body]
pub(crate) fn queue_set_next_used(queue: &mut Queue, next_used: u16)
    ensures
        queue_view(*final(queue)) == (QueueView { next_used, ..queue_view(*old(queue)) }),
{
    queue.set_next_used(next_used)
}

/// `Queue::reset`: puts the queue back to what `Queue::new` gave for its
/// maximum size.
#[verifier::external_body]
pub(crate) fn queue_reset(queue: &mut Queue)
    ensures
        queue_view(*final(queue)) == QueueView::fresh(queue_view(*old(queue)).max_size),
{
    queue.reset()
}

/// `Queue::used_idx` with acquire ordering: reads the index field of the
/// used ring from guest memory, `None` where the read fails. What comes back
/// depends on the memory, so nothing is claimed of it.
#[verifier::external_body]
pub(crate) fn queue_used_idx(queue: &Queue, mem: &GuestMemory) -> (r: Option<u16>) {
    queue.used_idx(&*mem.inner.memory(), Ordering::Acquire).map(|idx| idx.0).ok()
}

/// `Queue::try_from` on `Queue::state`: a second queue with the same
/// configuration. It is refused only for a configuration that breaks the
/// invariant.
#[verifier::external_body]
pub(crate) fn queue_try_clone(queue: &Queue) -> (r: Option<Queue>)
    ensures
        queue_view(*queue).wf() ==> r is Some,
        r matches Some(q) ==> queue_view(q) == queue_view(*queue),
{
    Queue::try_from(queue.state()).ok()
}

/// `Queue::is_valid`: whether the queue is ready and its three rings lie in
/// guest memory. A queue that is not ready is not valid; whether the rings
/// of a ready queue lie in guest memory depends on the memory.
#[verifier::external_body]
pub(crate) fn queue_is_valid(queue: &Queue, mem: &GuestMemory) -> (valid: bool)
    ensures
        valid ==> queue_view(*queue).ready,
{
    queue.is_valid(&*mem.inner.memory())
}

/// `GuestMemoryAtomic::clone`: a second handle to the same memory.
#[verifier::external_body]
pub(crate) fn guest_memory_clone(mem: &GuestMemory) -> (cloned: GuestMemory)
    ensures
        cloned == *mem,
{
    GuestMemory { inner: mem.inner.clone() }
}

/// A fresh queue keeps the invariant.
pub proof fn lemma_fresh_wf(max_size: u16)
    requires
        valid_max_size(max_size),
    ensures
        QueueView::fresh(max_size).wf(),
{
    assert(0u64 & 0xf == 0 && 0u64 & 0x1 == 0 && 0u64 & 0x3 == 0) by (bit_vector);
}

/// Every register write keeps the invariant.
pub proof fn lemma_updates_keep_wf(v: QueueView, size: u16, low: Option<u32>, high: Option<u32>)
    requires
        v.wf(),
    ensures
        v.with_size(size).wf(),
        v.with_desc_table(low, high).wf(),
        v.with_avail_ring(low, high).wf(),
        v.with_used_ring(low, high).wf(),
{
}

} // verus!
