//! The MMIO transport: one page of registers through which a guest finds,
//! negotiates with, configures and starts one virtio device.
//!
//! A transport is a sequential object: whoever holds it mutably is the only
//! one to touch it. The interrupt status alone is shared, with the adapters
//! handed to the device, and is therefore a cell of its own.

use crate::device::{
    ActivateError, ActivateResult, ActivatedQueue, VirtioDevice, VirtioSharedMemoryList,
    DEVICE_ACKNOWLEDGE, DEVICE_DRIVER, DEVICE_DRIVER_OK, DEVICE_FAILED, DEVICE_FEATURES_OK,
    DEVICE_INIT,
};
use crate::interrupt::{
    acknowledge_mask, interrupt_status_register, InterruptSourceGroup, InterruptStatus,
    VirtioInterruptIntx,
};
use crate::queue::{
    guest_memory_clone, queue_is_valid, queue_new, queue_reset, queue_set_avail_ring_address,
    queue_set_desc_table_address, queue_set_next_avail, queue_set_next_used, queue_set_ready,
    queue_set_size, queue_set_used_ring_address, queue_state, queue_try_clone,
    queue_try_set_avail_ring_address, queue_try_set_desc_table_address,
    queue_try_set_used_ring_address, queue_used_idx, queue_view, valid_max_size, GuestMemory,
    QueueState, QueueView,
};
use crate::transport::{from_le_bytes, le_bytes, read_u32_le, write_u32_le, Error, VirtioTransport};
use std::sync::Arc;
use std::sync::Barrier;
use virtio_queue::Queue;
use vmm_sys_util::eventfd::EventFd;
use vstd::prelude::*;

verus! {

#[verifier::external_type_specification]
#[verifier::external_body]
pub struct ExBarrier(std::sync::Barrier);

pub const VENDOR_ID: u32 = 0;

pub const MMIO_MAGIC_VALUE: u32 = 0x7472_6976;

pub const MMIO_VERSION: u32 = 2;

/// Offset of the notify register, which the VMM routes to the queue events.
pub const NOTIFY_REG_OFFSET: u32 = 0x50;

/// The driver status with which a driver says it is ready: acknowledged,
/// driver loaded, features agreed, driver set up.
pub const DRIVER_READY: u32 = 0x0f;

/// Whether a driver status asks for the device to be started: exactly the
/// four bits of a ready driver, without the failure bit.
pub open spec fn driver_ready(driver_status: u32) -> bool {
    driver_status == DRIVER_READY
}

/// Whether a driver status asks for the device to be reset.
pub open spec fn driver_init(driver_status: u32) -> bool {
    driver_status == DEVICE_INIT
}

/// The 32 bits of `features` that page `select` shows; there are two pages
/// and any further page is empty.
pub open spec fn spec_feature_page(features: u64, select: u32) -> u32 {
    if select < 2 {
        (features >> ((select * 32) as u64)) as u32
    } else {
        0
    }
}

/// The feature bits that a write of `value` to page `select` acknowledges.
pub open spec fn spec_acked_features(value: u32, select: u32) -> u64 {
    (value as u64) << ((select * 32) as u64)
}

/// What the guest is told of the selected shared-memory region: its
/// address and its length. Where the device has no regions, or none at the
/// selected place, the length is all ones and the address zero.
pub open spec fn spec_shm_window(regions: Option<VirtioSharedMemoryList>, select: u32) -> (
    u64,
    u64,
) {
    match regions {
        Some(list) => if select < list.region_list@.len() {
            (
                ((list.region_list@[select as int].offset + list.addr) % 0x1_0000_0000_0000_0000) as u64,
                list.region_list@[select as int].len,
            )
        } else {
            (0, u64::MAX)
        },
        None => (0, u64::MAX),
    }
}

/// The register of the shared-memory window at `offset`: the halves of the
/// length at 0xb0 and 0xb4, the halves of the address at 0xb8 and 0xbc, and
/// zero in between.
pub open spec fn spec_shm_register(offset: u64, window: (u64, u64)) -> u32 {
    if offset == 0xb0 {
        window.1 as u32
    } else if offset == 0xb4 {
        (window.1 >> 32) as u32
    } else if offset == 0xb8 {
        window.0 as u32
    } else if offset == 0xbc {
        (window.0 >> 32) as u32
    } else {
        0
    }
}

/// See `driver_ready`.
#[verifier::when_used_as_spec(driver_ready)]
pub fn is_driver_ready(driver_status: u32) -> (ready: bool)
    ensures
        ready == driver_ready(driver_status),
{
    let ready_bits = DEVICE_ACKNOWLEDGE | DEVICE_DRIVER | DEVICE_DRIVER_OK | DEVICE_FEATURES_OK;
    assert(ready_bits == 0x0f) by (bit_vector)
        requires
            ready_bits == 0x01u32 | 0x02u32 | 0x04u32 | 0x08u32,
    ;
    assert(driver_status == 0x0fu32 ==> driver_status & 0x80u32 == 0) by (bit_vector);
    driver_status == ready_bits && driver_status & DEVICE_FAILED == 0
}

/// See `driver_init`.
#[verifier::when_used_as_spec(driver_init)]
pub fn is_driver_init(driver_status: u32) -> (init: bool)
    ensures
        init == driver_init(driver_status),
{
    driver_status == DEVICE_INIT
}

/// See `spec_feature_page`.
#[verifier::when_used_as_spec(spec_feature_page)]
pub fn feature_page(features: u64, select: u32) -> (page: u32)
    ensures
        page == spec_feature_page(features, select),
{
    if select < 2 {
        #[verifier::truncate]
        ((features >> ((select * 32) as u64)) as u32)
    } else {
        0
    }
}

/// See `spec_acked_features`. Only the two pages that exist can be
/// acknowledged.
#[verifier::when_used_as_spec(spec_acked_features)]
pub fn acked_features(value: u32, select: u32) -> (features: u64)
    requires
        select < 2,
    ensures
        features == spec_acked_features(value, select),
{
    (value as u64) << ((select * 32) as u64)
}

/// See `spec_shm_window`.
pub fn shm_window(regions: &Option<VirtioSharedMemoryList>, select: u32) -> (window: (u64, u64))
    ensures
        window == spec_shm_window(*regions, select),
{
    match regions {
        Some(list) => {
            if (select as usize) < list.region_list.len() {
                let region = &list.region_list[select as usize];
                (region.offset.wrapping_add(list.addr), region.len)
            } else {
                (0, u64::MAX)
            }
        },
        None => (0, u64::MAX),
    }
}

/// See `spec_shm_register`.
#[verifier::when_used_as_spec(spec_shm_register)]
pub fn shm_register(offset: u64, window: (u64, u64)) -> (value: u32)
    ensures
        value == spec_shm_register(offset, window),
{
    if offset == 0xb0 {
        #[verifier::truncate]
        (window.1 as u32)
    } else if offset == 0xb4 {
        #[verifier::truncate]
        ((window.1 >> 32) as u32)
    } else if offset == 0xb8 {
        #[verifier::truncate]
        (window.0 as u32)
    } else if offset == 0xbc {
        #[verifier::truncate]
        ((window.0 >> 32) as u32)
    } else {
        0
    }
}

/// One queue of an activation as contracts see it: its index, its
/// configuration and its event.
pub open spec fn activated_queue_view(queue: ActivatedQueue) -> (usize, QueueView, Arc<EventFd>) {
    (queue.0, queue_view(queue.1), queue.2)
}

/// The queues of an activation as contracts see them.
pub open spec fn activated_queues_view(queues: Seq<ActivatedQueue>) -> Seq<
    (usize, QueueView, Arc<EventFd>),
> {
    queues.map_values(|q: ActivatedQueue| activated_queue_view(q))
}

/// The queues among the first `n` that the driver marked ready, in order,
/// each with its index and its event.
pub open spec fn ready_queues(queues: Seq<QueueView>, evts: Seq<Arc<EventFd>>, n: int) -> Seq<
    (usize, QueueView, Arc<EventFd>),
>
    decreases n,
{
    if n <= 0 {
        Seq::empty()
    } else if queues[n - 1].ready {
        ready_queues(queues, evts, n - 1).push(((n - 1) as usize, queues[n - 1], evts[n - 1]))
    } else {
        ready_queues(queues, evts, n - 1)
    }
}

/// A prepared activation as contracts see it.
pub struct ActivatorView<S: InterruptSourceGroup> {
    /// The adapter the device will interrupt through, if the transport
    /// still held one.
    pub interrupt: Option<Arc<VirtioInterruptIntx<S>>>,
    /// The guest memory the device will work on.
    pub memory: Option<GuestMemory>,
    /// The ready queues.
    pub queues: Seq<(usize, QueueView, Arc<EventFd>)>,
    /// The barrier on which the dispatcher waits for the activation.
    pub barrier: Option<Arc<Barrier>>,
    /// The name of the transport.
    pub id: Seq<char>,
    /// Whether the activation is still to be made.
    pub pending: bool,
}

/// A prepared activation: what a transport hands to its device once the
/// driver is ready. It is made once.
pub struct VirtioMmioDeviceActivator<S: InterruptSourceGroup> {
    interrupt: Option<Arc<VirtioInterruptIntx<S>>>,
    memory: Option<GuestMemory>,
    queues: Option<Vec<ActivatedQueue>>,
    barrier: Option<Arc<Barrier>>,
    id: String,
}

impl<S: InterruptSourceGroup> View for VirtioMmioDeviceActivator<S> {
    type V = ActivatorView<S>;

    closed spec fn view(&self) -> ActivatorView<S> {
        ActivatorView {
            interrupt: self.interrupt,
            memory: self.memory,
            queues: match self.queues {
                Some(queues) => activated_queues_view(queues@),
                None => Seq::empty(),
            },
            barrier: self.barrier,
            id: self.id@,
            pending: self.queues is Some && self.memory is Some,
        }
    }
}

/// A transport as contracts see it.
pub struct MmioView<D, S: InterruptSourceGroup> {
    pub id: Seq<char>,
    /// The device behind the transport.
    pub device: D,
    /// Whether the device was started and not reset since.
    pub device_activated: bool,
    /// The feature page that reads show.
    pub features_select: u32,
    /// The feature page that acknowledgements go to.
    pub acked_features_select: u32,
    /// The queue that the queue registers speak of.
    pub queue_select: u32,
    /// The cell of the interrupt status, which the adapters share.
    pub interrupt_status: InterruptStatus,
    /// The adapter that the next activation hands to the device.
    pub virtio_interrupt: Option<Arc<VirtioInterruptIntx<S>>>,
    /// The status the driver wrote last.
    pub driver_status: u32,
    pub config_generation: u32,
    /// The configuration of each queue.
    pub queues: Seq<QueueView>,
    /// The event of each queue.
    pub queue_evts: Seq<Arc<EventFd>>,
    /// The guest memory the queues live in.
    pub memory: GuestMemory,
    /// The barrier on which an activation without a write meets the
    /// dispatcher.
    pub activate_barrier: Arc<Barrier>,
    /// The shared-memory region that the window registers speak of.
    pub shm_region_select: u32,
    /// The activations prepared and not yet taken, oldest first.
    pub pending_activations: Seq<ActivatorView<S>>,
    /// The ready queues that were found not to be valid when an activation
    /// was prepared last, by their indices. They were handed on all the
    /// same: the device has the last word.
    pub invalid_queues: Seq<usize>,
}

impl<D, S: InterruptSourceGroup> MmioView<D, S> {
    /// The configuration of the selected queue, if there is such a queue.
    pub open spec fn selected_queue(self) -> Option<QueueView> {
        if self.queue_select < self.queues.len() {
            Some(self.queues[self.queue_select as int])
        } else {
            None
        }
    }

    /// The invariant of a transport: a queue has an event, and every queue
    /// is configured validly.
    pub open spec fn wf(self) -> bool {
        &&& self.queues.len() == self.queue_evts.len()
        &&& forall|i: int| 0 <= i < self.queues.len() ==> (#[trigger] self.queues[i]).wf()
    }

    /// Whether the device is to be started: the driver is ready and the
    /// device is not running.
    pub open spec fn needs_activation(self) -> bool {
        !self.device_activated && driver_ready(self.driver_status)
    }

    /// Whether the device is to be reset: the driver wrote a status of zero
    /// while the device was running.
    pub open spec fn needs_reset(self) -> bool {
        self.device_activated && driver_init(self.driver_status)
    }
}

/// Implements the MMIO transport for virtio devices.
///
/// Reads and writes of the guest at the base of the transport go to `read`
/// and `write`; the events of `ioeventfds` are signalled for writes to the
/// notify register.
pub struct VirtioMmioDevice<D: VirtioDevice<VirtioInterruptIntx<S>>, S: InterruptSourceGroup> {
    id: String,
    device: D,
    device_activated: bool,
    features_select: u32,
    acked_features_select: u32,
    queue_select: u32,
    interrupt_status: InterruptStatus,
    virtio_interrupt: Option<Arc<VirtioInterruptIntx<S>>>,
    driver_status: u32,
    config_generation: u32,
    queues: Vec<Queue>,
    queue_evts: Vec<Arc<EventFd>>,
    memory: GuestMemory,
    shm_region_select: u32,
    activate_barrier: Arc<Barrier>,
    pending_activations: Vec<VirtioMmioDeviceActivator<S>>,
    invalid_queues: Vec<usize>,
}

impl<D: VirtioDevice<VirtioInterruptIntx<S>>, S: InterruptSourceGroup> View for VirtioMmioDevice<
    D,
    S,
> {
    type V = MmioView<D, S>;

    closed spec fn view(&self) -> MmioView<D, S> {
        MmioView {
            id: self.id@,
            device: self.device,
            device_activated: self.device_activated,
            features_select: self.features_select,
            acked_features_select: self.acked_features_select,
            queue_select: self.queue_select,
            interrupt_status: self.interrupt_status,
            virtio_interrupt: self.virtio_interrupt,
            driver_status: self.driver_status,
            config_generation: self.config_generation,
            queues: self.queues@.map_values(|q: Queue| queue_view(q)),
            queue_evts: self.queue_evts@,
            memory: self.memory,
            activate_barrier: self.activate_barrier,
            shm_region_select: self.shm_region_select,
            pending_activations: self.pending_activations@.map_values(
                |a: VirtioMmioDeviceActivator<S>| a@,
            ),
            invalid_queues: self.invalid_queues@,
        }
    }
}

/// `Barrier::new` for two parties: the dispatcher and the activation.
#[verifier::external_body]
fn new_barrier() -> Barrier {
    Barrier::new(2)
}

/// Whether `i` is the place of the first size that no queue may have.
pub open spec fn first_invalid_at(sizes: Seq<u16>, i: int) -> bool {
    &&& 0 <= i < sizes.len()
    &&& !valid_max_size(sizes[i])
    &&& forall|j: int| 0 <= j < i ==> valid_max_size(#[trigger] sizes[j])
}

/// Whether every size is one a queue may have.
pub open spec fn all_valid(sizes: Seq<u16>) -> bool {
    forall|j: int| 0 <= j < sizes.len() ==> valid_max_size(#[trigger] sizes[j])
}

/// The transport that `new` makes for a device that declared `sizes`.
pub open spec fn initial_view<D, S: InterruptSourceGroup>(
    id: Seq<char>,
    device: D,
    sizes: Seq<u16>,
    queue_evts: Seq<Arc<EventFd>>,
    memory: GuestMemory,
    activate_barrier: Arc<Barrier>,
    interrupt_status: InterruptStatus,
    virtio_interrupt: Option<Arc<VirtioInterruptIntx<S>>>,
) -> MmioView<D, S> {
    MmioView {
        id,
        device,
        device_activated: false,
        features_select: 0,
        acked_features_select: 0,
        queue_select: 0,
        interrupt_status,
        virtio_interrupt,
        driver_status: DEVICE_INIT,
        config_generation: 0,
        queues: sizes.map_values(|s: u16| QueueView::fresh(s)),
        queue_evts,
        memory,
        activate_barrier,
        shm_region_select: 0,
        pending_activations: Seq::empty(),
        invalid_queues: Seq::empty(),
    }
}


impl<D: VirtioDevice<VirtioInterruptIntx<S>>, S: InterruptSourceGroup> MmioView<D, S> {
    /// Whether a read of four bytes at `offset` of the control window is
    /// answered.
    pub open spec fn is_register(offset: u64) -> bool {
        offset == 0x00 || offset == 0x04 || offset == 0x08 || offset == 0x0c || offset == 0x10
            || offset == 0x34 || offset == 0x44 || offset == 0x60 || offset == 0x70 || offset
            == 0xfc || (0xb0 <= offset <= 0xbc)
    }

    /// Whether the register at `offset` may read as `value`. The transport
    /// decides most registers alone; the device type, the features and the
    /// shared-memory window are what the device gives; the interrupt status
    /// is whatever its cell holds when it is read.
    pub open spec fn reads_as(self, offset: u64, value: u32) -> bool {
        if offset == 0x00 {
            value == MMIO_MAGIC_VALUE
        } else if offset == 0x04 {
            value == MMIO_VERSION
        } else if offset == 0x08 {
            self.device.reports_device_type(value)
        } else if offset == 0x0c {
            value == VENDOR_ID
        } else if offset == 0x10 {
            if self.features_select < 2 {
                exists|features: u64| #[trigger]
                    self.device.offers_features(features) && value == spec_feature_page(
                        features,
                        self.features_select,
                    )
            } else {
                value == 0
            }
        } else if offset == 0x34 {
            value == match self.selected_queue() {
                Some(q) => q.max_size as u32,
                None => 0u32,
            }
        } else if offset == 0x44 {
            value == match self.selected_queue() {
                Some(q) => if q.ready {
                    1u32
                } else {
                    0u32
                },
                None => 0u32,
            }
        } else if offset == 0x60 {
            true
        } else if offset == 0x70 {
            value == self.driver_status
        } else if offset == 0xfc {
            value == self.config_generation
        } else if 0xb0 <= offset <= 0xbc {
            exists|regions: Option<VirtioSharedMemoryList>| #[trigger]
                self.device.exposes_shm_regions(regions) && value == spec_shm_register(
                    offset,
                    spec_shm_window(regions, self.shm_region_select),
                )
        } else {
            false
        }
    }
}

impl<D: VirtioDevice<VirtioInterruptIntx<S>>, S: InterruptSourceGroup> VirtioMmioDevice<D, S> {
    /// The invariant of a transport.
    pub open spec fn wf(&self) -> bool {
        self@.wf()
    }

    /// What `new` gives for a device that declared `sizes`: it refuses a
    /// number of events other than that of the queues, then the first size
    /// that no queue may have, and otherwise makes the transport in its
    /// initial state with an adapter that binds the interrupt status of the
    /// transport to `interrupt`.
    pub open spec fn created(
        id: Seq<char>,
        memory: GuestMemory,
        device: D,
        interrupt: S,
        queue_evts: Seq<Arc<EventFd>>,
        sizes: Seq<u16>,
        r: Result<Self, Error>,
    ) -> bool {
        if sizes.len() != queue_evts.len() {
            r matches Err(e) && e == Error::QueueEventCount
        } else if all_valid(sizes) {
            &&& r matches Ok(t)
            &&& t.wf()
            &&& t@ == initial_view(
                id,
                device,
                sizes,
                queue_evts,
                memory,
                t@.activate_barrier,
                t@.interrupt_status,
                t@.virtio_interrupt,
            )
            &&& t@.virtio_interrupt matches Some(adapter)
            &&& adapter.sink() == interrupt
            &&& adapter.status() == t@.interrupt_status
        } else {
            &&& r matches Err(e)
            &&& exists|i: int| first_invalid_at(sizes, i) && e == Error::QueueMaxSize(sizes[i])
        }
    }

    /// Constructs a new MMIO transport for the given virtio device, with one
    /// queue for each maximum size the device declares and one event for
    /// each queue.
    #[verifier::loop_isolation(false)]
    pub fn new(
        id: String,
        memory: GuestMemory,
        device: D,
        interrupt: S,
        queue_evts: Vec<Arc<EventFd>>,
    ) -> (r: Result<Self, Error>)
        ensures
            exists|sizes: Seq<u16>| #[trigger]
                device.declares_queue_max_sizes(sizes) && Self::created(
                    id@,
                    memory,
                    device,
                    interrupt,
                    queue_evts@,
                    sizes,
                    r,
                ),
    {
        let mut queues: Vec<Queue> = Vec::new();
        let sizes = device.queue_max_sizes();
        let ghost declared = sizes@;
        if sizes.len() != queue_evts.len() {
            let r = Err(Error::QueueEventCount);
            assert(Self::created(id@, memory, device, interrupt, queue_evts@, declared, r));
            return r;
        }
        let mut i: usize = 0;
        while i < sizes.len()
            invariant
                i <= sizes.len(),
                sizes@ == declared,
                queues@.len() == i,
                forall|j: int| 0 <= j < i ==> valid_max_size(#[trigger] declared[j]),
                forall|j: int|
                    0 <= j < i ==> queue_view(#[trigger] queues@[j]) == QueueView::fresh(
                        declared[j],
                    ),
            decreases sizes.len() - i,
        {
            match queue_new(sizes[i]) {
                Some(queue) => {
                    queues.push(queue);
                },
                None => {
                    let r = Err(Error::QueueMaxSize(sizes[i]));
                    assert(first_invalid_at(declared, i as int));
                    assert(Self::created(id@, memory, device, interrupt, queue_evts@, declared, r));
                    return r;
                },
            }
            i += 1;
        }
        let interrupt_status = InterruptStatus::new();
        let virtio_interrupt = Some(
            Arc::new(VirtioInterruptIntx::new(interrupt_status.share(), interrupt)),
        );
        let transport = VirtioMmioDevice {
            id,
            device,
            device_activated: false,
            features_select: 0,
            acked_features_select: 0,
            queue_select: 0,
            interrupt_status,
            virtio_interrupt,
            driver_status: DEVICE_INIT,
            config_generation: 0,
            queues,
            queue_evts,
            memory,
            shm_region_select: 0,
            activate_barrier: Arc::new(new_barrier()),
            pending_activations: Vec::new(),
            invalid_queues: Vec::new(),
        };
        proof {
            assert(transport@.queues =~= declared.map_values(|s: u16| QueueView::fresh(s)));
            assert(transport@.pending_activations =~= Seq::empty());
            assert(transport@.invalid_queues =~= Seq::empty());
            assert forall|j: int| 0 <= j < transport@.queues.len() implies (
            #[trigger] transport@.queues[j]).wf() by {
                crate::queue::lemma_fresh_wf(declared[j]);
            }
            assert(all_valid(declared));
        }
        let r = Ok(transport);
        assert(Self::created(id@, memory, device, interrupt, queue_evts@, declared, r));
        r
    }

    /// Answers a read of the guest at `offset` past the base of the
    /// transport. The transport stays as it is.
    ///
    /// A read of four bytes at a register of the control window gives the
    /// register, least significant byte first. A read in the configuration
    /// window is the device's. Any other read leaves `data` as it was.
    pub fn read(&mut self, _base: u64, offset: u64, data: &mut [u8])
        requires
            old(self).wf(),
        ensures
            *final(self) == *old(self),
            final(data)@.len() == old(data)@.len(),
            offset <= 0xff && old(data)@.len() == 4 && MmioView::<D, S>::is_register(offset)
                ==> exists|value: u32| #[trigger]
                old(self)@.reads_as(offset, value) && final(data)@ == le_bytes(value),
            offset <= 0xff && !(old(data)@.len() == 4 && MmioView::<D, S>::is_register(offset))
                ==> final(data)@ == old(data)@,
            0x100 <= offset <= 0xfff ==> old(self)@.device.reads_config(
                (offset - 0x100) as u64,
                old(data)@,
                final(data)@,
            ),
            offset > 0xfff ==> final(data)@ == old(data)@,
    {
        if offset <= 0xff && data.len() == 4 {
            let v: u32 = if offset == 0x00 {
                MMIO_MAGIC_VALUE
            } else if offset == 0x04 {
                MMIO_VERSION
            } else if offset == 0x08 {
                self.device.device_type()
            } else if offset == 0x0c {
                VENDOR_ID
            } else if offset == 0x10 {
                if self.features_select < 2 {
                    let features = self.device.features();
                    assert(self@.device.offers_features(features));
                    feature_page(features, self.features_select)
                } else {
                    0
                }
            } else if offset == 0x34 {
                if (self.queue_select as usize) < self.queues.len() {
                    assert(self@.queues[self.queue_select as int] == queue_view(
                        self.queues@[self.queue_select as int],
                    ));
                    queue_state(&self.queues[self.queue_select as usize]).max_size as u32
                } else {
                    0
                }
            } else if offset == 0x44 {
                if (self.queue_select as usize) < self.queues.len() {
                    assert(self@.queues[self.queue_select as int] == queue_view(
                        self.queues@[self.queue_select as int],
                    ));
                    if queue_state(&self.queues[self.queue_select as usize]).ready {
                        1
                    } else {
                        0
                    }
                } else {
                    0
                }
            } else if offset == 0x60 {
                interrupt_status_register(self.interrupt_status.load())
            } else if offset == 0x70 {
                self.driver_status
            } else if offset == 0xfc {
                self.config_generation
            } else if 0xb0 <= offset && offset <= 0xbc {
                // For no SHM region or invalid region the kernel looks for length of -1
                let regions = self.device.get_shm_regions();
                assert(self@.device.exposes_shm_regions(regions));
                shm_register(offset, shm_window(&regions, self.shm_region_select))
            } else {
                return ;
            };
            assert(self@.reads_as(offset, v));
            write_u32_le(data, v);
            assert(data@ =~= le_bytes(v));
        } else if 0x100 <= offset && offset <= 0xfff {
            self.device.read_config(offset - 0x100, data);
        }
    }
}


/// Whether a write of four bytes at `offset` configures the selected queue.
pub open spec fn is_queue_register(offset: u64) -> bool {
    offset == 0x38 || offset == 0x44 || offset == 0x80 || offset == 0x84 || offset == 0x90
        || offset == 0x94 || offset == 0xa0 || offset == 0xa4
}

/// The configuration of a queue after `value` was written to its register
/// at `offset`: the size (its lower 16 bits) at 0x38, readiness (a value of
/// one) at 0x44, and the lower and upper halves of the addresses of the
/// descriptor table, the available ring and the used ring from 0x80 on.
pub open spec fn queue_written(queue: QueueView, offset: u64, value: u32) -> QueueView {
    if offset == 0x38 {
        queue.with_size(value as u16)
    } else if offset == 0x44 {
        QueueView { ready: value == 1, ..queue }
    } else if offset == 0x80 {
        queue.with_desc_table(Some(value), None)
    } else if offset == 0x84 {
        queue.with_desc_table(None, Some(value))
    } else if offset == 0x90 {
        queue.with_avail_ring(Some(value), None)
    } else if offset == 0x94 {
        queue.with_avail_ring(None, Some(value))
    } else if offset == 0xa0 {
        queue.with_used_ring(Some(value), None)
    } else if offset == 0xa4 {
        queue.with_used_ring(None, Some(value))
    } else {
        queue
    }
}

impl<D: VirtioDevice<VirtioInterruptIntx<S>>, S: InterruptSourceGroup> MmioView<D, S> {
    /// The transport after a write of `value` to a register of the selected
    /// queue: a write that selects no queue is dropped.
    pub open spec fn queue_register_written(self, offset: u64, value: u32) -> Self {
        match self.selected_queue() {
            Some(queue) => MmioView {
                queues: self.queues.update(
                    self.queue_select as int,
                    queue_written(queue, offset, value),
                ),
                ..self
            },
            None => self,
        }
    }

    /// The first half of a write: what the registers make of it, before the
    /// driver status is looked at. Only writes of four bytes reach the
    /// control window; the configuration window is the device's; anything
    /// else is dropped.
    pub open spec fn register_written(self, offset: u64, data: Seq<u8>, after: Self) -> bool {
        if offset <= 0xff && data.len() == 4 {
            let value = from_le_bytes(data);
            if offset == 0x14 {
                after == (MmioView { features_select: value, ..self })
            } else if offset == 0x20 {
                if self.acked_features_select < 2 {
                    &&& self.device.acks_features(
                        spec_acked_features(value, self.acked_features_select),
                        &after.device,
                    )
                    &&& after == (MmioView { device: after.device, ..self })
                } else {
                    after == self
                }
            } else if offset == 0x24 {
                after == (MmioView { acked_features_select: value, ..self })
            } else if offset == 0x30 {
                after == (MmioView { queue_select: value, ..self })
            } else if is_queue_register(offset) {
                after == self.queue_register_written(offset, value)
            } else if offset == 0x70 {
                after == (MmioView { driver_status: value, ..self })
            } else if offset == 0xac {
                after == (MmioView { shm_region_select: value, ..self })
            } else {
                after == self
            }
        } else if 0x100 <= offset <= 0xfff {
            &&& self.device.writes_config((offset - 0x100) as u64, data, &after.device)
            &&& after == (MmioView { device: after.device, ..self })
        } else {
            after == self
        }
    }

    /// The activation that is prepared for this transport, with the given
    /// barrier: it takes the adapter of the transport and the queues that
    /// are marked ready.
    pub open spec fn prepared_activation(self, barrier: Option<Arc<Barrier>>) -> ActivatorView<S> {
        ActivatorView {
            interrupt: self.virtio_interrupt,
            memory: Some(self.memory),
            queues: ready_queues(self.queues, self.queue_evts, self.queues.len() as int),
            barrier,
            id: self.id,
            pending: true,
        }
    }

    /// The transport after its device was asked to reset and gave
    /// `interrupt` back. A device that gives its adapter back was reset:
    /// the adapter is installed again, the device counts as stopped, every
    /// queue is as it was created and the first queue is selected. A device
    /// that gives nothing back cannot be reset: the driver reads a status
    /// of failure and the device runs on.
    pub open spec fn reset_done(
        self,
        interrupt: Option<Arc<VirtioInterruptIntx<S>>>,
        device: D,
    ) -> Self {
        match interrupt {
            Some(adapter) => MmioView {
                device,
                virtio_interrupt: Some(adapter),
                device_activated: false,
                queues: self.queues.map_values(|q: QueueView| QueueView::fresh(q.max_size)),
                queue_select: 0,
                ..self
            },
            None => MmioView { device, driver_status: DEVICE_FAILED, ..self },
        }
    }

    /// Whether `invalid` may be what the validity probe of a preparation
    /// found: indices of queues that are marked ready, in rising order.
    /// Which of the ready queues are not valid is for guest memory to say.
    pub open spec fn probed(self, invalid: Seq<usize>) -> bool {
        &&& forall|k: int|
            0 <= k < invalid.len() ==> (#[trigger] invalid[k]) < self.queues.len()
                && self.queues[invalid[k] as int].ready
        &&& forall|j: int, k: int| 0 <= j < k < invalid.len() ==> invalid[j] < invalid[k]
    }

    /// The second half of a write: what the driver status asks for. At most
    /// one thing happens. If the device is to be started, the ready queues
    /// are probed, an activation is prepared and queued, and a barrier is
    /// handed out. If the device is to be reset, it is asked to.
    pub open spec fn status_acted(self, after: Self, barrier: Option<Arc<Barrier>>) -> bool {
        if self.needs_activation() {
            &&& barrier is Some
            &&& self.probed(after.invalid_queues)
            &&& after == (MmioView {
                virtio_interrupt: None,
                pending_activations: self.pending_activations.push(
                    self.prepared_activation(barrier),
                ),
                invalid_queues: after.invalid_queues,
                ..self
            })
        } else if self.needs_reset() {
            &&& barrier is None
            &&& exists|interrupt: Option<Arc<VirtioInterruptIntx<S>>>| #[trigger]
                self.device.resets(interrupt, &after.device) && after == self.reset_done(
                    interrupt,
                    after.device,
                )
        } else {
            &&& barrier is None
            &&& after == self
        }
    }

    /// What a write makes of a transport: the registers take the write,
    /// then the driver status is acted on.
    pub open spec fn written(
        self,
        offset: u64,
        data: Seq<u8>,
        after: Self,
        barrier: Option<Arc<Barrier>>,
    ) -> bool {
        exists|mid: Self| #[trigger]
            self.register_written(offset, data, mid) && mid.status_acted(after, barrier)
    }
}

/// Notes what the validity probe said of the ready queue `queue_index`: a
/// queue that is not valid joins the list, a valid one leaves it as it is.
pub fn note_probe(invalid: &mut Vec<usize>, queue_index: usize, valid: bool)
    ensures
        final(invalid)@ == if valid {
            old(invalid)@
        } else {
            old(invalid)@.push(queue_index)
        },
{
    if !valid {
        invalid.push(queue_index);
    }
}

/// Puts every queue back to what it was created as.
fn reset_queues(queues: &mut Vec<Queue>)
    ensures
        final(queues)@.len() == old(queues)@.len(),
        forall|j: int|
            0 <= j < old(queues)@.len() ==> queue_view(#[trigger] final(queues)@[j])
                == QueueView::fresh(queue_view(old(queues)@[j]).max_size),
{
    let mut i: usize = 0;
    while i < queues.len()
        invariant
            i <= queues.len(),
            queues@.len() == old(queues)@.len(),
            forall|j: int|
                0 <= j < i ==> queue_view(#[trigger] queues@[j]) == QueueView::fresh(
                    queue_view(old(queues)@[j]).max_size,
                ),
            forall|j: int| i <= j < queues@.len() ==> #[trigger] queues@[j] == old(queues)@[j],
        decreases queues.len() - i,
    {
        queue_reset(&mut queues[i]);
        i += 1;
    }
}

impl<D: VirtioDevice<VirtioInterruptIntx<S>>, S: InterruptSourceGroup> VirtioMmioDevice<D, S> {
    /// Writes `value` to the register at `offset` of the selected queue.
    fn write_queue_register(&mut self, offset: u64, value: u32)
        requires
            old(self).wf(),
            is_queue_register(offset),
        ensures
            final(self).wf(),
            final(self)@ == old(self)@.queue_register_written(offset, value),
    {
        if (self.queue_select as usize) < self.queues.len() {
            let i = self.queue_select as usize;
            let ghost before = queue_view(self.queues@[i as int]);
            assert(self@.queues[i as int] == before);
            assert(before.wf());
            if offset == 0x38 {
                queue_set_size(
                    &mut self.queues[i],
                    #[verifier::truncate]
                    (value as u16),
                );
            } else if offset == 0x44 {
                queue_set_ready(&mut self.queues[i], value == 1);
            } else if offset == 0x80 {
                queue_set_desc_table_address(&mut self.queues[i], Some(value), None);
            } else if offset == 0x84 {
                queue_set_desc_table_address(&mut self.queues[i], None, Some(value));
            } else if offset == 0x90 {
                queue_set_avail_ring_address(&mut self.queues[i], Some(value), None);
            } else if offset == 0x94 {
                queue_set_avail_ring_address(&mut self.queues[i], None, Some(value));
            } else if offset == 0xa0 {
                queue_set_used_ring_address(&mut self.queues[i], Some(value), None);
            } else {
                queue_set_used_ring_address(&mut self.queues[i], None, Some(value));
            }
            proof {
                let after = queue_written(before, offset, value);
                assert(queue_view(self.queues@[i as int]) == after);
                assert(self@.queues =~= old(self)@.queues.update(i as int, after));
                assert(self@.pending_activations =~= old(self)@.pending_activations);
                assert forall|j: int| 0 <= j < self@.queues.len() implies (
                #[trigger] self@.queues[j]).wf() by {
                    if j != i {
                        assert(self@.queues[j] == old(self)@.queues[j]);
                    }
                }
            }
        }
    }

    /// Prepares the activation of the device: the adapter leaves the
    /// transport, and the queues that are marked ready are copied together
    /// with their events. Each of them is probed for validity first; one
    /// that is not valid is noted and handed on all the same.
    fn prepare_activator(&mut self, barrier: Option<Arc<Barrier>>) -> (activator:
        VirtioMmioDeviceActivator<S>)
        requires
            old(self).wf(),
        ensures
            final(self).wf(),
            activator@ == old(self)@.prepared_activation(barrier),
            old(self)@.probed(final(self)@.invalid_queues),
            final(self)@ == (MmioView {
                virtio_interrupt: None,
                invalid_queues: final(self)@.invalid_queues,
                ..old(self)@
            }),
    {
        let mut queues: Vec<ActivatedQueue> = Vec::new();
        let mut invalid: Vec<usize> = Vec::new();
        let mut queue_index: usize = 0;
        while queue_index < self.queues.len()
            invariant
                *self == *old(self),
                self.wf(),
                queue_index <= self.queues.len(),
                forall|k: int|
                    0 <= k < invalid@.len() ==> (#[trigger] invalid@[k]) < queue_index
                        && self@.queues[invalid@[k] as int].ready,
                forall|j: int, k: int| 0 <= j < k < invalid@.len() ==> invalid@[j] < invalid@[k],
                activated_queues_view(queues@) == ready_queues(
                    self@.queues,
                    self@.queue_evts,
                    queue_index as int,
                ),
            decreases self.queues.len() - queue_index,
        {
            assert(self@.queues[queue_index as int] == queue_view(
                self.queues@[queue_index as int],
            ));
            if queue_state(&self.queues[queue_index]).ready {
                assert(self@.queues[queue_index as int].wf());
                let valid = queue_is_valid(&self.queues[queue_index], &self.memory);
                note_probe(&mut invalid, queue_index, valid);
                let queue = match queue_try_clone(&self.queues[queue_index]) {
                    Some(queue) => queue,
                    None => vstd::pervasive::unreached(),
                };
                let ghost before = queues@;
                queues.push((queue_index, queue, self.queue_evts[queue_index].clone()));
                assert(activated_queues_view(queues@) =~= activated_queues_view(before).push(
                    (
                        queue_index,
                        self@.queues[queue_index as int],
                        self@.queue_evts[queue_index as int],
                    ),
                ));
            }
            queue_index += 1;
        }
        let activator = VirtioMmioDeviceActivator {
            interrupt: self.virtio_interrupt.take(),
            memory: Some(guest_memory_clone(&self.memory)),
            queues: Some(queues),
            barrier,
            id: self.id.clone(),
        };
        self.invalid_queues = invalid;
        proof {
            assert(self@.queues =~= old(self)@.queues);
            assert(self@.pending_activations =~= old(self)@.pending_activations);
        }
        activator
    }

    /// Asks the device to reset and takes what it gives back.
    fn reset_device(&mut self)
        requires
            old(self).wf(),
        ensures
            final(self).wf(),
            exists|interrupt: Option<Arc<VirtioInterruptIntx<S>>>| #[trigger]
                old(self)@.device.resets(interrupt, &final(self)@.device) && final(self)@ == old(self)@.reset_done(interrupt, final(self)@.device),
    {
        let returned = self.device.reset();
        let ghost interrupt = returned;
        assert(old(self)@.device.resets(interrupt, &self@.device));
        match returned {
            Some(virtio_interrupt) => {
                // Upon reset the device returns its interrupt adapter
                self.virtio_interrupt = Some(virtio_interrupt);
                self.device_activated = false;
                // Reset queue readiness, queue sizes and the selected queue
                reset_queues(&mut self.queues);
                self.queue_select = 0;
                proof {
                    assert(self@.queues =~= old(self)@.queues.map_values(
                        |q: QueueView| QueueView::fresh(q.max_size),
                    ));
                    assert(self@.pending_activations =~= old(self)@.pending_activations);
                    assert forall|j: int| 0 <= j < self@.queues.len() implies (
                    #[trigger] self@.queues[j]).wf() by {
                        assert(old(self)@.queues[j].wf());
                        crate::queue::lemma_fresh_wf(old(self)@.queues[j].max_size);
                    }
                    assert(self@ == old(self)@.reset_done(interrupt, self@.device));
                }
            },
            None => {
                self.driver_status = DEVICE_FAILED;
                proof {
                    assert(self@.queues =~= old(self)@.queues);
                    assert(self@.pending_activations =~= old(self)@.pending_activations);
                    assert(self@ == old(self)@.reset_done(interrupt, self@.device));
                }
            },
        }
    }

    /// Takes a write of the guest at `offset` past the base of the
    /// transport. The registers take the write first; then the driver
    /// status is acted on. A barrier is returned exactly when an activation
    /// was queued: the caller waits on it before it hands the transport the
    /// next access.
    pub fn write(&mut self, _base: u64, offset: u64, data: &[u8]) -> (barrier: Option<
        Arc<Barrier>,
    >)
        requires
            old(self).wf(),
        ensures
            final(self).wf(),
            old(self)@.written(offset, data@, final(self)@, barrier),
    {
        if offset <= 0xff && data.len() == 4 {
            let v = read_u32_le(data);
            if offset == 0x14 {
                self.features_select = v;
            } else if offset == 0x20 {
                if self.acked_features_select < 2 {
                    self.device.ack_features(acked_features(v, self.acked_features_select));
                }
            } else if offset == 0x24 {
                self.acked_features_select = v;
            } else if offset == 0x30 {
                self.queue_select = v;
            } else if offset == 0x38 || offset == 0x44 || offset == 0x80 || offset == 0x84
                || offset == 0x90 || offset == 0x94 || offset == 0xa0 || offset == 0xa4 {
                self.write_queue_register(offset, v);
            } else if offset == 0x64 {
                self.interrupt_status.fetch_and(acknowledge_mask(v));
            } else if offset == 0x70 {
                self.driver_status = v;
            } else if offset == 0xac {
                self.shm_region_select = v;
            }
        } else if 0x100 <= offset && offset <= 0xfff {
            self.device.write_config(offset - 0x100, data);
        }
        let ghost mid = self@;
        proof {
            assert(mid.queues =~= old(self)@.queues || (offset <= 0xff && data@.len() == 4
                && is_queue_register(offset)));
            assert(mid.pending_activations =~= old(self)@.pending_activations);
            assert(old(self)@.register_written(offset, data@, mid));
        }

        // Try and activate the device if the driver status has changed
        if !self.device_activated && is_driver_ready(self.driver_status) {
            let barrier = Arc::new(new_barrier());
            let activator = self.prepare_activator(Some(barrier.clone()));
            self.pending_activations.push(activator);
            proof {
                assert(self@.queues =~= mid.queues);
                assert(self@.pending_activations =~= mid.pending_activations.push(
                    mid.prepared_activation(Some(barrier)),
                ));
                assert(mid.status_acted(self@, Some(barrier)));
            }
            return Some(barrier);
        }
        // Device has been reset by the driver

        if self.device_activated && is_driver_init(self.driver_status) {
            self.reset_device();
        }
        assert(mid.status_acted(self@, None));
        None
    }
}


/// The state of a transport that a snapshot records.
pub struct VirtioMmioDeviceState {
    pub device_activated: bool,
    pub features_select: u32,
    pub acked_features_select: u32,
    pub queue_select: u32,
    pub interrupt_status: usize,
    pub driver_status: u32,
    pub queues: Vec<QueueState>,
    pub shm_region_select: u32,
}

/// Whether a recorded queue can be restored: its rings are aligned as the
/// rings of a queue must be.
pub open spec fn restorable(state: QueueState) -> bool {
    &&& crate::queue::desc_table_aligned(state.desc_table)
    &&& crate::queue::avail_ring_aligned(state.avail_ring)
    &&& crate::queue::used_ring_aligned(state.used_ring)
}

/// Whether each of the first `n` recorded queues can be restored.
pub open spec fn all_restorable(states: Seq<QueueState>, n: int) -> bool {
    forall|i: int| 0 <= i < n ==> restorable(#[trigger] states[i])
}

/// The configuration of a queue after it was restored from the record
/// `state`, its positions aside: the maximum size stays, a size the queue
/// cannot have is ignored, and readiness and the rings are what was
/// recorded.
pub open spec fn configured(queue: QueueView, state: QueueState) -> QueueView {
    QueueView {
        ready: state.ready,
        desc_table: state.desc_table,
        avail_ring: state.avail_ring,
        used_ring: state.used_ring,
        ..queue.with_size(state.size)
    }
}

/// How far the restore of a queue gets on a record: size and readiness are
/// taken, then the rings in the order of descriptor table, available ring
/// and used ring up to the first that is not aligned.
pub open spec fn attempted(queue: QueueView, state: QueueState) -> QueueView {
    let sized = QueueView { ready: state.ready, ..queue.with_size(state.size) };
    if !crate::queue::desc_table_aligned(state.desc_table) {
        sized
    } else if !crate::queue::avail_ring_aligned(state.avail_ring) {
        QueueView { desc_table: state.desc_table, ..sized }
    } else if !crate::queue::used_ring_aligned(state.used_ring) {
        QueueView { desc_table: state.desc_table, avail_ring: state.avail_ring, ..sized }
    } else {
        configured(queue, state)
    }
}

/// A queue whose two positions resume at the index of its used ring.
pub open spec fn resumed(queue: QueueView, used_idx: u16) -> QueueView {
    QueueView { next_avail: used_idx, next_used: used_idx, ..queue }
}

/// Whether `after` is the queue `before` restored from `state`: the record
/// can be restored, the configuration is that of the record, and both
/// positions stand at one index, the one that was read from the used ring.
pub open spec fn queue_restored(before: QueueView, state: QueueState, after: QueueView) -> bool {
    restorable(state) && after == resumed(configured(before, state), after.next_avail)
}

/// Whether the restore of the queues stopped at the `k`-th with the error
/// `e`: the queues before it are restored and those after it untouched. If
/// the record of the `k`-th cannot be restored, the error is that of a ring
/// address and the queue is as far as the restore got; otherwise the queue
/// is configured and the index of its used ring could not be read.
pub open spec fn stopped_at(
    before: Seq<QueueView>,
    states: Seq<QueueState>,
    after: Seq<QueueView>,
    e: Error,
    k: int,
) -> bool {
    &&& 0 <= k < before.len()
    &&& forall|j: int| 0 <= j < k ==> queue_restored(before[j], states[j], #[trigger] after[j])
    &&& forall|j: int| k < j < before.len() ==> #[trigger] after[j] == before[j]
    &&& if restorable(states[k]) {
        e == Error::QueueRingIndex && after[k] == configured(before[k], states[k])
    } else {
        e == Error::QueueAddressSet && after[k] == attempted(before[k], states[k])
    }
}

/// What the restore of the queues from their records makes of them. The
/// queues are restored in order, and the restore stops at the first queue
/// whose record cannot be restored or whose used index cannot be read.
pub open spec fn queues_restored(
    before: Seq<QueueView>,
    states: Seq<QueueState>,
    after: Seq<QueueView>,
    r: Result<(), Error>,
) -> bool {
    &&& after.len() == before.len()
    &&& match r {
        Ok(()) => forall|j: int|
            0 <= j < before.len() ==> queue_restored(before[j], states[j], #[trigger] after[j]),
        Err(e) => exists|k: int| #[trigger] stopped_at(before, states, after, e, k),
    }
}

/// The configurations of a run of queues.
pub open spec fn queue_views(queues: Seq<Queue>) -> Seq<QueueView> {
    queues.map_values(|q: Queue| queue_view(q))
}

impl<D: VirtioDevice<VirtioInterruptIntx<S>>, S: InterruptSourceGroup> MmioView<D, S> {
    /// Whether `state` records this transport. The interrupt status is not
    /// part of the transport and is recorded as its cell holds it.
    pub open spec fn recorded_as(self, state: VirtioMmioDeviceState) -> bool {
        &&& state.device_activated == self.device_activated
        &&& state.features_select == self.features_select
        &&& state.acked_features_select == self.acked_features_select
        &&& state.queue_select == self.queue_select
        &&& state.driver_status == self.driver_status
        &&& state.shm_region_select == self.shm_region_select
        &&& state.queues@ == self.queues.map_values(|q: QueueView| q.state())
    }

    /// What `set_state` makes of a transport. The registers are taken from
    /// the record; the queues are restored in order; and if that went
    /// through, the selected shared-memory region is taken last. The
    /// interrupt status goes to its cell.
    pub open spec fn state_set(
        self,
        state: VirtioMmioDeviceState,
        after: Self,
        r: Result<(), Error>,
    ) -> bool {
        &&& after.id == self.id
        &&& after.device == self.device
        &&& after.interrupt_status == self.interrupt_status
        &&& after.virtio_interrupt == self.virtio_interrupt
        &&& after.config_generation == self.config_generation
        &&& after.queue_evts == self.queue_evts
        &&& after.memory == self.memory
        &&& after.activate_barrier == self.activate_barrier
        &&& after.pending_activations == self.pending_activations
        &&& after.invalid_queues == self.invalid_queues
        &&& after.device_activated == state.device_activated
        &&& after.features_select == state.features_select
        &&& after.acked_features_select == state.acked_features_select
        &&& after.queue_select == state.queue_select
        &&& after.driver_status == state.driver_status
        &&& queues_restored(self.queues, state.queues@, after.queues, r)
        &&& after.shm_region_select == if r is Ok {
            state.shm_region_select
        } else {
            self.shm_region_select
        }
    }
}

/// Takes the configuration of a queue from its record: size, readiness and
/// the three rings. A ring address that is not aligned as its ring requires
/// stops it; the queue is then as far as it got.
pub fn configure_from(queue: &mut Queue, state: &QueueState) -> (r: Result<(), Error>)
    ensures
        restorable(*state) ==> r is Ok && queue_view(*final(queue)) == configured(
            queue_view(*old(queue)),
            *state,
        ),
        !restorable(*state) ==> r == Err::<(), Error>(Error::QueueAddressSet) && queue_view(
            *final(queue),
        ) == attempted(queue_view(*old(queue)), *state),
{
    queue_set_size(queue, state.size);
    queue_set_ready(queue, state.ready);
    if !queue_try_set_desc_table_address(queue, state.desc_table) {
        return Err(Error::QueueAddressSet);
    }
    if !queue_try_set_avail_ring_address(queue, state.avail_ring) {
        return Err(Error::QueueAddressSet);
    }
    if !queue_try_set_used_ring_address(queue, state.used_ring) {
        return Err(Error::QueueAddressSet);
    }
    Ok(())
}

/// Lets a queue resume at the index of its used ring, as it was read from
/// guest memory: both the position in the available ring and that in the
/// used ring are set to it. Without an index, because the read failed, the
/// queue stays as it is.
pub fn resume_at(queue: &mut Queue, used_idx: Option<u16>) -> (r: Result<(), Error>)
    ensures
        used_idx matches Some(i) ==> r is Ok && queue_view(*final(queue)) == resumed(
            queue_view(*old(queue)),
            i,
        ),
        used_idx is None ==> r == Err::<(), Error>(Error::QueueRingIndex) && queue_view(
            *final(queue),
        ) == queue_view(*old(queue)),
{
    match used_idx {
        Some(i) => {
            queue_set_next_avail(queue, i);
            queue_set_next_used(queue, i);
            Ok(())
        },
        None => Err(Error::QueueRingIndex),
    }
}

/// Restores one queue from its record: the configuration is taken, then
/// the index of the used ring is read from guest memory and the queue
/// resumes there.
fn restore_queue(queue: &mut Queue, state: &QueueState, mem: &GuestMemory) -> (r: Result<
    (),
    Error,
>)
    requires
        queue_view(*old(queue)).wf(),
    ensures
        queue_view(*final(queue)).wf(),
        r is Ok ==> queue_restored(queue_view(*old(queue)), *state, queue_view(*final(queue))),
        r matches Err(e) ==> if restorable(*state) {
            e == Error::QueueRingIndex && queue_view(*final(queue)) == configured(
                queue_view(*old(queue)),
                *state,
            )
        } else {
            e == Error::QueueAddressSet && queue_view(*final(queue)) == attempted(
                queue_view(*old(queue)),
                *state,
            )
        },
{
    match configure_from(queue, state) {
        Ok(()) => {},
        Err(e) => {
            return Err(e);
        },
    }
    let used_idx = queue_used_idx(queue, mem);
    resume_at(queue, used_idx)
}

/// Restores the queues in order from their records and stops at the first
/// that fails.
fn restore_queues(queues: &mut Vec<Queue>, states: &Vec<QueueState>, mem: &GuestMemory) -> (r:
    Result<(), Error>)
    requires
        states@.len() >= old(queues)@.len(),
        forall|i: int| 0 <= i < old(queues)@.len() ==> queue_view(#[trigger] old(queues)@[i]).wf(),
    ensures
        final(queues)@.len() == old(queues)@.len(),
        forall|i: int| 0 <= i < old(queues)@.len() ==> queue_view(#[trigger] final(queues)@[i]).wf(),
        queues_restored(queue_views(old(queues)@), states@, queue_views(final(queues)@), r),
{
    let ghost before = queue_views(queues@);
    let mut i: usize = 0;
    while i < queues.len()
        invariant
            i <= queues.len(),
            queues@.len() == old(queues)@.len(),
            states@.len() >= queues@.len(),
            before == queue_views(old(queues)@),
            forall|j: int| 0 <= j < queues@.len() ==> queue_view(#[trigger] queues@[j]).wf(),
            forall|j: int|
                0 <= j < i ==> queue_restored(
                    before[j],
                    states@[j],
                    queue_view(#[trigger] queues@[j]),
                ),
            forall|j: int| i <= j < queues@.len() ==> #[trigger] queues@[j] == old(queues)@[j],
        decreases queues.len() - i,
    {
        match restore_queue(&mut queues[i], &states[i], mem) {
            Ok(()) => {},
            Err(e) => {
                proof {
                    let after = queue_views(queues@);
                    assert forall|j: int| 0 <= j < i implies queue_restored(
                        before[j],
                        states@[j],
                        #[trigger] after[j],
                    ) by {
                        assert(after[j] == queue_view(queues@[j]));
                    }
                    assert forall|j: int| i < j < before.len() implies #[trigger] after[j]
                        == before[j] by {
                        assert(queues@[j] == old(queues)@[j]);
                    }
                    assert(after[i as int] == queue_view(queues@[i as int]));
                    assert(stopped_at(before, states@, after, e, i as int));
                }
                return Err(e);
            },
        }
        i += 1;
    }
    proof {
        let after = queue_views(queues@);
        assert forall|j: int| 0 <= j < before.len() implies queue_restored(
            before[j],
            states@[j],
            #[trigger] after[j],
        ) by {
            assert(after[j] == queue_view(queues@[j]));
        }
    }
    Ok(())
}

impl<D: VirtioDevice<VirtioInterruptIntx<S>>, S: InterruptSourceGroup> VirtioMmioDevice<D, S> {
    /// Records the state of the transport for a snapshot.
    pub fn state(&self) -> (state: VirtioMmioDeviceState)
        ensures
            self@.recorded_as(state),
    {
        let mut queues: Vec<QueueState> = Vec::new();
        let mut i: usize = 0;
        while i < self.queues.len()
            invariant
                i <= self.queues.len(),
                queues@.len() == i,
                forall|j: int|
                    0 <= j < i ==> #[trigger] queues@[j] == queue_view(self.queues@[j]).state(),
            decreases self.queues.len() - i,
        {
            queues.push(queue_state(&self.queues[i]));
            i += 1;
        }
        assert(queues@ =~= self@.queues.map_values(|q: QueueView| q.state()));
        VirtioMmioDeviceState {
            device_activated: self.device_activated,
            features_select: self.features_select,
            acked_features_select: self.acked_features_select,
            queue_select: self.queue_select,
            interrupt_status: self.interrupt_status.load(),
            driver_status: self.driver_status,
            shm_region_select: self.shm_region_select,
            queues,
        }
    }

    /// Puts a recorded state back into the transport. The record holds a
    /// queue for each queue of the transport. The registers are taken from
    /// the record and the interrupt status goes to its cell. Then the queues
    /// are restored in order: each takes its configuration from its record
    /// and resumes, with both its positions, at the index of its used ring
    /// as guest memory holds it. The restore stops at the first queue whose
    /// record holds a ring address that is not aligned, or whose used index
    /// cannot be read.
    pub fn set_state(&mut self, state: &VirtioMmioDeviceState) -> (r: Result<(), Error>)
        requires
            old(self).wf(),
            state.queues@.len() >= old(self)@.queues.len(),
        ensures
            final(self).wf(),
            old(self)@.state_set(*state, final(self)@, r),
            old(self)@.queues.len() == 0 ==> r is Ok,
            old(self)@.queues.len() > 0 && !restorable(state.queues@[0]) ==> r == Err::<(), Error>(
                Error::QueueAddressSet,
            ),
            r == Err::<(), Error>(Error::QueueAddressSet) ==> !all_restorable(
                state.queues@,
                old(self)@.queues.len() as int,
            ),
    {
        self.device_activated = state.device_activated;
        self.features_select = state.features_select;
        self.acked_features_select = state.acked_features_select;
        self.queue_select = state.queue_select;
        self.interrupt_status.store(state.interrupt_status);
        self.driver_status = state.driver_status;

        // Update virtqueues indexes for both available and used rings.
        assert forall|i: int| 0 <= i < self.queues@.len() implies queue_view(
            #[trigger] self.queues@[i],
        ).wf() by {
            assert(old(self)@.queues[i].wf());
        }
        let r = restore_queues(&mut self.queues, &state.queues, &self.memory);
        proof {
            assert(self@.pending_activations =~= old(self)@.pending_activations);
            assert(self@.queues =~= queue_views(self.queues@));
            assert(old(self)@.queues =~= queue_views(old(self).queues@));
            assert forall|i: int| 0 <= i < self@.queues.len() implies (
            #[trigger] self@.queues[i]).wf() by {
                assert(queue_view(self.queues@[i]).wf());
            }
        }
        if r.is_err() {
            proof {
                assert(old(self)@.state_set(*state, self@, r));
                crate::transport::laws::lemma_restore_errors(old(self)@, *state, self@, r);
            }
            return r;
        }
        self.shm_region_select = state.shm_region_select;
        proof {
            assert(self@.pending_activations =~= old(self)@.pending_activations);
            assert(self@.queues =~= queue_views(self.queues@));
            assert(self@.invalid_queues =~= old(self)@.invalid_queues);
            assert(old(self)@.state_set(*state, self@, r));
            crate::transport::laws::lemma_restore_errors(old(self)@, *state, self@, r);
        }
        r
    }
}

/// Errors of a restore.
#[derive(Clone, Copy, Debug, PartialEq, Eq, Structural)]
pub enum RestoreError {
    /// The snapshot holds no section for this transport.
    MissingSection,
    /// The recorded state could not be put back.
    SetState(Error),
    /// The device was running when the snapshot was taken and could not be
    /// started again.
    Activate(ActivateError),
}

impl<S: InterruptSourceGroup> VirtioMmioDeviceActivator<S> {
    /// The barrier on which the dispatcher waits for this activation. It is
    /// handed out once; who takes it waits on it when the activation was
    /// made, whether or not the device accepted it.
    pub fn take_barrier(&mut self) -> (barrier: Option<Arc<Barrier>>)
        ensures
            barrier == old(self)@.barrier,
            final(self)@ == (ActivatorView { barrier: None, ..old(self)@ }),
    {
        self.barrier.take()
    }

    /// Whether the activation is still to be made and holds an adapter to
    /// hand to the device.
    pub fn is_armed(&self) -> (armed: bool)
        ensures
            armed == (self@.pending && self@.interrupt is Some),
    {
        self.interrupt.is_some() && self.memory.is_some() && self.queues.is_some()
    }

    /// Makes the activation: the device of `transport` is started on guest
    /// memory, with the adapter and the ready queues that were captured. If
    /// the device accepts, the transport counts it as running; if it
    /// refuses, its error is returned and the transport stays as it was but
    /// for what the device did to itself.
    pub fn activate<D: VirtioDevice<VirtioInterruptIntx<S>>>(
        &mut self,
        transport: &mut VirtioMmioDevice<D, S>,
    ) -> (r: ActivateResult)
        requires
            old(self)@.pending,
            old(self)@.interrupt is Some,
            old(transport).wf(),
        ensures
            final(transport).wf(),
            final(self)@ == (ActivatorView {
                interrupt: None,
                memory: None,
                queues: Seq::empty(),
                pending: false,
                ..old(self)@
            }),
            exists|queues: Vec<ActivatedQueue>| #[trigger]
                old(transport)@.device.activates(
                    old(self)@.memory->0,
                    old(self)@.interrupt->0,
                    queues,
                    r,
                    &final(transport)@.device,
                ) && activated_queues_view(queues@) == old(self)@.queues,
            final(transport)@ == (MmioView {
                device: final(transport)@.device,
                device_activated: r is Ok || old(transport)@.device_activated,
                ..old(transport)@
            }),
    {
        let mem = self.memory.take().unwrap();
        let interrupt = self.interrupt.take().unwrap();
        let queues = self.queues.take().unwrap();
        let r = transport.device.activate(mem, interrupt, queues);
        assert(old(transport)@.device.activates(mem, interrupt, queues, r, &transport@.device));
        if r.is_ok() {
            transport.device_activated = true;
        }
        proof {
            assert(transport@.queues =~= old(transport)@.queues);
            assert(transport@.pending_activations =~= old(transport)@.pending_activations);
        }
        r
    }
}

impl<D: VirtioDevice<VirtioInterruptIntx<S>>, S: InterruptSourceGroup> MmioView<D, S> {
    /// What an activation on the spot makes of a transport: the ready
    /// queues are probed, the adapter is handed to the device together with
    /// them, and the device counts as running if it accepts.
    pub open spec fn activated(self, after: Self, r: ActivateResult) -> bool {
        &&& exists|queues: Vec<ActivatedQueue>| #[trigger]
            self.device.activates(self.memory, self.virtio_interrupt->0, queues, r, &after.device)
                && activated_queues_view(queues@) == ready_queues(
                self.queues,
                self.queue_evts,
                self.queues.len() as int,
            )
        &&& self.probed(after.invalid_queues)
        &&& after == (MmioView {
            device: after.device,
            virtio_interrupt: None,
            device_activated: r is Ok || self.device_activated,
            invalid_queues: after.invalid_queues,
            ..self
        })
    }

    /// The second half of a restore, after the state was put back with the
    /// result `set`: a failure ends the restore; otherwise a device that
    /// was running under a ready driver is started again, and its refusal
    /// is the result.
    pub open spec fn restore_finished(
        self,
        set: Result<(), Error>,
        after: Self,
        r: Result<(), RestoreError>,
    ) -> bool {
        match set {
            Err(e) => after == self && r == Err::<(), RestoreError>(RestoreError::SetState(e)),
            Ok(()) => if self.device_activated && driver_ready(self.driver_status) {
                exists|activation: ActivateResult| #[trigger]
                    self.activated(after, activation) && r == match activation {
                        Ok(()) => Ok::<(), RestoreError>(()),
                        Err(e) => Err::<(), RestoreError>(RestoreError::Activate(e)),
                    }
            } else {
                after == self && r is Ok
            },
        }
    }

    /// What `restore` makes of a transport for which the snapshot holds
    /// `state`: the state is put back, and if it is that of a running
    /// device with a ready driver, the device is started again.
    pub open spec fn restored(
        self,
        state: VirtioMmioDeviceState,
        after: Self,
        r: Result<(), RestoreError>,
    ) -> bool {
        exists|mid: Self, set: Result<(), Error>| #[trigger]
            self.state_set(state, mid, set) && mid.restore_finished(set, after, r)
    }
}

impl<D: VirtioDevice<VirtioInterruptIntx<S>>, S: InterruptSourceGroup> VirtioMmioDevice<D, S> {
    /// Whether the device is to be started.
    pub fn needs_activation(&self) -> (needed: bool)
        ensures
            needed == self@.needs_activation(),
    {
        !self.device_activated && is_driver_ready(self.driver_status)
    }

    /// Starts the device on the spot. The transport holds the adapter to
    /// hand to the device.
    pub fn activate(&mut self) -> (r: ActivateResult)
        requires
            old(self).wf(),
            old(self)@.virtio_interrupt is Some,
        ensures
            final(self).wf(),
            old(self)@.activated(final(self)@, r),
    {
        let mut activator = self.prepare_activator(None);
        let r = activator.activate(self);
        r
    }

    /// Starts the device if it is to be started, and says whether it was.
    /// After a start the caller meets the dispatcher on `activate_barrier`.
    /// A transport that is to be started holds the adapter to hand to the
    /// device.
    pub fn maybe_activate(&mut self) -> (r: Result<bool, ActivateError>)
        requires
            old(self).wf(),
            old(self)@.needs_activation() ==> old(self)@.virtio_interrupt is Some,
        ensures
            final(self).wf(),
            !old(self)@.needs_activation() ==> r == Ok::<bool, ActivateError>(false) && final(self)@ == old(self)@,
            old(self)@.needs_activation() ==> exists|activation: ActivateResult| #[trigger]
                old(self)@.activated(final(self)@, activation) && match activation {
                    Ok(()) => r == Ok::<bool, ActivateError>(true),
                    Err(e) => r == Err::<bool, ActivateError>(e),
                },
    {
        if self.needs_activation() {
            let activation = self.activate();
            let ghost after = self@;
            assert(old(self)@.activated(after, activation));
            match activation {
                Ok(()) => {
                    self.device_activated = true;
                    proof {
                        assert(self@.queues =~= after.queues);
                        assert(self@.pending_activations =~= after.pending_activations);
                        assert(self@ == after);
                    }
                    Ok(true)
                },
                Err(e) => Err(e),
            }
        } else {
            Ok(false)
        }
    }

    /// The barrier on which `maybe_activate` meets the dispatcher: the one
    /// the transport was made with, the same at every call.
    pub fn activate_barrier(&self) -> (barrier: Arc<Barrier>)
        ensures
            barrier == self@.activate_barrier,
    {
        self.activate_barrier.clone()
    }

    /// Hands out the activations that writes have prepared, oldest first.
    pub fn take_pending_activations(&mut self) -> (pending: Vec<VirtioMmioDeviceActivator<S>>)
        ensures
            pending@.map_values(|a: VirtioMmioDeviceActivator<S>| a@) == old(self)@.pending_activations,
            final(self)@ == (MmioView { pending_activations: Seq::empty(), ..old(self)@ }),
    {
        let mut pending: Vec<VirtioMmioDeviceActivator<S>> = Vec::new();
        std::mem::swap(&mut pending, &mut self.pending_activations);
        proof {
            assert(self@.queues =~= old(self)@.queues);
            assert(self@.pending_activations =~= Seq::empty());
        }
        pending
    }

    /// Installs a new adapter, for the interrupt line `interrupt`.
    pub fn assign_interrupt(&mut self, interrupt: S)
        ensures
            final(self)@ == (MmioView {
                virtio_interrupt: final(self)@.virtio_interrupt,
                ..old(self)@
            }),
            final(self)@.virtio_interrupt matches Some(adapter) && adapter.sink() == interrupt
                && adapter.status() == final(self)@.interrupt_status,
    {
        self.virtio_interrupt = Some(
            Arc::new(VirtioInterruptIntx::new(self.interrupt_status.share(), interrupt)),
        );
        proof {
            assert(self@.queues =~= old(self)@.queues);
            assert(self@.pending_activations =~= old(self)@.pending_activations);
        }
    }

    /// Gets the list of queue events that must be triggered whenever the VM
    /// writes to the notify register. Each event must be triggered when the
    /// value being written equals the index of the event in this list.
    pub fn queue_evts(&self) -> (evts: &[Arc<EventFd>])
        ensures
            evts@ == self@.queue_evts,
    {
        self.queue_evts.as_slice()
    }

    /// Pausing a transport takes no action.
    pub fn pause(&mut self) -> (r: Result<(), RestoreError>)
        ensures
            r is Ok,
            *final(self) == *old(self),
    {
        Ok(())
    }

    /// Resuming a transport takes no action.
    pub fn resume(&mut self) -> (r: Result<(), RestoreError>)
        ensures
            r is Ok,
            *final(self) == *old(self),
    {
        Ok(())
    }

    /// The name of the transport.
    pub fn id(&self) -> (id: String)
        ensures
            id@ == self@.id,
    {
        self.id.clone()
    }

    /// Restores the transport from what a snapshot holds for it; without a
    /// recorded state there is nothing to restore from. The device is
    /// started again if it was running, which supposes that the device has
    /// restored its own state before.
    pub fn restore(&mut self, state: Option<&VirtioMmioDeviceState>) -> (r: Result<
        (),
        RestoreError,
    >)
        requires
            old(self).wf(),
            state matches Some(s) ==> s.queues@.len() >= old(self)@.queues.len() && ((
            s.device_activated && driver_ready(s.driver_status)) ==> old(self)@.virtio_interrupt is Some),
        ensures
            final(self).wf(),
            state is None ==> r == Err::<(), RestoreError>(RestoreError::MissingSection)
                && *final(self) == *old(self),
            state matches Some(s) ==> old(self)@.restored(*s, final(self)@, r),
    {
        match state {
            Some(state) => {
                // First restore the status of the virtqueues.
                let set = self.set_state(state);
                let ghost mid = self@;
                assert(old(self)@.state_set(*state, mid, set));
                match set {
                    Ok(()) => {},
                    Err(e) => {
                        let r = Err(RestoreError::SetState(e));
                        assert(mid.restore_finished(set, self@, r));
                        assert(old(self)@.restored(*state, self@, r));
                        return r;
                    },
                }
                // Then we can activate the device, as we know at this point that
                // the virtqueues are in the right state and the device is ready
                // to be activated.
                if self.device_activated && is_driver_ready(self.driver_status) {
                    let activation = self.activate();
                    assert(mid.activated(self@, activation));
                    let r = match activation {
                        Ok(()) => Ok(()),
                        Err(e) => Err(RestoreError::Activate(e)),
                    };
                    assert(mid.restore_finished(set, self@, r));
                    assert(old(self)@.restored(*state, self@, r));
                    return r;
                }
                let r = Ok(());
                assert(mid.restore_finished(set, self@, r));
                assert(old(self)@.restored(*state, self@, r));
                r
            },
            None => Err(RestoreError::MissingSection),
        }
    }
}

impl<D: VirtioDevice<VirtioInterruptIntx<S>>, S: InterruptSourceGroup> VirtioTransport for VirtioMmioDevice<
    D,
    S,
> {
    /// Every queue event, with the address of the notify register.
    fn ioeventfds(&self, base_addr: u64) -> (r: Vec<(&EventFd, u64)>)
        ensures
            r@.len() == self@.queue_evts.len(),
            forall|i: int|
                0 <= i < r@.len() ==> *(#[trigger] r@[i]).0 == *self@.queue_evts[i] && r@[i].1
                    == notify_address(base_addr),
    {
        ioeventfds_of(&self.queue_evts, base_addr)
    }
}

/// The address of the notify register of a transport at `base_addr`. An
/// address past the end of the address space wraps round.
pub open spec fn notify_address(base_addr: u64) -> u64 {
    ((base_addr + NOTIFY_REG_OFFSET) % 0x1_0000_0000_0000_0000) as u64
}

/// Pairs every event with the address of the notify register.
pub fn ioeventfds_of(queue_evts: &Vec<Arc<EventFd>>, base_addr: u64) -> (r: Vec<(&EventFd, u64)>)
    ensures
        r@.len() == queue_evts@.len(),
        forall|i: int|
            0 <= i < r@.len() ==> *(#[trigger] r@[i]).0 == *queue_evts@[i] && r@[i].1
                == notify_address(base_addr),
{
    let notify_base = base_addr.wrapping_add(NOTIFY_REG_OFFSET as u64);
    let mut r: Vec<(&EventFd, u64)> = Vec::new();
    let mut i: usize = 0;
    while i < queue_evts.len()
        invariant
            i <= queue_evts.len(),
            r@.len() == i,
            notify_base == notify_address(base_addr),
            forall|j: int|
                0 <= j < i ==> *(#[trigger] r@[j]).0 == *queue_evts@[j] && r@[j].1
                    == notify_base,
        decreases queue_evts.len() - i,
    {
        let event: &EventFd = &queue_evts[i];
        r.push((event, notify_base));
        i += 1;
    }
    r
}


impl<D: VirtioDevice<VirtioInterruptIntx<S>>, S: InterruptSourceGroup> VirtioMmioDevice<D, S> {
    /// The device behind the transport.
    pub fn device(&self) -> (device: &D)
        ensures
            *device == self@.device,
    {
        &self.device
    }

    /// Whether the device was started and not reset since.
    pub fn device_activated(&self) -> (activated: bool)
        ensures
            activated == self@.device_activated,
    {
        self.device_activated
    }

    /// Whether the transport holds the adapter that an activation hands to
    /// the device.
    pub fn has_interrupt(&self) -> (held: bool)
        ensures
            held == (self@.virtio_interrupt is Some),
    {
        self.virtio_interrupt.is_some()
    }

    /// The status the driver wrote last.
    pub fn driver_status(&self) -> (status: u32)
        ensures
            status == self@.driver_status,
    {
        self.driver_status
    }

    /// The feature page that reads show.
    pub fn features_select(&self) -> (select: u32)
        ensures
            select == self@.features_select,
    {
        self.features_select
    }

    /// The feature page that acknowledgements go to.
    pub fn acked_features_select(&self) -> (select: u32)
        ensures
            select == self@.acked_features_select,
    {
        self.acked_features_select
    }

    /// The queue that the queue registers speak of.
    pub fn queue_select(&self) -> (select: u32)
        ensures
            select == self@.queue_select,
    {
        self.queue_select
    }

    /// The shared-memory region that the window registers speak of.
    pub fn shm_region_select(&self) -> (select: u32)
        ensures
            select == self@.shm_region_select,
    {
        self.shm_region_select
    }

    pub fn config_generation(&self) -> (generation: u32)
        ensures
            generation == self@.config_generation,
    {
        self.config_generation
    }

    /// The ready queues that were found not to be valid when an activation
    /// was prepared last, by their indices.
    pub fn invalid_queues(&self) -> (invalid: &[usize])
        ensures
            invalid@ == self@.invalid_queues,
    {
        self.invalid_queues.as_slice()
    }

    /// The number of queues.
    pub fn queue_count(&self) -> (count: usize)
        ensures
            count == self@.queues.len(),
    {
        self.queues.len()
    }

    /// The interrupt status as its cell holds it now.
    pub fn interrupt_status(&self) -> usize {
        self.interrupt_status.load()
    }
}


} // verus!
