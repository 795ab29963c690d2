//! What the transport asks of the virtio device behind it.

use crate::queue::GuestMemory;
use std::sync::Arc;
use virtio_queue::Queue;
use vmm_sys_util::eventfd::EventFd;
use vstd::prelude::*;

verus! {

#[verifier::external_type_specification]
#[verifier::external_body]
pub struct ExEventFd(vmm_sys_util::eventfd::EventFd);

/// Driver status: the device was reset and nothing has been negotiated.
pub const DEVICE_INIT: u32 = 0x00;

/// Driver status: the guest has noticed the device.
pub const DEVICE_ACKNOWLEDGE: u32 = 0x01;

/// Driver status: the guest knows how to drive the device.
pub const DEVICE_DRIVER: u32 = 0x02;

/// Driver status: the driver is set up and ready to drive the device.
pub const DEVICE_DRIVER_OK: u32 = 0x04;

/// Driver status: the driver has acknowledged the features it understands.
pub const DEVICE_FEATURES_OK: u32 = 0x08;

/// Driver status: something went wrong and the device is given up.
pub const DEVICE_FAILED: u32 = 0x80;

/// One shared-memory region of a device, relative to the base of the list.
#[derive(Clone, Copy, Debug, PartialEq, Eq, Structural)]
pub struct VirtioSharedMemory {
    pub offset: u64,
    pub len: u64,
}

/// The shared-memory regions of a device.
pub struct VirtioSharedMemoryList {
    /// Guest physical address at which the regions start.
    pub addr: u64,
    pub region_list: Vec<VirtioSharedMemory>,
}

/// Why a device refused to be activated.
#[derive(Clone, Copy, Debug, PartialEq, Eq, Structural)]
pub enum ActivateError {
    /// The device could not be activated with what it was given.
    BadActivate,
}

pub type ActivateResult = Result<(), ActivateError>;

/// One queue as it is handed to a device on activation: its index, the
/// queue and the event the guest notifies it through.
pub type ActivatedQueue = (usize, Queue, Arc<EventFd>);

/// A virtio device behind a transport. `I` is the interrupt adapter the
/// transport hands it.
///
/// Each method has a predicate that says what it may give. A device that
/// says nothing more leaves them at `true`; the transport's contracts are
/// stated over them.
pub trait VirtioDevice<I> {
    open spec fn reports_device_type(&self, device_type: u32) -> bool {
        true
    }

    /// The virtio device type.
    fn device_type(&self) -> (device_type: u32)
        ensures
            self.reports_device_type(device_type),
    ;

    open spec fn declares_queue_max_sizes(&self, sizes: Seq<u16>) -> bool {
        true
    }

    /// The maximum size of each queue of the device.
    fn queue_max_sizes(&self) -> (sizes: &[u16])
        ensures
            self.declares_queue_max_sizes(sizes@),
    ;

    open spec fn offers_features(&self, features: u64) -> bool {
        true
    }

    /// The features the device offers.
    fn features(&self) -> (features: u64)
        ensures
            self.offers_features(features),
    ;

    open spec fn acks_features(&self, value: u64, after: &Self) -> bool {
        true
    }

    /// Acknowledges the features the driver selected.
    fn ack_features(&mut self, value: u64)
        ensures
            old(self).acks_features(value, final(self)),
    ;

    open spec fn reads_config(&self, offset: u64, before: Seq<u8>, after: Seq<u8>) -> bool {
        true
    }

    /// Reads the device configuration at `offset` into `data`.
    fn read_config(&self, offset: u64, data: &mut [u8])
        ensures
            final(data)@.len() == old(data)@.len(),
            self.reads_config(offset, old(data)@, final(data)@),
    ;

    open spec fn writes_config(&self, offset: u64, data: Seq<u8>, after: &Self) -> bool {
        true
    }

    /// Writes `data` to the device configuration at `offset`.
    fn write_config(&mut self, offset: u64, data: &[u8])
        ensures
            old(self).writes_config(offset, data@, final(self)),
    ;

    open spec fn activates(
        &self,
        mem: GuestMemory,
        interrupt_evt: Arc<I>,
        queues: Vec<ActivatedQueue>,
        result: ActivateResult,
        after: &Self,
    ) -> bool {
        true
    }

    /// Starts the device on the given queues.
    fn activate(&mut self, mem: GuestMemory, interrupt_evt: Arc<I>, queues: Vec<ActivatedQueue>) -> (result: ActivateResult)
        ensures
            old(self).activates(mem, interrupt_evt, queues, result, final(self)),
    ;

    open spec fn resets(&self, interrupt_evt: Option<Arc<I>>, after: &Self) -> bool {
        true
    }

    /// Stops the device and gives back the interrupt adapter it was
    /// activated with, or `None` if the device cannot be reset.
    fn reset(&mut self) -> (interrupt_evt: Option<Arc<I>>)
        ensures
            old(self).resets(interrupt_evt, final(self)),
    ;

    open spec fn exposes_shm_regions(&self, regions: Option<VirtioSharedMemoryList>) -> bool {
        true
    }

    /// The shared-memory regions of the device, if it has any.
    fn get_shm_regions(&self) -> (regions: Option<VirtioSharedMemoryList>)
        ensures
            self.exposes_shm_regions(regions),
    ;
}

} // verus!
