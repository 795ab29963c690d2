use std::sync::atomic::{AtomicUsize, Ordering};
use std::sync::Arc;

use virtio_mmio::device::{
    ActivateError, ActivateResult, ActivatedQueue, VirtioDevice, VirtioSharedMemory,
    VirtioSharedMemoryList, DEVICE_FAILED,
};
use virtio_mmio::interrupt::{
    InterruptSourceGroup, VirtioInterrupt, VirtioInterruptIntx, VirtioInterruptType,
};
use virtio_mmio::queue::{GuestMemory, QueueState};
use virtio_mmio::transport::mmio::{RestoreError, VirtioMmioDevice};
use virtio_mmio::transport::{Error, VirtioTransport};
use virtio_queue::QueueT;
use vm_memory::{Bytes, GuestAddress, GuestAddressSpace, GuestMemoryAtomic, GuestMemoryMmap};
use vmm_sys_util::eventfd::EventFd;

const FEATURES: u64 = 0x0123_4567_89ab_cdef;

struct Line {
    fired: Arc<AtomicUsize>,
    fail: bool,
}

impl InterruptSourceGroup for Line {
    type Failure = std::io::Error;

    fn trigger(&self, index: u32) -> Result<(), std::io::Error> {
        assert_eq!(index, 0);
        self.fired.fetch_add(1, Ordering::SeqCst);
        if self.fail {
            Err(std::io::Error::from_raw_os_error(5))
        } else {
            Ok(())
        }
    }
}

type Adapter = VirtioInterruptIntx<Line>;

struct Activation {
    queues: Vec<(usize, u16, u64, u64, u64, u16, u16)>,
    probe: u32,
}

struct Device {
    max_sizes: Vec<u16>,
    acked: Vec<u64>,
    config_writes: Vec<(u64, Vec<u8>)>,
    activations: Vec<Activation>,
    interrupt: Option<Arc<Adapter>>,
    resets: usize,
    can_reset: bool,
    refuse_activation: bool,
    regions: Option<(u64, Vec<(u64, u64)>)>,
}

impl Device {
    fn new(max_sizes: Vec<u16>) -> Device {
        Device {
            max_sizes,
            acked: Vec::new(),
            config_writes: Vec::new(),
            activations: Vec::new(),
            interrupt: None,
            resets: 0,
            can_reset: true,
            refuse_activation: false,
            regions: None,
        }
    }
}

impl VirtioDevice<Adapter> for Device {
    fn device_type(&self) -> u32 {
        26
    }

    fn queue_max_sizes(&self) -> &[u16] {
        &self.max_sizes
    }

    fn features(&self) -> u64 {
        FEATURES
    }

    fn ack_features(&mut self, value: u64) {
        self.acked.push(value);
    }

    fn read_config(&self, offset: u64, data: &mut [u8]) {
        for (i, byte) in data.iter_mut().enumerate() {
            *byte = (offset as u8).wrapping_add(i as u8);
        }
    }

    fn write_config(&mut self, offset: u64, data: &[u8]) {
        self.config_writes.push((offset, data.to_vec()));
    }

    fn activate(
        &mut self,
        mem: GuestMemory,
        interrupt_evt: Arc<Adapter>,
        queues: Vec<ActivatedQueue>,
    ) -> ActivateResult {
        if self.refuse_activation {
            return Err(ActivateError::BadActivate);
        }
        self.interrupt = Some(interrupt_evt);
        self.activations.push(Activation {
            probe: mem.inner.memory().read_obj(GuestAddress(0x100)).unwrap(),
            queues: queues
                .iter()
                .map(|(i, q, _)| {
                    (
                        *i,
                        q.size(),
                        q.desc_table(),
                        q.avail_ring(),
                        q.used_ring(),
                        q.next_avail(),
                        q.next_used(),
                    )
                })
                .collect(),
        });
        Ok(())
    }

    fn reset(&mut self) -> Option<Arc<Adapter>> {
        self.resets += 1;
        if self.can_reset {
            self.interrupt.take()
        } else {
            None
        }
    }

    fn get_shm_regions(&self) -> Option<VirtioSharedMemoryList> {
        self.regions.as_ref().map(|(addr, list)| VirtioSharedMemoryList {
            addr: *addr,
            region_list: list
                .iter()
                .map(|(offset, len)| VirtioSharedMemory { offset: *offset, len: *len })
                .collect(),
        })
    }
}

type Transport = VirtioMmioDevice<Device, Line>;

fn memory() -> (GuestMemoryMmap, GuestMemory) {
    let mmap = GuestMemoryMmap::<()>::from_ranges(&[(GuestAddress(0), 0x10_0000)]).unwrap();
    let shared = GuestMemory { inner: GuestMemoryAtomic::new(mmap.clone()) };
    (mmap, shared)
}

fn events(n: usize) -> Vec<Arc<EventFd>> {
    (0..n).map(|_| Arc::new(EventFd::new(0).unwrap())).collect()
}

fn transport_for(device: Device) -> (Transport, Arc<AtomicUsize>, GuestMemoryMmap) {
    let fired = Arc::new(AtomicUsize::new(0));
    let (mmap, mem) = memory();
    let n = device.max_sizes.len();
    let line = Line { fired: fired.clone(), fail: false };
    let transport = match Transport::new("virtio0".to_string(), mem, device, line, events(n)) {
        Ok(t) => t,
        Err(_) => panic!("transport refused"),
    };
    (transport, fired, mmap)
}

fn transport(max_sizes: Vec<u16>) -> (Transport, Arc<AtomicUsize>, GuestMemoryMmap) {
    transport_for(Device::new(max_sizes))
}

fn read32(t: &mut Transport, offset: u64) -> u32 {
    let mut data = [0xa5u8; 4];
    t.read(0, offset, &mut data);
    u32::from_le_bytes(data)
}

fn write32(t: &mut Transport, offset: u64, value: u32) -> bool {
    t.write(0, offset, &value.to_le_bytes()).is_some()
}

fn configure_queue(t: &mut Transport, index: u32, size: u32, desc: u64, avail: u64, used: u64) {
    assert!(!write32(t, 0x30, index));
    assert!(!write32(t, 0x38, size));
    assert!(!write32(t, 0x80, desc as u32));
    assert!(!write32(t, 0x84, (desc >> 32) as u32));
    assert!(!write32(t, 0x90, avail as u32));
    assert!(!write32(t, 0x94, (avail >> 32) as u32));
    assert!(!write32(t, 0xa0, used as u32));
    assert!(!write32(t, 0xa4, (used >> 32) as u32));
    assert!(!write32(t, 0x44, 1));
}

fn run_pending(t: &mut Transport) -> Vec<ActivateResult> {
    let mut results = Vec::new();
    for mut activator in t.take_pending_activations() {
        assert!(activator.is_armed());
        results.push(activator.activate(t));
        assert!(!activator.is_armed());
        assert!(activator.take_barrier().is_some());
        assert!(activator.take_barrier().is_none());
    }
    results
}

fn activated(max_sizes: Vec<u16>) -> (Transport, Arc<AtomicUsize>, GuestMemoryMmap) {
    let (mut t, fired, mmap) = transport(max_sizes);
    assert!(!write32(&mut t, 0x70, 1));
    assert!(!write32(&mut t, 0x70, 3));
    configure_queue(&mut t, 0, 64, 0x1_0000_1000, 0x2000, 0x3000);
    assert!(!write32(&mut t, 0x70, 0x0b));
    assert!(write32(&mut t, 0x70, 0x0f));
    assert_eq!(run_pending(&mut t), vec![Ok(())]);
    (t, fired, mmap)
}

#[test]
fn magic_and_version_are_read_little_endian() {
    let (mut t, _, _) = transport(vec![16]);
    let mut data = [0u8; 4];
    t.read(0, 0x00, &mut data);
    assert_eq!(data, [0x76, 0x69, 0x72, 0x74]);
    assert_eq!(&data, b"virt");
    assert_eq!(read32(&mut t, 0x00), 0x7472_6976);
    assert_eq!(read32(&mut t, 0x04), 2);
    assert_eq!(read32(&mut t, 0x08), 26);
    assert_eq!(read32(&mut t, 0x0c), 0);
    assert_eq!(read32(&mut t, 0xfc), 0);
}

#[test]
fn feature_pages_show_halves_of_the_features() {
    let (mut t, _, _) = transport(vec![16]);
    assert_eq!(read32(&mut t, 0x10), 0x89ab_cdef);
    write32(&mut t, 0x14, 1);
    assert_eq!(t.features_select(), 1);
    assert_eq!(read32(&mut t, 0x10), 0x0123_4567);
    write32(&mut t, 0x14, 2);
    assert_eq!(read32(&mut t, 0x10), 0);
    write32(&mut t, 0x14, 0xffff_ffff);
    assert_eq!(t.features_select(), 0xffff_ffff);
    assert_eq!(read32(&mut t, 0x10), 0);
}

#[test]
fn acknowledged_features_go_to_the_selected_page() {
    let (mut t, _, _) = transport(vec![16]);
    write32(&mut t, 0x20, 0x8000_0001);
    write32(&mut t, 0x24, 1);
    assert_eq!(t.acked_features_select(), 1);
    write32(&mut t, 0x20, 0x8000_0001);
    assert_eq!(t.device().acked, vec![0x8000_0001, 0x8000_0001_0000_0000]);
}

#[test]
fn acknowledgement_to_a_page_that_is_not_there_never_reaches_the_device() {
    let (mut t, _, _) = transport(vec![16]);
    for select in [2u32, 3, 0x8000_0000, 0xffff_ffff] {
        write32(&mut t, 0x24, select);
        write32(&mut t, 0x20, 0xffff_ffff);
        write32(&mut t, 0x20, 1);
    }
    assert!(t.device().acked.is_empty());
}

#[test]
fn reads_of_unknown_registers_change_nothing() {
    let (mut t, _, _) = transport(vec![16]);
    write32(&mut t, 0x14, 1);
    write32(&mut t, 0x24, 1);
    write32(&mut t, 0x30, 5);
    write32(&mut t, 0xac, 7);
    write32(&mut t, 0x70, 3);
    for offset in [0x01u64, 0x14, 0x20, 0x24, 0x30, 0x38, 0x50, 0x64, 0x80, 0xa4, 0xac, 0xc0, 0xff] {
        let mut data = [0xa5u8; 4];
        t.read(0, offset, &mut data);
        assert_eq!(data, [0xa5; 4]);
    }
    assert_eq!(t.features_select(), 1);
    assert_eq!(t.acked_features_select(), 1);
    assert_eq!(t.queue_select(), 5);
    assert_eq!(t.shm_region_select(), 7);
    assert_eq!(t.driver_status(), 3);
    assert_eq!(t.interrupt_status(), 0);
}

#[test]
fn reads_of_another_width_or_past_the_page_change_nothing() {
    let (mut t, _, _) = transport(vec![16]);
    let mut two = [0xa5u8; 2];
    t.read(0, 0x00, &mut two);
    assert_eq!(two, [0xa5; 2]);
    let mut eight = [0xa5u8; 8];
    t.read(0, 0x04, &mut eight);
    assert_eq!(eight, [0xa5; 8]);
    let mut four = [0xa5u8; 4];
    t.read(0, 0x1000, &mut four);
    assert_eq!(four, [0xa5; 4]);
}

#[test]
fn config_window_is_the_devices() {
    let (mut t, _, _) = transport(vec![16]);
    let mut data = [0u8; 3];
    t.read(0, 0x100, &mut data);
    assert_eq!(data, [0, 1, 2]);
    t.read(0, 0x110, &mut data);
    assert_eq!(data, [0x10, 0x11, 0x12]);
    assert!(t.write(0, 0x104, &[9, 8, 7, 6, 5]).is_none());
    assert!(t.write(0, 0xfff, &[1]).is_none());
    assert_eq!(t.device().config_writes, vec![(4, vec![9, 8, 7, 6, 5]), (0xeff, vec![1])]);
}

#[test]
fn queue_registers_speak_of_the_selected_queue() {
    let (mut t, _, _) = transport(vec![16, 256]);
    assert_eq!(t.queue_count(), 2);
    assert_eq!(read32(&mut t, 0x34), 16);
    assert_eq!(read32(&mut t, 0x44), 0);
    write32(&mut t, 0x30, 1);
    assert_eq!(read32(&mut t, 0x34), 256);
    configure_queue(&mut t, 1, 32, 0x1_0000_0000, 0x11000, 0x12000);
    assert_eq!(read32(&mut t, 0x44), 1);
    let state = t.state();
    assert_eq!(
        state.queues,
        vec![
            QueueState {
                max_size: 16,
                size: 16,
                ready: false,
                desc_table: 0,
                avail_ring: 0,
                used_ring: 0
            },
            QueueState {
                max_size: 256,
                size: 32,
                ready: true,
                desc_table: 0x1_0000_0000,
                avail_ring: 0x11000,
                used_ring: 0x12000
            },
        ]
    );
    write32(&mut t, 0x44, 2);
    assert_eq!(read32(&mut t, 0x44), 0);
}

#[test]
fn queue_refuses_sizes_and_addresses_it_cannot_have() {
    let (mut t, _, _) = transport(vec![64]);
    write32(&mut t, 0x38, 32);
    assert_eq!(t.state().queues[0].size, 32);
    for size in [0u32, 3, 48, 128, 0x8000] {
        write32(&mut t, 0x38, size);
        assert_eq!(t.state().queues[0].size, 32);
    }
    // only the lower 16 bits of the value are the size
    write32(&mut t, 0x38, 0x0001_0010);
    assert_eq!(t.state().queues[0].size, 16);
    write32(&mut t, 0x80, 0x1000);
    write32(&mut t, 0x80, 0x1008);
    assert_eq!(t.state().queues[0].desc_table, 0x1000);
    write32(&mut t, 0x84, 0x2);
    assert_eq!(t.state().queues[0].desc_table, 0x2_0000_1000);
    write32(&mut t, 0x90, 0x2002);
    write32(&mut t, 0x90, 0x2003);
    assert_eq!(t.state().queues[0].avail_ring, 0x2002);
    write32(&mut t, 0xa0, 0x3004);
    write32(&mut t, 0xa0, 0x3006);
    assert_eq!(t.state().queues[0].used_ring, 0x3004);
    write32(&mut t, 0xa4, 0xffff_ffff);
    assert_eq!(t.state().queues[0].used_ring, 0xffff_ffff_0000_3004);
}

#[test]
fn queue_select_past_the_queues_reads_zero_and_drops_writes() {
    let (mut t, _, _) = transport(vec![16, 16]);
    let before = t.state().queues;
    for select in [2u32, 3, 0xffff_ffff] {
        write32(&mut t, 0x30, select);
        assert_eq!(read32(&mut t, 0x34), 0);
        assert_eq!(read32(&mut t, 0x44), 0);
        for offset in [0x38u64, 0x44, 0x80, 0x84, 0x90, 0x94, 0xa0, 0xa4] {
            assert!(!write32(&mut t, offset, 8));
            assert!(!write32(&mut t, offset, 1));
        }
        assert_eq!(t.state().queues, before);
    }
}

#[test]
fn writes_of_another_width_are_dropped() {
    let (mut t, _, _) = transport(vec![64]);
    assert!(t.write(0, 0x38, &[32, 0]).is_none());
    assert!(t.write(0, 0x38, &[32]).is_none());
    assert!(t.write(0, 0x38, &[32, 0, 0, 0, 0, 0, 0, 0]).is_none());
    assert!(t.write(0, 0x38, &[]).is_none());
    assert_eq!(t.state().queues[0].size, 64);
    assert!(t.write(0, 0x70, &[0x0f, 0]).is_none());
    assert_eq!(t.driver_status(), 0);
    assert!(t.write(0, 0x1000, &[1, 0, 0, 0]).is_none());
    assert!(t.device().config_writes.is_empty());
}

#[test]
fn basic_negotiation_activates_with_the_ready_queue() {
    let (mut t, _, _) = transport(vec![256, 256]);
    assert!(!write32(&mut t, 0x70, 1));
    assert!(!write32(&mut t, 0x70, 3));
    assert!(!write32(&mut t, 0x14, 0));
    assert_eq!(read32(&mut t, 0x10), FEATURES as u32);
    assert!(!write32(&mut t, 0x24, 0));
    assert!(!write32(&mut t, 0x20, FEATURES as u32));
    configure_queue(&mut t, 0, 64, 0x1_0000_1000, 0x2000, 0x3000);
    assert!(!write32(&mut t, 0x70, 0x0b));
    assert!(t.has_interrupt());
    let barrier = t.write(0, 0x70, &0x0fu32.to_le_bytes());
    assert!(barrier.is_some());
    assert!(!t.device_activated());
    assert!(!t.has_interrupt());
    assert!(t.device().activations.is_empty());

    let mut pending = t.take_pending_activations();
    assert_eq!(pending.len(), 1);
    assert!(t.take_pending_activations().is_empty());
    let mut activator = pending.pop().unwrap();
    assert!(activator.is_armed());
    assert_eq!(activator.activate(&mut t), Ok(()));
    let taken = activator.take_barrier().unwrap();
    assert!(Arc::ptr_eq(&taken, barrier.as_ref().unwrap()));

    assert!(t.device_activated());
    assert_eq!(t.device().acked, vec![FEATURES & 0xffff_ffff]);
    assert_eq!(t.device().activations.len(), 1);
    assert_eq!(
        t.device().activations[0].queues,
        vec![(0, 64, 0x1_0000_1000, 0x2000, 0x3000, 0, 0)]
    );
    // a running device is not started again
    assert!(!write32(&mut t, 0x70, 0x0f));
    assert!(!write32(&mut t, 0x14, 1));
    assert!(t.take_pending_activations().is_empty());
}

#[test]
fn activation_skips_queues_that_are_not_ready() {
    let (mut t, _, mmap) = transport(vec![16, 16, 16]);
    mmap.write_obj(0xfeed_f00du32, GuestAddress(0x100)).unwrap();
    configure_queue(&mut t, 2, 8, 0x4000, 0x5000, 0x6000);
    configure_queue(&mut t, 0, 4, 0x1000, 0x2000, 0x3000);
    assert!(write32(&mut t, 0x70, 0x0f));
    assert_eq!(run_pending(&mut t), vec![Ok(())]);
    assert_eq!(
        t.device().activations[0].queues,
        vec![(0, 4, 0x1000, 0x2000, 0x3000, 0, 0), (2, 8, 0x4000, 0x5000, 0x6000, 0, 0)]
    );
    // the device works on the memory of the transport
    assert_eq!(t.device().activations[0].probe, 0xfeed_f00d);
}

#[test]
fn no_barrier_without_a_ready_driver() {
    let (mut t, _, _) = transport(vec![16]);
    for status in [0u32, 1, 3, 7, 0x0b, 0x0e, 0x1f, 0x8f, 0x80, 0xffff_ffff, 0x10f] {
        assert!(!write32(&mut t, 0x70, status));
        assert_eq!(t.driver_status(), status);
        assert!(!t.device_activated());
        for offset in [0x14u64, 0x20, 0x24, 0x30, 0x38, 0x44, 0x64, 0xac, 0x50] {
            assert!(!write32(&mut t, offset, 1));
        }
        assert!(t.write(0, 0x100, &[1, 2]).is_none());
        assert!(!t.device_activated());
        assert!(!t.needs_activation());
    }
    assert!(t.take_pending_activations().is_empty());
    assert!(t.device().activations.is_empty());
}

#[test]
fn refused_activation_leaves_the_device_stopped() {
    let mut device = Device::new(vec![16]);
    device.refuse_activation = true;
    let (mut t, _, _) = transport_for(device);
    assert!(write32(&mut t, 0x70, 0x0f));
    assert_eq!(run_pending(&mut t), vec![Err(ActivateError::BadActivate)]);
    assert!(!t.device_activated());
    assert!(t.needs_activation());
}

#[test]
fn reset_cycle_returns_to_the_initial_state() {
    let (mut t, _, _) = activated(vec![256, 16]);
    write32(&mut t, 0x30, 1);
    assert!(!write32(&mut t, 0x70, 0));
    assert_eq!(t.device().resets, 1);
    assert!(t.has_interrupt());
    assert!(!t.device_activated());
    assert_eq!(t.queue_select(), 0);
    assert_eq!(t.driver_status(), 0);
    let state = t.state();
    assert!(!state.queues[0].ready);
    assert_eq!(state.queues[0].size, 256);
    assert_eq!(state.queues[0].desc_table, 0);
    assert_eq!(state.queues[0].avail_ring, 0);
    assert_eq!(state.queues[0].used_ring, 0);
    assert_eq!(state.queues[1].size, 16);

    // the device can be configured and started again
    configure_queue(&mut t, 1, 8, 0x7000, 0x8000, 0x9000);
    assert!(write32(&mut t, 0x70, 0x0f));
    assert_eq!(run_pending(&mut t), vec![Ok(())]);
    assert!(t.device_activated());
    assert_eq!(t.device().activations.len(), 2);
    assert_eq!(t.device().activations[1].queues, vec![(1, 8, 0x7000, 0x8000, 0x9000, 0, 0)]);
}

#[test]
fn unsupported_reset_reports_failure() {
    let mut device = Device::new(vec![256]);
    device.can_reset = false;
    let (mut t, _, _) = transport_for(device);
    configure_queue(&mut t, 0, 64, 0x1000, 0x2000, 0x3000);
    assert!(write32(&mut t, 0x70, 0x0f));
    assert_eq!(run_pending(&mut t), vec![Ok(())]);
    assert!(!write32(&mut t, 0x70, 0));
    assert_eq!(t.device().resets, 1);
    assert_eq!(t.driver_status(), DEVICE_FAILED);
    assert_eq!(t.driver_status(), 128);
    assert_eq!(read32(&mut t, 0x70), 128);
    assert!(t.device_activated());
    assert!(!t.has_interrupt());
    assert!(t.state().queues[0].ready);
    assert_eq!(t.state().queues[0].size, 64);
    // the failure is not a reset request
    assert!(!write32(&mut t, 0x14, 0));
    assert_eq!(t.device().resets, 1);
}

#[test]
fn interrupts_are_aggregated_into_two_bits() {
    let (mut t, fired, _) = activated(vec![256]);
    let adapter = t.device().interrupt.as_ref().unwrap().clone();
    assert_eq!(read32(&mut t, 0x60), 0);
    assert!(adapter.trigger(VirtioInterruptType::Queue(3)).is_ok());
    assert_eq!(read32(&mut t, 0x60), 1);
    assert!(adapter.trigger(VirtioInterruptType::Queue(5)).is_ok());
    assert_eq!(read32(&mut t, 0x60), 1);
    assert!(adapter.trigger(VirtioInterruptType::Config).is_ok());
    assert_eq!(read32(&mut t, 0x60), 3);
    assert_eq!(fired.load(Ordering::SeqCst), 3);
    assert!(!write32(&mut t, 0x64, 0x1));
    assert_eq!(read32(&mut t, 0x60), 2);
    assert!(!write32(&mut t, 0x64, 0xffff_fffd));
    assert_eq!(read32(&mut t, 0x60), 2);
    assert!(!write32(&mut t, 0x64, 0x2));
    assert_eq!(read32(&mut t, 0x60), 0);
    assert_eq!(t.interrupt_status(), 0);
}

#[test]
fn failure_of_the_line_is_handed_on_with_the_bit_set() {
    let fired = Arc::new(AtomicUsize::new(0));
    let status = virtio_mmio::interrupt::InterruptStatus::new();
    let adapter = VirtioInterruptIntx::new(status.share(), Line { fired: fired.clone(), fail: true });
    let result = adapter.trigger(VirtioInterruptType::Config);
    assert_eq!(result.unwrap_err().raw_os_error(), Some(5));
    assert_eq!(status.load(), 2);
    assert_eq!(fired.load(Ordering::SeqCst), 1);
}

#[test]
fn assigned_interrupt_replaces_the_adapter() {
    let (mut t, fired, _) = transport(vec![16]);
    let other = Arc::new(AtomicUsize::new(0));
    t.assign_interrupt(Line { fired: other.clone(), fail: false });
    assert!(t.has_interrupt());
    configure_queue(&mut t, 0, 16, 0x1000, 0x2000, 0x3000);
    assert!(write32(&mut t, 0x70, 0x0f));
    assert_eq!(run_pending(&mut t), vec![Ok(())]);
    let adapter = t.device().interrupt.as_ref().unwrap().clone();
    assert!(adapter.trigger(VirtioInterruptType::Queue(0)).is_ok());
    assert_eq!(other.load(Ordering::SeqCst), 1);
    assert_eq!(fired.load(Ordering::SeqCst), 0);
    assert_eq!(read32(&mut t, 0x60), 1);
}

#[test]
fn shm_window_without_regions_reads_all_ones_length() {
    let (mut t, _, _) = transport(vec![16]);
    assert_eq!(read32(&mut t, 0xb0), 0xffff_ffff);
    assert_eq!(read32(&mut t, 0xb4), 0xffff_ffff);
    assert_eq!(read32(&mut t, 0xb8), 0);
    assert_eq!(read32(&mut t, 0xbc), 0);
    assert_eq!(read32(&mut t, 0xb1), 0);
    assert_eq!(read32(&mut t, 0xba), 0);
}

#[test]
fn shm_window_shows_the_selected_region() {
    let mut device = Device::new(vec![16]);
    device.regions = Some((
        0x8_0000_0000,
        vec![(0x1000, 0x2_0000_0010), (0xffff_fff8_0000_0000, 0x40)],
    ));
    let (mut t, _, _) = transport_for(device);
    assert_eq!(read32(&mut t, 0xb0), 0x10);
    assert_eq!(read32(&mut t, 0xb4), 0x2);
    assert_eq!(read32(&mut t, 0xb8), 0x1000);
    assert_eq!(read32(&mut t, 0xbc), 0x8);
    write32(&mut t, 0xac, 1);
    assert_eq!(read32(&mut t, 0xb0), 0x40);
    assert_eq!(read32(&mut t, 0xb4), 0);
    // the address of the region wraps round the address space
    assert_eq!(read32(&mut t, 0xb8), 0);
    assert_eq!(read32(&mut t, 0xbc), 0);
    for select in [2u32, 3, 0xffff_ffff] {
        write32(&mut t, 0xac, select);
        assert_eq!(read32(&mut t, 0xb0), 0xffff_ffff);
        assert_eq!(read32(&mut t, 0xb4), 0xffff_ffff);
        assert_eq!(read32(&mut t, 0xb8), 0);
        assert_eq!(read32(&mut t, 0xbc), 0);
    }
}

#[test]
fn snapshot_round_trip() {
    let (mut t, _, _) = transport(vec![64, 64]);
    write32(&mut t, 0x14, 1);
    write32(&mut t, 0x24, 1);
    write32(&mut t, 0xac, 4);
    configure_queue(&mut t, 1, 32, 0x10000, 0x11000, 0x12000);
    let mut pending_device = Device::new(vec![64, 64]);
    pending_device.refuse_activation = true;
    assert!(write32(&mut t, 0x70, 0x0f));
    let state = t.state();
    assert!(!state.device_activated);
    assert_eq!(state.driver_status, 0x0f);

    let (mut fresh, _, _) = transport_for(pending_device);
    assert_eq!(fresh.restore(Some(&state)), Ok(()));
    assert_eq!(fresh.driver_status(), 0x0f);
    assert_eq!(fresh.device_activated(), state.device_activated);
    assert_eq!(fresh.features_select(), 1);
    assert_eq!(fresh.acked_features_select(), 1);
    assert_eq!(fresh.queue_select(), 1);
    assert_eq!(fresh.shm_region_select(), 4);
    assert!(fresh.device().activations.is_empty());
    let again = fresh.state();
    assert_eq!(again.queues, state.queues);
    assert_eq!(again.queues[1].size, 32);
    assert!(again.queues[1].ready);
    assert_eq!(again.queues[1].desc_table, 0x10000);
    assert_eq!(again.queues[1].avail_ring, 0x11000);
    assert_eq!(again.queues[1].used_ring, 0x12000);
    assert_eq!(again.device_activated, state.device_activated);
    assert_eq!(again.features_select, state.features_select);
    assert_eq!(again.acked_features_select, state.acked_features_select);
    assert_eq!(again.queue_select, state.queue_select);
    assert_eq!(again.interrupt_status, state.interrupt_status);
    assert_eq!(again.driver_status, state.driver_status);
    assert_eq!(again.shm_region_select, state.shm_region_select);
}

#[test]
fn restore_of_a_running_device_starts_it_at_the_used_index() {
    let (mut t, _, _) = activated(vec![256]);
    let adapter = t.device().interrupt.as_ref().unwrap().clone();
    assert!(adapter.trigger(VirtioInterruptType::Config).is_ok());
    let state = t.state();
    assert!(state.device_activated);
    assert_eq!(state.interrupt_status, 2);

    let (mut fresh, _, mmap) = transport(vec![256]);
    mmap.write_obj(7u16.to_le(), GuestAddress(0x3002)).unwrap();
    assert_eq!(fresh.restore(Some(&state)), Ok(()));
    assert!(fresh.device_activated());
    assert_eq!(fresh.interrupt_status(), 2);
    assert_eq!(
        fresh.device().activations[0].queues,
        vec![(0, 64, 0x1_0000_1000, 0x2000, 0x3000, 7, 7)]
    );
    assert_eq!(fresh.state().queues, state.queues);
}

#[test]
fn restore_errors() {
    let (mut t, _, _) = transport(vec![16]);
    assert_eq!(t.restore(None), Err(RestoreError::MissingSection));
    let mut state = t.state();
    state.queues[0].desc_table = 0x1008;
    assert_eq!(t.restore(Some(&state)), Err(RestoreError::SetState(Error::QueueAddressSet)));
    state.queues[0].desc_table = 0x1000;
    state.queues[0].avail_ring = 0x2001;
    assert_eq!(t.set_state(&state), Err(Error::QueueAddressSet));
    state.queues[0].avail_ring = 0x2000;
    state.queues[0].used_ring = 0x3002;
    assert_eq!(t.set_state(&state), Err(Error::QueueAddressSet));
    // a used ring outside guest memory cannot be read
    state.queues[0].used_ring = 0x4000_0000;
    state.shm_region_select = 9;
    assert_eq!(t.set_state(&state), Err(Error::QueueRingIndex));
    assert_eq!(t.shm_region_select(), 0);
    state.queues[0].used_ring = 0x3000;
    assert_eq!(t.set_state(&state), Ok(()));
    assert_eq!(t.shm_region_select(), 9);

    let mut refusing = Device::new(vec![16]);
    refusing.refuse_activation = true;
    let (mut fresh, _, _) = transport_for(refusing);
    state.device_activated = true;
    state.driver_status = 0x0f;
    assert_eq!(
        fresh.restore(Some(&state)),
        Err(RestoreError::Activate(ActivateError::BadActivate))
    );
}

#[test]
fn restored_size_that_the_queue_cannot_have_is_ignored() {
    let (mut big, _, _) = transport(vec![256]);
    write32(&mut big, 0x38, 128);
    let state = big.state();
    let (mut small, _, _) = transport(vec![64]);
    assert_eq!(small.set_state(&state), Ok(()));
    assert_eq!(small.state().queues[0].size, 64);
    assert_eq!(small.state().queues[0].max_size, 64);
}

#[test]
fn new_refuses_what_does_not_fit_the_device() {
    let (_, mem) = memory();
    let line = Line { fired: Arc::new(AtomicUsize::new(0)), fail: false };
    let r = Transport::new("a".to_string(), mem, Device::new(vec![16, 16]), line, events(1));
    assert!(matches!(r, Err(Error::QueueEventCount)));
    for bad in [0u16, 3, 48, 0xffff] {
        let (_, mem) = memory();
        let line = Line { fired: Arc::new(AtomicUsize::new(0)), fail: false };
        let r = Transport::new("a".to_string(), mem, Device::new(vec![16, bad, 0]), line, events(3));
        assert!(matches!(r, Err(Error::QueueMaxSize(s)) if s == bad));
    }
    let (_, mem) = memory();
    let line = Line { fired: Arc::new(AtomicUsize::new(0)), fail: false };
    let r = Transport::new("a".to_string(), mem, Device::new(vec![0x8000, 1]), line, events(2));
    assert!(r.is_ok());
    let (_, mem) = memory();
    let line = Line { fired: Arc::new(AtomicUsize::new(0)), fail: false };
    assert!(Transport::new("a".to_string(), mem, Device::new(vec![]), line, events(0)).is_ok());
}

#[test]
fn new_transport_is_in_its_initial_state() {
    let (mut t, fired, _) = transport(vec![16, 32]);
    assert_eq!(t.id(), "virtio0");
    assert!(!t.device_activated());
    assert!(t.has_interrupt());
    assert!(!t.needs_activation());
    assert_eq!(t.driver_status(), 0);
    assert_eq!(t.features_select(), 0);
    assert_eq!(t.acked_features_select(), 0);
    assert_eq!(t.queue_select(), 0);
    assert_eq!(t.shm_region_select(), 0);
    assert_eq!(t.config_generation(), 0);
    assert_eq!(t.interrupt_status(), 0);
    assert_eq!(read32(&mut t, 0x70), 0);
    assert_eq!(t.queue_evts().len(), 2);
    assert!(t.pause().is_ok());
    assert!(t.resume().is_ok());
    assert_eq!(fired.load(Ordering::SeqCst), 0);
    // a write of zero to the status of a stopped device resets nothing
    assert!(!write32(&mut t, 0x70, 0));
    assert_eq!(t.device().resets, 0);
}

#[test]
fn maybe_activate_starts_a_device_that_is_due() {
    let (mut t, _, _) = transport(vec![16]);
    assert_eq!(t.maybe_activate(), Ok(false));
    configure_queue(&mut t, 0, 16, 0x1000, 0x2000, 0x3000);
    let state = {
        let mut s = t.state();
        s.driver_status = 0x0f;
        s
    };
    assert_eq!(t.set_state(&state), Ok(()));
    assert!(t.needs_activation());
    assert_eq!(t.maybe_activate(), Ok(true));
    assert!(t.device_activated());
    assert_eq!(t.device().activations.len(), 1);
    assert_eq!(t.maybe_activate(), Ok(false));
    let _ = t.activate_barrier();
}

#[test]
fn ioeventfds_pair_every_event_with_the_notify_register() {
    let (t, _, _) = transport(vec![16, 16, 16]);
    let pairs = t.ioeventfds(0x1000_0000);
    assert_eq!(pairs.len(), 3);
    for (i, (event, addr)) in pairs.iter().enumerate() {
        assert_eq!(*addr, 0x1000_0050);
        assert!(std::ptr::eq(*event, &*t.queue_evts()[i]));
    }
    assert_eq!(t.ioeventfds(u64::MAX)[0].1, 0x4f);
}

#[test]
fn ready_queues_outside_guest_memory_are_noted_and_handed_on() {
    let (mut t, _, _) = transport(vec![16, 16, 16, 16]);
    assert!(t.invalid_queues().is_empty());
    // guest memory is one mebibyte from address zero
    configure_queue(&mut t, 0, 16, 0x1000, 0x2000, 0x3000);
    configure_queue(&mut t, 1, 16, 0x4000_0000, 0x2000, 0x3000);
    configure_queue(&mut t, 3, 16, 0x1000, 0x2000, 0xf_fff0);
    assert!(write32(&mut t, 0x70, 0x0f));
    assert_eq!(t.invalid_queues().to_vec(), vec![1usize, 3]);
    assert_eq!(run_pending(&mut t), vec![Ok(())]);
    assert_eq!(
        t.device().activations[0].queues,
        vec![
            (0, 16, 0x1000, 0x2000, 0x3000, 0, 0),
            (1, 16, 0x4000_0000, 0x2000, 0x3000, 0, 0),
            (3, 16, 0x1000, 0x2000, 0xf_fff0, 0, 0)
        ]
    );
    // the next preparation probes anew
    assert!(!write32(&mut t, 0x70, 0));
    assert_eq!(t.invalid_queues().to_vec(), vec![1usize, 3]);
    configure_queue(&mut t, 2, 16, 0x1000, 0x2000, 0x3000);
    assert!(write32(&mut t, 0x70, 0x0f));
    assert!(t.invalid_queues().is_empty());
}

#[test]
fn restore_stops_at_the_first_queue_that_fails() {
    let (mut source, _, _) = transport(vec![16, 16, 16]);
    configure_queue(&mut source, 0, 8, 0x1000, 0x2000, 0x3000);
    configure_queue(&mut source, 1, 4, 0x4000, 0x5000, 0x6000);
    configure_queue(&mut source, 2, 2, 0x7000, 0x8000, 0x9000);
    let mut state = source.state();
    state.queues[1].avail_ring = 0x5001;
    state.queues[2].used_ring = 0x4000_0000;

    let (mut t, _, mmap) = transport(vec![16, 16, 16]);
    mmap.write_obj(5u16.to_le(), GuestAddress(0x3002)).unwrap();
    assert_eq!(t.set_state(&state), Err(Error::QueueAddressSet));
    let after = t.state().queues;
    // the first queue is restored
    assert_eq!(after[0], state.queues[0]);
    // the second got as far as its descriptor table
    assert_eq!(
        after[1],
        QueueState {
            max_size: 16,
            size: 4,
            ready: true,
            desc_table: 0x4000,
            avail_ring: 0,
            used_ring: 0
        }
    );
    // the third is untouched
    assert_eq!(
        after[2],
        QueueState {
            max_size: 16,
            size: 16,
            ready: false,
            desc_table: 0,
            avail_ring: 0,
            used_ring: 0
        }
    );

    // with the second record mended the restore stops at the third, whose
    // used ring cannot be read
    state.queues[1].avail_ring = 0x5000;
    mmap.write_obj(9u16.to_le(), GuestAddress(0x6002)).unwrap();
    assert_eq!(t.set_state(&state), Err(Error::QueueRingIndex));
    let after = t.state().queues;
    assert_eq!(after[1], state.queues[1]);
    assert_eq!(after[2], state.queues[2]);

    // a first record that cannot be restored fails before anything else
    state.queues[0].desc_table = 0x1004;
    assert_eq!(t.set_state(&state), Err(Error::QueueAddressSet));
}

#[test]
fn both_positions_resume_at_the_used_index() {
    let (mut source, _, _) = transport(vec![16, 16]);
    configure_queue(&mut source, 0, 8, 0x1000, 0x2000, 0x3000);
    configure_queue(&mut source, 1, 4, 0x4000, 0x5000, 0x6000);
    source.write(0, 0x70, &0x0fu32.to_le_bytes());
    run_pending(&mut source);
    let state = source.state();
    assert!(state.device_activated);

    let (mut t, _, mmap) = transport(vec![16, 16]);
    mmap.write_obj(0x1234u16.to_le(), GuestAddress(0x3002)).unwrap();
    mmap.write_obj(0xffffu16.to_le(), GuestAddress(0x6002)).unwrap();
    assert_eq!(t.restore(Some(&state)), Ok(()));
    assert_eq!(
        t.device().activations[0].queues,
        vec![
            (0, 8, 0x1000, 0x2000, 0x3000, 0x1234, 0x1234),
            (1, 4, 0x4000, 0x5000, 0x6000, 0xffff, 0xffff)
        ]
    );
}
