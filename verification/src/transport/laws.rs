//! What holds of every MMIO transport, stated over the relations that the
//! contracts of `read`, `write`, `set_state` and `restore` are made of.

use crate::device::{VirtioDevice, VirtioSharedMemoryList, DEVICE_FAILED};
use crate::interrupt::{InterruptSourceGroup, VirtioInterruptIntx};
use crate::transport::le_bytes;
use crate::queue::QueueView;
use crate::transport::mmio::{
    all_restorable, attempted, driver_ready, is_queue_register, queue_restored, ready_queues,
    restorable, spec_shm_register, spec_shm_window, stopped_at, MmioView, VirtioMmioDeviceState,
    MMIO_MAGIC_VALUE, MMIO_VERSION,
};
use vmm_sys_util::eventfd::EventFd;
use std::sync::Arc;
use std::sync::Barrier;
use vstd::prelude::*;

verus! {

/// The magic number reads as the bytes of "virt", and the version as a two
/// followed by zeros.
pub proof fn lemma_magic_and_version_bytes()
    ensures
        le_bytes(MMIO_MAGIC_VALUE) == seq![0x76u8, 0x69u8, 0x72u8, 0x74u8],
        le_bytes(MMIO_VERSION) == seq![2u8, 0u8, 0u8, 0u8],
{
    assert(0x7472_6976u32 as u8 == 0x76 && (0x7472_6976u32 >> 8) as u8 == 0x69 && (0x7472_6976u32
        >> 16) as u8 == 0x72 && (0x7472_6976u32 >> 24) as u8 == 0x74) by (bit_vector);
    assert(2u32 as u8 == 2 && (2u32 >> 8) as u8 == 0 && (2u32 >> 16) as u8 == 0 && (2u32 >> 24)
        as u8 == 0) by (bit_vector);
    assert(le_bytes(MMIO_MAGIC_VALUE) =~= seq![0x76u8, 0x69u8, 0x72u8, 0x74u8]);
    assert(le_bytes(MMIO_VERSION) =~= seq![2u8, 0u8, 0u8, 0u8]);
}

/// The registers at 0x00 and 0x04 read as the magic number and the version
/// and as nothing else.
pub proof fn lemma_magic_and_version_registers<
    D: VirtioDevice<VirtioInterruptIntx<S>>,
    S: InterruptSourceGroup,
>(view: MmioView<D, S>, value: u32)
    ensures
        view.reads_as(0x00, value) <==> value == 0x7472_6976,
        view.reads_as(0x04, value) <==> value == 2,
{
}

/// The transport never does both: start the device and reset it.
pub proof fn lemma_one_action_at_most<
    D: VirtioDevice<VirtioInterruptIntx<S>>,
    S: InterruptSourceGroup,
>(view: MmioView<D, S>)
    ensures
        !(view.needs_activation() && view.needs_reset()),
{
}

/// An acknowledgement of features to a page that is not there leaves the
/// registers and the device as they are: the device is not asked to
/// acknowledge anything. If the device changes in such a write at all, then
/// because a reset was due.
pub proof fn lemma_ack_to_missing_page_spares_device<
    D: VirtioDevice<VirtioInterruptIntx<S>>,
    S: InterruptSourceGroup,
>(
    before: MmioView<D, S>,
    data: Seq<u8>,
    mid: MmioView<D, S>,
    after: MmioView<D, S>,
    barrier: Option<Arc<Barrier>>,
)
    requires
        before.acked_features_select >= 2,
        before.register_written(0x20, data, mid),
        mid.status_acted(after, barrier),
    ensures
        mid == before,
        !before.needs_reset() ==> after.device == before.device,
{
}

/// A write starts nothing by itself: the device does not count as running
/// after a write unless it did before. A barrier is handed out exactly when
/// the device is stopped and the driver status after the write is that of a
/// ready driver, and exactly then one more activation is pending.
pub proof fn lemma_barrier_only_for_ready_driver<
    D: VirtioDevice<VirtioInterruptIntx<S>>,
    S: InterruptSourceGroup,
>(
    before: MmioView<D, S>,
    offset: u64,
    data: Seq<u8>,
    after: MmioView<D, S>,
    barrier: Option<Arc<Barrier>>,
)
    requires
        before.written(offset, data, after, barrier),
    ensures
        after.device_activated ==> before.device_activated,
        barrier is Some <==> !before.device_activated && driver_ready(after.driver_status),
        barrier is None ==> after.pending_activations == before.pending_activations,
        barrier is Some ==> after.pending_activations.len() == before.pending_activations.len()
            + 1,
{
    let mid = choose|mid: MmioView<D, S>| #[trigger]
        before.register_written(offset, data, mid) && mid.status_acted(after, barrier);
    assert(mid.device_activated == before.device_activated);
    assert(mid.pending_activations == before.pending_activations);
    if !mid.needs_activation() && mid.needs_reset() {
        assert(DEVICE_FAILED != 0x0f);
    }
}

/// Whether `states` are the transports before, between and after the
/// writes of `writes`, which hand out `barriers`.
pub open spec fn is_run<D: VirtioDevice<VirtioInterruptIntx<S>>, S: InterruptSourceGroup>(
    states: Seq<MmioView<D, S>>,
    writes: Seq<(u64, Seq<u8>)>,
    barriers: Seq<Option<Arc<Barrier>>>,
) -> bool {
    &&& states.len() == writes.len() + 1
    &&& barriers.len() == writes.len()
    &&& forall|i: int|
        0 <= i < writes.len() ==> (#[trigger] states[i]).written(
            writes[i].0,
            writes[i].1,
            states[i + 1],
            barriers[i],
        )
}

/// Through any run of writes that never leaves the driver status at that
/// of a ready driver, a stopped device stays stopped, no barrier is handed
/// out and no activation is prepared.
pub proof fn lemma_no_activation_without_ready_driver<
    D: VirtioDevice<VirtioInterruptIntx<S>>,
    S: InterruptSourceGroup,
>(
    states: Seq<MmioView<D, S>>,
    writes: Seq<(u64, Seq<u8>)>,
    barriers: Seq<Option<Arc<Barrier>>>,
)
    requires
        is_run(states, writes, barriers),
        !states[0].device_activated,
        forall|i: int| 0 < i < states.len() ==> !driver_ready((#[trigger] states[i]).driver_status),
    ensures
        forall|i: int| 0 <= i < states.len() ==> !(#[trigger] states[i]).device_activated,
        forall|i: int| 0 <= i < barriers.len() ==> #[trigger] barriers[i] is None,
        forall|i: int|
            0 <= i < states.len() ==> (#[trigger] states[i]).pending_activations
                == states[0].pending_activations,
    decreases writes.len(),
{
    if writes.len() > 0 {
        let n = writes.len() as int;
        assert(is_run(states.drop_last(), writes.drop_last(), barriers.drop_last())) by {
            assert forall|i: int| 0 <= i < n - 1 implies (#[trigger] states.drop_last()[i]).written(
                writes.drop_last()[i].0,
                writes.drop_last()[i].1,
                states.drop_last()[i + 1],
                barriers.drop_last()[i],
            ) by {
                assert(states[i].written(writes[i].0, writes[i].1, states[i + 1], barriers[i]));
            }
        }
        assert forall|i: int| 0 < i < states.drop_last().len() implies !driver_ready(
            (#[trigger] states.drop_last()[i]).driver_status,
        ) by {
            assert(!driver_ready(states[i].driver_status));
        }
        lemma_no_activation_without_ready_driver(
            states.drop_last(),
            writes.drop_last(),
            barriers.drop_last(),
        );
        assert(states[n - 1] == states.drop_last()[n - 1]);
        assert(states[n - 1].written(writes[n - 1].0, writes[n - 1].1, states[n], barriers[n - 1]));
        assert(!driver_ready(states[n].driver_status));
        lemma_barrier_only_for_ready_driver(
            states[n - 1],
            writes[n - 1].0,
            writes[n - 1].1,
            states[n],
            barriers[n - 1],
        );
        assert forall|i: int| 0 <= i < states.len() implies !(#[trigger] states[i]).device_activated
            && states[i].pending_activations == states[0].pending_activations by {
            if i < n {
                assert(states[i] == states.drop_last()[i]);
            }
        }
        assert forall|i: int| 0 <= i < barriers.len() implies #[trigger] barriers[i] is None by {
            if i < n - 1 {
                assert(barriers[i] == barriers.drop_last()[i]);
            }
        }
    }
}

/// A write to the control window that is not four bytes wide is dropped:
/// nothing changes, as long as no start and no reset of the device was due
/// before the write.
pub proof fn lemma_other_width_is_dropped<
    D: VirtioDevice<VirtioInterruptIntx<S>>,
    S: InterruptSourceGroup,
>(
    before: MmioView<D, S>,
    offset: u64,
    data: Seq<u8>,
    after: MmioView<D, S>,
    barrier: Option<Arc<Barrier>>,
)
    requires
        offset <= 0xff,
        data.len() != 4,
        before.written(offset, data, after, barrier),
    ensures
        forall|mid: MmioView<D, S>| before.register_written(offset, data, mid) ==> mid == before,
        !before.needs_activation() && !before.needs_reset() ==> after == before && barrier is None,
{
}

/// While the selected queue is past the queues of the device, its maximum
/// size and its readiness read as zero, and a write to any of its registers
/// is dropped.
pub proof fn lemma_queue_select_out_of_range<
    D: VirtioDevice<VirtioInterruptIntx<S>>,
    S: InterruptSourceGroup,
>(before: MmioView<D, S>, offset: u64, data: Seq<u8>, mid: MmioView<D, S>, value: u32)
    requires
        before.queue_select >= before.queues.len(),
    ensures
        before.reads_as(0x34, value) <==> value == 0,
        before.reads_as(0x44, value) <==> value == 0,
        is_queue_register(offset) && before.register_written(offset, data, mid) ==> mid == before,
{
}

/// Where the device has no shared-memory regions, or the selected region
/// is past the regions it has, the window shows a length of all ones and an
/// address of zero.
pub proof fn lemma_shm_select_out_of_range(regions: Option<VirtioSharedMemoryList>, select: u32)
    requires
        regions matches Some(list) ==> select >= list.region_list@.len(),
    ensures
        spec_shm_window(regions, select) == (0u64, u64::MAX),
        spec_shm_register(0xb0, spec_shm_window(regions, select)) == 0xffff_ffff,
        spec_shm_register(0xb4, spec_shm_window(regions, select)) == 0xffff_ffff,
        spec_shm_register(0xb8, spec_shm_window(regions, select)) == 0,
        spec_shm_register(0xbc, spec_shm_window(regions, select)) == 0,
{
    assert(0xffff_ffff_ffff_ffffu64 as u32 == 0xffff_ffffu32 && (0xffff_ffff_ffff_ffffu64 >> 32)
        as u32 == 0xffff_ffffu32 && 0u64 as u32 == 0 && (0u64 >> 32) as u32 == 0)
        by (bit_vector);
}

/// Whether two records of a transport are the same.
pub open spec fn same_record(first: VirtioMmioDeviceState, second: VirtioMmioDeviceState) -> bool {
    &&& first.device_activated == second.device_activated
    &&& first.features_select == second.features_select
    &&& first.acked_features_select == second.acked_features_select
    &&& first.queue_select == second.queue_select
    &&& first.interrupt_status == second.interrupt_status
    &&& first.driver_status == second.driver_status
    &&& first.queues@ == second.queues@
    &&& first.shm_region_select == second.shm_region_select
}

/// Snapshot, restore, snapshot is a fixed point. If `first` records the
/// transport `source`, and `first` is restored into a transport for the
/// same device, one whose queues have the maximum sizes of the queues of
/// `source`, then a record of the restored transport is `first` again,
/// as long as the interrupt status has not changed in between.
pub proof fn lemma_snapshot_restore_snapshot<
    D: VirtioDevice<VirtioInterruptIntx<S>>,
    S: InterruptSourceGroup,
>(
    source: MmioView<D, S>,
    first: VirtioMmioDeviceState,
    fresh: MmioView<D, S>,
    restored: MmioView<D, S>,
    second: VirtioMmioDeviceState,
)
    requires
        source.wf(),
        source.recorded_as(first),
        fresh.queues.len() == source.queues.len(),
        forall|i: int|
            0 <= i < source.queues.len() ==> (#[trigger] fresh.queues[i]).max_size
                == source.queues[i].max_size,
        fresh.restored(first, restored, Ok(())),
        restored.recorded_as(second),
        second.interrupt_status == first.interrupt_status,
    ensures
        same_record(first, second),
{
    let (mid, set) = choose|mid: MmioView<D, S>, set: Result<(), crate::transport::Error>|
     #[trigger]
        fresh.state_set(first, mid, set) && mid.restore_finished(set, restored, Ok(()));
    assert(set is Ok);
    assert(restored.queues == mid.queues);
    assert(restored.device_activated == mid.device_activated);
    assert forall|i: int| 0 <= i < source.queues.len() implies second.queues@[i]
        == first.queues@[i] by {
        assert(source.queues[i].wf());
        assert(first.queues@[i] == source.queues[i].state());
        assert(crate::transport::mmio::queue_restored(
            fresh.queues[i],
            first.queues@[i],
            mid.queues[i],
        ));
        assert(second.queues@[i] == restored.queues[i].state());
    }
    assert(second.queues@ =~= first.queues@);
}

/// Only what the driver marked ready is handed to the device, each queue
/// under its own index and with its own event, in the order of the queues,
/// and no ready queue is left out.
pub proof fn lemma_ready_queues(queues: Seq<QueueView>, evts: Seq<Arc<EventFd>>, n: int)
    requires
        0 <= n <= queues.len() <= usize::MAX,
        queues.len() == evts.len(),
    ensures
        forall|k: int|
            0 <= k < ready_queues(queues, evts, n).len() ==> {
                let taken = #[trigger] ready_queues(queues, evts, n)[k];
                &&& taken.0 < n
                &&& taken.1 == queues[taken.0 as int]
                &&& taken.1.ready
                &&& taken.2 == evts[taken.0 as int]
            },
        forall|j: int, k: int|
            0 <= j < k < ready_queues(queues, evts, n).len() ==> ready_queues(queues, evts, n)[j].0
                < ready_queues(queues, evts, n)[k].0,
        forall|i: int|
            0 <= i < n && queues[i].ready ==> exists|k: int|
                0 <= k < ready_queues(queues, evts, n).len() && (#[trigger] ready_queues(
                    queues,
                    evts,
                    n,
                )[k]).0 == i,
    decreases n,
{
    if n > 0 {
        lemma_ready_queues(queues, evts, n - 1);
        let before = ready_queues(queues, evts, n - 1);
        let now = ready_queues(queues, evts, n);
        assert forall|i: int| 0 <= i < n && queues[i].ready implies exists|k: int|
            0 <= k < now.len() && (#[trigger] now[k]).0 == i by {
            if i < n - 1 {
                let k = choose|k: int| 0 <= k < before.len() && (#[trigger] before[k]).0 == i;
                assert(now[k] == before[k]);
            } else {
                assert(now[now.len() - 1].0 == i);
            }
        }
    }
}

/// A device that counts as running stops counting so in a write only by a
/// reset that the driver asked for with a status of zero and that the
/// device carried out: afterwards the status is zero, the first queue is
/// selected, every queue is as it was created, and the adapter is back.
pub proof fn lemma_stopped_only_by_reset<
    D: VirtioDevice<VirtioInterruptIntx<S>>,
    S: InterruptSourceGroup,
>(
    before: MmioView<D, S>,
    offset: u64,
    data: Seq<u8>,
    after: MmioView<D, S>,
    barrier: Option<Arc<Barrier>>,
)
    requires
        before.written(offset, data, after, barrier),
        before.device_activated,
        !after.device_activated,
    ensures
        barrier is None,
        after.driver_status == 0,
        after.queue_select == 0,
        after.virtio_interrupt is Some,
        after.queues.len() == before.queues.len(),
        forall|i: int|
            0 <= i < after.queues.len() ==> #[trigger] after.queues[i] == QueueView::fresh(
                before.queues[i].max_size,
            ),
{
    let mid = choose|mid: MmioView<D, S>| #[trigger]
        before.register_written(offset, data, mid) && mid.status_acted(after, barrier);
    assert(mid.device_activated);
    assert(mid.queues.len() == before.queues.len());
    assert forall|i: int| 0 <= i < mid.queues.len() implies (#[trigger] mid.queues[i]).max_size
        == before.queues[i].max_size by {}
}

/// A restored queue resumes at the index of its used ring: after a state
/// was put back, both positions of every queue stand at one index, the
/// configuration of the queue is that of its record, and whether event
/// indices are in use is as it was.
pub proof fn lemma_restored_queues_resume<
    D: VirtioDevice<VirtioInterruptIntx<S>>,
    S: InterruptSourceGroup,
>(before: MmioView<D, S>, state: VirtioMmioDeviceState, after: MmioView<D, S>)
    requires
        before.state_set(state, after, Ok(())),
    ensures
        after.queues.len() == before.queues.len(),
        forall|i: int|
            0 <= i < after.queues.len() ==> {
                let queue = #[trigger] after.queues[i];
                &&& queue.next_avail == queue.next_used
                &&& queue.event_idx_enabled == before.queues[i].event_idx_enabled
                &&& queue.max_size == before.queues[i].max_size
                &&& queue.ready == state.queues@[i].ready
                &&& queue.desc_table == state.queues@[i].desc_table
                &&& queue.avail_ring == state.queues@[i].avail_ring
                &&& queue.used_ring == state.queues@[i].used_ring
                &&& queue.size == before.queues[i].with_size(state.queues@[i].size).size
            },
{
    assert forall|i: int| 0 <= i < after.queues.len() implies {
        let queue = #[trigger] after.queues[i];
        &&& queue.next_avail == queue.next_used
        &&& queue.event_idx_enabled == before.queues[i].event_idx_enabled
        &&& queue.max_size == before.queues[i].max_size
        &&& queue.ready == state.queues@[i].ready
        &&& queue.desc_table == state.queues@[i].desc_table
        &&& queue.avail_ring == state.queues@[i].avail_ring
        &&& queue.used_ring == state.queues@[i].used_ring
        &&& queue.size == before.queues[i].with_size(state.queues@[i].size).size
    } by {
        assert(queue_restored(before.queues[i], state.queues@[i], after.queues[i]));
    }
}

/// The restore of the queues fails with the error of a ring address
/// exactly at a record that cannot be restored, and at the first such
/// record unless the used index of an earlier queue could not be read. A
/// first record that cannot be restored fails the restore before anything
/// is read from guest memory; records that can all be restored never give
/// the error of a ring address; and without queues the restore goes
/// through.
pub proof fn lemma_restore_errors<
    D: VirtioDevice<VirtioInterruptIntx<S>>,
    S: InterruptSourceGroup,
>(
    before: MmioView<D, S>,
    state: VirtioMmioDeviceState,
    after: MmioView<D, S>,
    r: Result<(), crate::transport::Error>,
)
    requires
        before.state_set(state, after, r),
    ensures
        before.queues.len() == 0 ==> r is Ok,
        before.queues.len() > 0 && !restorable(state.queues@[0]) ==> r == Err::<
            (),
            crate::transport::Error,
        >(crate::transport::Error::QueueAddressSet) && after.queues[0] == attempted(
            before.queues[0],
            state.queues@[0],
        ),
        r is Ok ==> all_restorable(state.queues@, before.queues.len() as int),
        r == Err::<(), crate::transport::Error>(crate::transport::Error::QueueAddressSet)
            ==> !all_restorable(state.queues@, before.queues.len() as int),
        r is Err ==> r == Err::<(), crate::transport::Error>(
            crate::transport::Error::QueueAddressSet,
        ) || r == Err::<(), crate::transport::Error>(crate::transport::Error::QueueRingIndex),
{
    match r {
        Ok(()) => {
            assert forall|i: int| 0 <= i < before.queues.len() implies restorable(
                #[trigger] state.queues@[i],
            ) by {
                assert(queue_restored(before.queues[i], state.queues@[i], after.queues[i]));
            }
        },
        Err(e) => {
            let k = choose|k: int| #[trigger]
                stopped_at(before.queues, state.queues@, after.queues, e, k);
            if before.queues.len() > 0 && !restorable(state.queues@[0]) {
                if k > 0 {
                    assert(queue_restored(before.queues[0], state.queues@[0], after.queues[0]));
                }
            }
        },
    }
}

} // verus!
