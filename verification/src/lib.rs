//! Virtio MMIO transport: the register window of one virtio device, the
//! driver-status state machine behind it, the activation hand-off and the
//! state record used for snapshot and restore, together with the small pieces
//! of VM lifecycle and device-tree bookkeeping that surround the transport.

pub mod device;
pub mod fdt_edit;
pub mod interrupt;
pub mod queue;
pub mod transport;
pub mod vm;
