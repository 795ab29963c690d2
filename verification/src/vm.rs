//! VM lifecycle states and the helpers of the VM layer that are pure
//! computations.

use vstd::prelude::*;

verus! {

/// Lifecycle state of a virtual machine.
#[derive(Clone, Copy, Debug, PartialEq, Eq, Structural)]
pub enum VmState {
    Created,
    Running,
    Shutdown,
    Paused,
}

/// Errors of the VM layer.
#[derive(Clone, Copy, Debug, PartialEq, Eq, Structural)]
pub enum Error {
    /// The transition from the first state to the second is not allowed.
    InvalidStateTransition(VmState, VmState),
    /// Failed resizing a memory zone.
    ResizeZone,
}

/// The transitions a VM may take: a created VM may start running or be
/// paused, a running one may pause or shut down, a shut down one may only
/// run again, and a paused one may resume or shut down.
pub open spec fn transition_allowed(from: VmState, to: VmState) -> bool {
    match from {
        VmState::Created => to == VmState::Running || to == VmState::Paused,
        VmState::Running => to == VmState::Paused || to == VmState::Shutdown,
        VmState::Shutdown => to == VmState::Running,
        VmState::Paused => to == VmState::Running || to == VmState::Shutdown,
    }
}

impl VmState {
    /// Checks the transition from `self` to `new_state`, naming both states
    /// in the error when it is not allowed.
    pub fn valid_transition(self, new_state: VmState) -> (r: Result<(), Error>)
        ensures
            r is Ok <==> transition_allowed(self, new_state),
            r is Err ==> r == Err::<(), Error>(Error::InvalidStateTransition(self, new_state)),
    {
        match self {
            VmState::Created => match new_state {
                VmState::Created | VmState::Shutdown => {
                    Err(Error::InvalidStateTransition(self, new_state))
                },
                VmState::Running | VmState::Paused => Ok(()),
            },
            VmState::Running => match new_state {
                VmState::Created | VmState::Running => {
                    Err(Error::InvalidStateTransition(self, new_state))
                },
                VmState::Paused | VmState::Shutdown => Ok(()),
            },
            VmState::Shutdown => match new_state {
                VmState::Paused | VmState::Created | VmState::Shutdown => {
                    Err(Error::InvalidStateTransition(self, new_state))
                },
                VmState::Running => Ok(()),
            },
            VmState::Paused => match new_state {
                VmState::Created | VmState::Paused => {
                    Err(Error::InvalidStateTransition(self, new_state))
                },
                VmState::Running | VmState::Shutdown => Ok(()),
            },
        }
    }
}

/// No state may be re-entered from itself, and `Created` is never entered
/// again.
pub proof fn lemma_transitions_leave_state(from: VmState, to: VmState)
    requires
        transition_allowed(from, to),
    ensures
        from != to,
        to != VmState::Created,
{
}

/// Ranges of the codes written to the debug I/O port.
#[derive(Clone, Copy, Debug, PartialEq, Eq, Structural)]
pub enum DebugIoPortRange {
    Firmware,
    Bootloader,
    Kernel,
    Userspace,
    Custom,
}

/// The range a debug code falls into: 32 codes each for firmware,
/// bootloader, kernel and userspace, the upper half for custom use.
pub open spec fn debug_range_of(value: u8) -> DebugIoPortRange {
    if value < 0x20 {
        DebugIoPortRange::Firmware
    } else if value < 0x40 {
        DebugIoPortRange::Bootloader
    } else if value < 0x60 {
        DebugIoPortRange::Kernel
    } else if value < 0x80 {
        DebugIoPortRange::Userspace
    } else {
        DebugIoPortRange::Custom
    }
}

impl DebugIoPortRange {
    /// Classifies a code written to the debug I/O port.
    pub fn from_u8(value: u8) -> (r: DebugIoPortRange)
        ensures
            r == debug_range_of(value),
    {
        match value {
            0x00..=0x1f => DebugIoPortRange::Firmware,
            0x20..=0x3f => DebugIoPortRange::Bootloader,
            0x40..=0x5f => DebugIoPortRange::Kernel,
            0x60..=0x7f => DebugIoPortRange::Userspace,
            _ => DebugIoPortRange::Custom,
        }
    }

    /// The text a range is logged under.
    pub open spec fn label(self) -> Seq<char> {
        match self {
            DebugIoPortRange::Firmware => "Debug I/O port: Firmware"@,
            DebugIoPortRange::Bootloader => "Debug I/O port: Bootloader"@,
            DebugIoPortRange::Kernel => "Debug I/O port: Kernel"@,
            DebugIoPortRange::Userspace => "Debug I/O port: Userspace"@,
            DebugIoPortRange::Custom => "Debug I/O port: Custom"@,
        }
    }

    /// Renders the range as it appears in the log.
    pub fn to_string(&self) -> (s: String)
        ensures
            s@ == self.label(),
    {
        match self {
            DebugIoPortRange::Firmware => "Debug I/O port: Firmware".to_owned(),
            DebugIoPortRange::Bootloader => "Debug I/O port: Bootloader".to_owned(),
            DebugIoPortRange::Kernel => "Debug I/O port: Kernel".to_owned(),
            DebugIoPortRange::Userspace => "Debug I/O port: Userspace".to_owned(),
            DebugIoPortRange::Custom => "Debug I/O port: Custom".to_owned(),
        }
    }
}

/// Number of physical address bits a guest may use: what the host CPU
/// offers, capped by the configured maximum.
pub fn physical_bits(host_phys_bits: u8, max_phys_bits: u8) -> (bits: u8)
    ensures
        bits <= host_phys_bits,
        bits <= max_phys_bits,
        bits == host_phys_bits || bits == max_phys_bits,
{
    if host_phys_bits < max_phys_bits {
        host_phys_bits
    } else {
        max_phys_bits
    }
}

/// The I/O port that takes debug codes.
pub const DEBUG_IOPORT: u16 = 0x80;

/// The debug code of a port write, if it is one: a write of a single byte
/// to the debug I/O port.
pub fn debug_ioport_code(port: u64, data: &[u8]) -> (code: Option<u8>)
    ensures
        code == if port == DEBUG_IOPORT && data@.len() == 1 {
            Some(data@[0])
        } else {
            None
        },
{
    if port == DEBUG_IOPORT as u64 && data.len() == 1 {
        Some(data[0])
    } else {
        None
    }
}

/// The memory to hot-plug into a zone that booted with `zone_size` so that
/// it holds `desired_memory`. A zone cannot shrink below what it booted
/// with.
pub fn zone_hotplugged_size(desired_memory: u64, zone_size: u64) -> (r: Result<u64, Error>)
    ensures
        desired_memory >= zone_size ==> r == Ok::<u64, Error>((desired_memory - zone_size) as u64),
        desired_memory < zone_size ==> r == Err::<u64, Error>(Error::ResizeZone),
{
    if desired_memory >= zone_size {
        Ok(desired_memory - zone_size)
    } else {
        Err(Error::ResizeZone)
    }
}

/// Adds a device to the devices of a configuration, which begins to list
/// devices with the first.
pub fn add_to_config<T>(devices: &mut Option<Vec<T>>, device: T)
    ensures
        *final(devices) matches Some(listed) && listed@ == match *old(devices) {
            Some(before) => before@.push(device),
            None => seq![device],
        },
{
    match devices {
        Some(listed) => {
            listed.push(device);
        },
        None => {
            let mut listed = Vec::new();
            listed.push(device);
            *devices = Some(listed);
        },
    }
}

} // verus!
