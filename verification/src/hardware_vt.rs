//! Vendor-agnostic representation of hardware-assisted virtualization:
//! the backend capability trait, the VM-exit taxonomy, and the layout of
//! nested paging structure entries.

use vstd::prelude::*;
use crate::snapshot::SnapshotRegisters;

verus! {

/// Permissions and memory types to be specified for nested paging structure
/// entries.
pub enum NestedPagingStructureEntryType {
    /// Readable, writable, executable.
    Rwx,
    /// Readable, writable, executable, with the write-back memory type.
    RwxWriteBack,
    /// Readable, NON writable, executable, with the write-back memory type.
    RxWriteBack,
}

/// The values used to initialize a nested paging structure entry.
#[derive(Clone, Copy, PartialEq, Eq, Structural)]
pub struct NestedPagingStructureEntryFlags {
    pub permission: u8,
    pub memory_type: u8,
}

/// The processor vendor, which decides the exact flag encoding of nested
/// paging structure entries.
#[derive(Clone, Copy, PartialEq, Eq, Structural)]
pub enum Vendor {
    /// VMX-style nested paging (EPT).
    Intel,
    /// SVM-style nested paging (NPT).
    Amd,
}

/// Gets a flag value to be set to nested paging structure entries for the
/// given entry type.
///
/// On Intel the memory type is encoded in bits 5:3 of an EPT entry and 6
/// selects write-back. On AMD the entry layout equals the standard paging
/// layout, where all-zero PWT/PCD/PAT bits already select write-back.
pub fn nps_entry_flags(vendor: Vendor, entry_type: NestedPagingStructureEntryType) -> (r:
    NestedPagingStructureEntryFlags)
    ensures
        r == spec_nps_entry_flags(vendor, entry_type),
{
    match vendor {
        Vendor::Intel => match entry_type {
            NestedPagingStructureEntryType::Rwx => NestedPagingStructureEntryFlags {
                permission: 0b111,
                memory_type: 0,
            },
            NestedPagingStructureEntryType::RwxWriteBack => NestedPagingStructureEntryFlags {
                permission: 0b111,
                memory_type: 6,
            },
            NestedPagingStructureEntryType::RxWriteBack => NestedPagingStructureEntryFlags {
                permission: 0b101,
                memory_type: 6,
            },
        },
        Vendor::Amd => match entry_type {
            NestedPagingStructureEntryType::Rwx
            | NestedPagingStructureEntryType::RwxWriteBack => NestedPagingStructureEntryFlags {
                permission: 0b111,
                memory_type: 0,
            },
            NestedPagingStructureEntryType::RxWriteBack => NestedPagingStructureEntryFlags {
                permission: 0b101,
                memory_type: 0,
            },
        },
    }
}

/// The flag values by vendor and entry type.
pub open spec fn spec_nps_entry_flags(
    vendor: Vendor,
    entry_type: NestedPagingStructureEntryType,
) -> NestedPagingStructureEntryFlags {
    let permission = match entry_type {
        NestedPagingStructureEntryType::Rwx => 0b111u8,
        NestedPagingStructureEntryType::RwxWriteBack => 0b111u8,
        NestedPagingStructureEntryType::RxWriteBack => 0b101u8,
    };
    let memory_type = match vendor {
        Vendor::Intel => match entry_type {
            NestedPagingStructureEntryType::Rwx => 0u8,
            _ => 6u8,
        },
        Vendor::Amd => 0u8,
    };
    NestedPagingStructureEntryFlags { permission, memory_type }
}

/// The flag values any vendor returns have a non-zero permission, so an
/// entry written with them is never mistaken for an empty one.
pub proof fn lemma_nps_entry_flags_nonzero(
    vendor: Vendor,
    entry_type: NestedPagingStructureEntryType,
)
    ensures
        spec_nps_entry_flags(vendor, entry_type).permission != 0,
        spec_nps_entry_flags(vendor, entry_type).permission < 8,
        spec_nps_entry_flags(vendor, entry_type).memory_type < 8,
{
}

/// Details of the cause of nested page fault.
pub struct NestedPageFaultQualification {
    pub rip: u64,
    pub gpa: u64,
    pub missing_translation: bool,
    pub write_access: bool,
}

/// Details of an intercepted guest exception.
pub struct ExceptionQualification {
    pub rip: u64,
    pub exception_code: GuestException,
}

/// The cause of guest exception.
#[derive(Clone, Copy, Debug, PartialEq, Eq, Structural)]
pub enum GuestException {
    BreakPoint,
    InvalidOpcode,
    PageFault,
}

/// The interrupt vector of a breakpoint exception (#BP).
pub const BREAKPOINT_VECTOR: u8 = 3;

/// The interrupt vector of an invalid-opcode exception (#UD).
pub const INVALID_OPCODE_VECTOR: u8 = 6;

/// The interrupt vector of a page-fault exception (#PF).
pub const PAGE_FAULT_VECTOR: u8 = 14;

impl GuestException {
    /// Classifies an intercepted exception vector. Only #BP, #UD and #PF are
    /// intercepted; any other vector yields `None`.
    pub fn from_vector(vector: u8) -> (r: Option<GuestException>)
        ensures
            r == if vector == BREAKPOINT_VECTOR {
                Some(GuestException::BreakPoint)
            } else if vector == INVALID_OPCODE_VECTOR {
                Some(GuestException::InvalidOpcode)
            } else if vector == PAGE_FAULT_VECTOR {
                Some(GuestException::PageFault)
            } else {
                None::<GuestException>
            },
    {
        if vector == BREAKPOINT_VECTOR {
            Some(GuestException::BreakPoint)
        } else if vector == INVALID_OPCODE_VECTOR {
            Some(GuestException::InvalidOpcode)
        } else if vector == PAGE_FAULT_VECTOR {
            Some(GuestException::PageFault)
        } else {
            None
        }
    }
}

/// Reasons of VM exit.
pub enum VmExitReason {
    /// An address translation failure with nested paging.
    NestedPageFault(NestedPageFaultQualification),
    /// An exception happened.
    Exception(ExceptionQualification),
    /// An external interrupt occurred, or `PAUSE` was executed more than a
    /// certain number of times.
    ExternalInterruptOrPause,
    /// The guest ran long enough to use up its time slice.
    TimerExpiration,
    /// The logical processor entered the shutdown state, eg, triple fault.
    Shutdown(u64),
    /// An unhandled VM exit happened, with a vendor specific exit code.
    Unexpected(u64),
}

/// An interface to enable hardware-assisted virtualization, set up and run a
/// single virtual machine instance on the current processor.
///
/// Implementations drive vendor hardware and live with the runner; nothing is
/// assumed of them here. The fuzzing loop states what holds of every value an
/// implementation may hand back.
pub trait HardwareVt {
    /// Enables hardware virtualization on the current processor. It has to be
    /// called exactly once before calling any other method.
    fn enable(&mut self);

    /// Configures the hardware, such as enabling nested paging and exception
    /// interception, with the given nested PML4 address.
    fn initialize(&mut self, nested_pml4_addr: u64);

    /// Configures the guest states based on the captured register set.
    fn revert_registers(&mut self, registers: &SnapshotRegisters);

    /// Updates the guest states to make the guest use input data.
    fn adjust_registers(&mut self, input_addr: u64, input_size: u64);

    /// Executes the guest until it triggers VM exit.
    fn run(&mut self) -> VmExitReason;

    /// Invalidates caches of the nested paging structures.
    fn invalidate_caches(&mut self);

    /// Reads the processor's timestamp counter.
    fn read_time_counter(&mut self) -> u64;
}

/// Returns the access rights of a segment for SVM, computed from the
/// segment's descriptor value.
///
/// First, the AVL, L, D/B and G bits are taken while excluding the
/// "Seg. Limit 19:16" bits. Then the Type, S, DPL and P bits; the result
/// holds both groups without the "Seg. Limit 19:16" bits.
pub fn get_segment_access_right(descriptor_value: u64) -> (r: u16)
    ensures
        r == spec_segment_access_right(descriptor_value),
{
    let ar: u16 = (descriptor_value >> 40) as u16;
    let upper_ar: u16 = (ar >> 4) & 0b1111_0000_0000;
    let lower_ar: u16 = ar & 0b1111_1111;
    lower_ar | upper_ar
}

/// The access-right bits of a segment descriptor, packed as SVM expects them.
pub open spec fn spec_segment_access_right(descriptor_value: u64) -> u16 {
    let ar = (descriptor_value >> 40) as u16;
    (ar & 0xff) | ((ar >> 4) & 0xf00)
}

/// Returns the limit of a segment, computed from the selector and the
/// segment's descriptor value. A null selector is unusable and yields 0.
pub fn get_segment_limit(descriptor_value: u64, selector: u16) -> (r: u32)
    ensures
        r == spec_segment_limit(descriptor_value, selector),
{
    if (selector >> 3) == 0 && (selector >> 2) == 0 {
        return 0;  // unusable
    }
    let limit_low: u64 = descriptor_value & 0xffff;
    let limit_high: u64 = (descriptor_value >> 48) & 0xf;
    let mut limit: u64 = limit_low | (limit_high << 16u64);
    proof {
        assert((descriptor_value & 0xffff) | (((descriptor_value >> 48) & 0xf) << 16u64)
            <= 0xfffff) by (bit_vector);
    }
    if ((descriptor_value >> 55) & 0x01) != 0 {
        limit = (limit + 1) * 4096 - 1;
    }
    limit as u32
}

/// The byte limit encoded in a segment descriptor: the 20 limit bits, scaled
/// to page granularity when the G bit is set.
pub open spec fn spec_segment_limit(descriptor_value: u64, selector: u16) -> u32 {
    if (selector >> 3) == 0 && (selector >> 2) == 0 {
        0u32
    } else {
        let raw = (descriptor_value & 0xffff) | (((descriptor_value >> 48) & 0xf) << 16u64);
        if ((descriptor_value >> 55) & 0x01) != 0 {
            (((raw + 1) * 4096 - 1)) as u32
        } else {
            raw as u32
        }
    }
}

} // verus!
