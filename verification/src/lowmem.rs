//! Memory below 1 MiB, where Linux places its AP startup trampoline.
//!
//! The kernel reserves a real-mode trampoline under 1 MiB before it will
//! continue, even with one processor that will never run it. An L2's guest
//! physical addresses are the L1's own, so ordinary allocated memory cannot
//! execute at the required address. The L1 reserves 512..640 KiB in its boot
//! memory map, and the restricted driver exclusively maps those exact private
//! pages. The remaining legacy holes stay emulated.
use vstd::prelude::*;

verus! {

/// Start of the boot-reserved window used by the L2. Keeping the first 512 KiB
/// for the L1 lets a normal multiprocessor Linux host retain its own real-mode
/// trampoline.
pub const LOW_MEMORY_BASE: u64 = 0x8_0000;

/// End of conventional RAM below the VGA aperture.
pub const LOW_MEMORY_RESERVED_END: u64 = 0xa_0000;

pub const LOW_MEMORY_SIZE: usize = 0x2_0000;

/// How many pages the window has.
pub const LOW_MEMORY_PAGES: usize = 32;

/// End of the complete legacy window that the VMM still backs for BIOS-era
/// probes. Only conventional RAM above [`LOW_MEMORY_BASE`] is directly aliased;
/// the VGA/ROM holes continue to be emulated.
pub const LOW_MEMORY_END: u64 = 0x10_0000;

} // verus!
