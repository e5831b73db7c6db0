//! MSRs the backend answers itself. Everything else is either passed through to
//! hardware by the L2's MSR bitmap or faults.
use crate::regs::L2GprContext;
use vstd::prelude::*;

verus! {

pub const PLATFORM_ID: u32 = 0x17;

pub const APIC_BASE: u32 = 0x1b;

/// The microcode revision. Linux reads it unconditionally on an Intel
/// processor, and faulting is not an option: the sequence is a write of zero, a
/// CPUID, then a read, with no exception handling around it.
pub const BIOS_SIGN_ID: u32 = 0x8b;

pub const PLATFORM_INFO: u32 = 0xce;

pub const MTRR_CAP: u32 = 0xfe;

pub const ARCH_CAPABILITIES: u32 = 0x10a;

pub const MISC_ENABLE: u32 = 0x1a0;

pub const PAT: u32 = 0x277;

pub const MTRR_DEF_TYPE: u32 = 0x2ff;

/// The x2APIC register file, which lives in MSRs when an L2's APIC is
/// virtualized.
pub const X2APIC_FIRST: u32 = 0x800;

pub const X2APIC_END: u32 = 0x840;

/// What an MSR access calls for.
#[derive(Debug, Clone, Copy, PartialEq, Eq, Structural)]
pub enum MsrAction {
    /// Read a register of the APIC model.
    ApicRead { index: u32 },
    /// Write a register of the APIC model.
    ApicWrite { index: u32, value: u64 },
    /// Read the page attribute table out of the VMCS.
    ReadPat,
    /// Write the page attribute table into the VMCS.
    WritePat { value: u64 },
    /// A read that has this answer.
    Answer { value: u64 },
    /// A write with nothing to store.
    Accept,
    /// An MSR that is not implemented, which faults.
    Unknown,
}

/// The MSR an access names: the low half of RCX.
pub open spec fn msr_index(regs: L2GprContext) -> u32 {
    (regs.rcx % 0x1_0000_0000) as u32
}

/// The value an access writes: EDX above EAX.
pub open spec fn msr_operand(regs: L2GprContext) -> u64 {
    (regs.rdx % 0x1_0000_0000 * 0x1_0000_0000 + regs.rax % 0x1_0000_0000) as u64
}

/// The register image after a read returned a value.
pub open spec fn with_msr_value(regs: L2GprContext, value: u64) -> L2GprContext {
    L2GprContext { rax: value % 0x1_0000_0000, rdx: value / 0x1_0000_0000, ..regs }
}

/// The answer to a read of an MSR that has a fixed one.
pub open spec fn fixed_answer(index: u32) -> Option<u64> {
    if index == APIC_BASE {
        // Enabled, x2APIC, bootstrap processor.
        Some(0xfee0_0d00)
    } else if index == MISC_ENABLE {
        Some(1)
    } else if index == BIOS_SIGN_ID {
        Some(0x1_0000_0000)
    } else if index == MTRR_DEF_TYPE {
        Some(0x0c00)
    } else if index == PLATFORM_ID || index == MTRR_CAP || index == ARCH_CAPABILITIES || index
        == PLATFORM_INFO {
        Some(0)
    } else {
        None
    }
}

/// What an MSR access calls for.
pub open spec fn msr_action(regs: L2GprContext, is_write: bool) -> MsrAction {
    let index = msr_index(regs);
    if X2APIC_FIRST <= index < X2APIC_END {
        if is_write {
            MsrAction::ApicWrite { index, value: msr_operand(regs) }
        } else {
            MsrAction::ApicRead { index }
        }
    } else if is_write {
        if index == PAT {
            MsrAction::WritePat { value: msr_operand(regs) }
        } else if index == BIOS_SIGN_ID || index == APIC_BASE || index == MISC_ENABLE || index
            == MTRR_DEF_TYPE {
            MsrAction::Accept
        } else {
            MsrAction::Unknown
        }
    } else if index == PAT {
        MsrAction::ReadPat
    } else {
        match fixed_answer(index) {
            Some(value) => MsrAction::Answer { value },
            None => MsrAction::Unknown,
        }
    }
}

proof fn lemma_operand(rdx: u64, rax: u64)
    by (bit_vector)
    ensures
        (rdx << 32) | (rax & 0xffff_ffff) == rdx % 0x1_0000_0000 * 0x1_0000_0000 + rax
            % 0x1_0000_0000,
{
}

/// Decide on an MSR access.
pub fn emulate_msr(regs: &L2GprContext, is_write: bool) -> (r: MsrAction)
    ensures
        r == msr_action(*regs, is_write),
{
    proof {
        lemma_operand(regs.rdx, regs.rax);
    }
    let index: u32 = (regs.rcx % 0x1_0000_0000) as u32;
    let value: u64 = (regs.rdx << 32) | (regs.rax & 0xffff_ffff);
    if X2APIC_FIRST <= index && index < X2APIC_END {
        return if is_write {
            MsrAction::ApicWrite { index, value }
        } else {
            MsrAction::ApicRead { index }
        };
    }
    if is_write {
        if index == PAT {
            return MsrAction::WritePat { value };
        }
        // Writing zero to the revision register is how the read is armed;
        // there is nothing to store.
        if index == BIOS_SIGN_ID || index == APIC_BASE || index == MISC_ENABLE || index
            == MTRR_DEF_TYPE {
            return MsrAction::Accept;
        }
        return MsrAction::Unknown;
    }
    if index == PAT {
        MsrAction::ReadPat
    } else if index == APIC_BASE {
        // x2APIC is reported as already on because Linux will not turn it on
        // by itself without interrupt remapping, and the TDX module leaves
        // memory-mapped accesses alone, so xAPIC mode talks to nothing.
        MsrAction::Answer { value: 0xfee0_0d00 }
    } else if index == MISC_ENABLE {
        MsrAction::Answer { value: 1 }
    } else if index == BIOS_SIGN_ID {
        // A microcode revision in the high half, which is where Linux reads
        // it from.
        MsrAction::Answer { value: 0x1_0000_0000 }
    } else if index == MTRR_DEF_TYPE {
        // Write-back everything, MTRRs disabled.
        MsrAction::Answer { value: 0x0c00 }
    } else if index == PLATFORM_ID || index == MTRR_CAP || index == ARCH_CAPABILITIES || index
        == PLATFORM_INFO {
        // Claiming immunity to the speculation issues would be a lie the guest
        // cannot check; claiming nothing lets it apply its own mitigations.
        MsrAction::Answer { value: 0 }
    } else {
        MsrAction::Unknown
    }
}

/// Load the value of a read into EDX and EAX.
pub fn load_msr_value(regs: &mut L2GprContext, value: u64)
    ensures
        *final(regs) == with_msr_value(*old(regs), value),
{
    regs.rax = value % 0x1_0000_0000;
    regs.rdx = value / 0x1_0000_0000;
}

/// A value that was read is the one that writing it back would store.
pub proof fn law_msr_value_round_trips(regs: L2GprContext, value: u64)
    ensures
        msr_operand(with_msr_value(regs, value)) == value,
        msr_index(with_msr_value(regs, value)) == msr_index(regs),
{
}

/// The x2APIC registers, and only they, are the APIC model's.
pub proof fn law_apic_registers_go_to_the_model(regs: L2GprContext, is_write: bool)
    ensures
        X2APIC_FIRST <= msr_index(regs) < X2APIC_END <==> (msr_action(regs, is_write) is ApicRead
            || msr_action(regs, is_write) is ApicWrite),
{
}

/// Every MSR that can be written can be read.
pub proof fn law_writable_msrs_are_readable(regs: L2GprContext)
    ensures
        msr_action(regs, true) !is Unknown ==> msr_action(regs, false) !is Unknown,
{
}

/// What a read answers, and which MSRs can be read, by the architectural number
/// of each: the APIC base is the one of an enabled bootstrap processor in x2APIC
/// mode, fast strings are on, the microcode revision stands in the high half,
/// and the memory type ranges are as firmware leaves them. The page attribute
/// table is the VMCS's, the x2APIC registers are the model's, and every other
/// MSR faults.
pub proof fn law_msr_reads_by_number(regs: L2GprContext)
    ensures
        ({
            let index = regs.rcx % 0x1_0000_0000;
            let action = msr_action(regs, false);
            &&& 0x800 <= index < 0x840 ==> action == (MsrAction::ApicRead { index: index as u32 })
            &&& index == 0x277 ==> action == MsrAction::ReadPat
            &&& index == 0x1b ==> action == (MsrAction::Answer {
                value: crate::vmcs::APIC_BASE_X2APIC,
            })
            &&& index == 0x1b ==> action == (MsrAction::Answer {
                value: (0xfee0_0000 + 0x800 + 0x400 + 0x100) as u64,
            })
            &&& index == 0x1a0 ==> action == (MsrAction::Answer { value: 1 })
            &&& index == 0x8b ==> action == (MsrAction::Answer { value: 0x1_0000_0000 })
            &&& index == 0x2ff ==> action == (MsrAction::Answer { value: 0xc00 })
            &&& index == 0x17 || index == 0xce || index == 0xfe || index == 0x10a ==> action == (
            MsrAction::Answer { value: 0 })
            &&& action is Unknown <==> !(0x800 <= index < 0x840 || index == 0x277 || index == 0x1b
                || index == 0x1a0 || index == 0x8b || index == 0x2ff || index == 0x17 || index
                == 0xce || index == 0xfe || index == 0x10a)
        }),
{
}

/// Which MSRs can be written, by the architectural number of each, and what
/// becomes of the value: EAX is its low half and EDX its high half. The x2APIC
/// registers are the model's, the page attribute table goes into the VMCS, four
/// more are accepted without being stored, and every other MSR faults.
pub proof fn law_msr_writes_by_number(regs: L2GprContext)
    ensures
        ({
            let index = regs.rcx % 0x1_0000_0000;
            let action = msr_action(regs, true);
            let value = if action is ApicWrite {
                action->ApicWrite_value
            } else {
                action->WritePat_value
            };
            &&& 0x800 <= index < 0x840 <==> action is ApicWrite
            &&& action is ApicWrite ==> action->ApicWrite_index == index
            &&& index == 0x277 <==> action is WritePat
            &&& action is ApicWrite || action is WritePat ==> {
                &&& value % 0x1_0000_0000 == regs.rax % 0x1_0000_0000
                &&& value / 0x1_0000_0000 == regs.rdx % 0x1_0000_0000
            }
            &&& index == 0x8b || index == 0x1b || index == 0x1a0 || index == 0x2ff <==> action
                is Accept
            &&& action is ApicWrite || action is WritePat || action is Accept || action is Unknown
        }),
{
}

/// A value that was read is split between EAX and EDX, whose upper halves it
/// clears, and no other register changes.
pub proof fn law_msr_value_is_split(regs: L2GprContext, value: u64)
    ensures
        ({
            let after = with_msr_value(regs, value);
            &&& after.rax == value % 0x1_0000_0000
            &&& after.rdx == value / 0x1_0000_0000
            &&& after == (L2GprContext { rax: after.rax, rdx: after.rdx, ..regs })
        }),
{
}

} // verus!
