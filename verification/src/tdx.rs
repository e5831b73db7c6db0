//! The guest-side TDX interface an L1 VMM under TD partitioning needs.
//!
//! Eight TDCALL leaves and one field-identifier encoding cover everything:
//! reading TDCS, reading and writing the L2 VMCS, aliasing memory into an L2,
//! entering it, and invalidating translations. Each operation comes as a pair:
//! a function that builds the register image of the call, and one that decides
//! what the reply means.
pub mod gpa_attr;

use crate::driver::TdcallArgs;
use crate::error::TdxError;
use vstd::prelude::*;

verus! {

pub const LEAF_VP_INFO: u64 = 1;

pub const LEAF_VM_RD: u64 = 7;

pub const LEAF_VM_WR: u64 = 8;

pub const LEAF_VP_RD: u64 = 9;

pub const LEAF_VP_WR: u64 = 10;

pub const LEAF_MEM_PAGE_ATTR_WR: u64 = 24;

pub const LEAF_VP_ENTER: u64 = 25;

pub const LEAF_VP_INVEPT: u64 = 26;

pub const TDX_SUCCESS: u64 = 0;

pub const TDX_OPERAND_BUSY: u64 = 0x8000_0200_0000_0000;

/// TDCS field holding the `TD_PARAMS.NUM_L2_VMS` the TD was created with.
pub const MD_TDCS_NUM_L2_VMS: u64 = 0x9010_0001_0000_0005;

/// Per-L2 control flags; add the VM id.
pub const MD_TDVPS_L2_CTLS: u64 = 0xA020_0003_0000_0050;

const MD_CONTEXT_VP: u64 = 2;

const MD_CLASS_TDVPS_VMCS_1: u64 = 36;

const MD_CLASS_TDVPS_MSR_BITMAP_1: u64 = 37;

/// How often a page grant is retried before giving up.
pub const MAX_GRANT_TRIES: u32 = 4096;

const CLASS_MASK: u64 = 0xFFFF_FFFF_0000_0000;

const L2_EXIT_HOST_ROUTED_ASYNC: u64 = 0x0000_1100_0000_0000;

const L2_EXIT_HOST_ROUTED_TDVMCALL: u64 = 0x0000_1101_0000_0000;

const L2_EXIT_PENDING_INTERRUPT: u64 = 0x0000_1102_0000_0000;

const PENDING_INTERRUPT: u64 = 0x0000_1120_0000_0000;

/// The 16-bit lane that an attribute operand gives each L2 VM.
pub open spec fn lane(value: u16, vm_id: u8) -> u64 {
    (value as u64) << ((vm_id as u64 * 16) as u64)
}

/// Bit 15 of a lane of the flags operand: invalidate cached translations.
pub const INVEPT_FLAG: u16 = 0x8000;

/// The attribute and flag operands of `TDG.MEM.PAGE.ATTR.WR` for one L2 VM.
pub fn page_attr_operands(vm_id: u8, attr: u16, mask: u16, invept: bool) -> (r: (u64, u64))
    requires
        vm_id <= 3,
    ensures
        r.0 == lane(attr | gpa_attr::VALID, vm_id),
        r.1 == lane(
            mask | (if invept {
                INVEPT_FLAG
            } else {
                0
            }),
            vm_id,
        ),
{
    let shift: u64 = vm_id as u64 * 16;
    let attributes: u64 = ((attr | gpa_attr::VALID) as u64) << shift;
    let invept_bit: u16 = if invept {
        INVEPT_FLAG
    } else {
        0
    };
    let flags: u64 = ((mask | invept_bit) as u64) << shift;
    (attributes, flags)
}

/// How a `TDG.VP.ENTER` returned.
///
/// Only [`VpEnterResult::Exit`] means the L2 ran and stopped for the L1 to
/// service. The other two mean no instruction retired, so the VMM must resume
/// without advancing RIP: getting this wrong silently skips a guest
/// instruction and the guest misbehaves much later.
#[derive(Debug, Clone, Copy, PartialEq, Eq, Structural)]
pub enum VpEnterResult {
    /// The L2 exited to the L1.
    Exit { reason: u16, qualification: u64, instruction_length: u32 },
    /// The host took the exit; resume. The reason says what the L2 did, which
    /// matters when the host cannot actually service it.
    HostRouted { reason: u16 },
    /// No entry happened, an interrupt was pending in the L1; resume.
    NoEntry,
    /// A TDCALL-level failure rather than an L2 exit.
    Error(u64),
}

/// Field widths, as the metadata encoding expresses them.
#[derive(Debug, Clone, Copy, PartialEq, Eq, Structural)]
pub enum Width {
    Bits16,
    Bits32,
    Bits64,
}

impl Width {
    /// The base-two logarithm of the width in bytes.
    pub open spec fn log2_bytes(self) -> u64 {
        match self {
            Width::Bits16 => 1,
            Width::Bits32 => 2,
            Width::Bits64 => 3,
        }
    }

    /// Every bit of the width.
    pub open spec fn all_bits(self) -> u64 {
        match self {
            Width::Bits16 => 0xffff,
            Width::Bits32 => 0xffff_ffff,
            Width::Bits64 => 0xffff_ffff_ffff_ffff,
        }
    }

    pub fn elem_size(self) -> (r: u64)
        ensures
            r == self.log2_bytes(),
    {
        match self {
            Width::Bits16 => 1,
            Width::Bits32 => 2,
            Width::Bits64 => 3,
        }
    }

    pub fn default_mask(self) -> (r: u64)
        ensures
            r == self.all_bits(),
    {
        match self {
            Width::Bits16 => 0xffff,
            Width::Bits32 => 0xffff_ffff,
            Width::Bits64 => 0xffff_ffff_ffff_ffff,
        }
    }
}

/// A metadata field identifier: class in bits 56 to 61, context in bits 52 to
/// 54, the write bit 51, the element size in bits 32 and 33, and the field code
/// in the low half.
pub open spec fn field_id(class: u64, context: u64, write: bool, elem_size: u64, field: u64) -> u64 {
    ((class & 0x3f) << 56) | ((context & 0x7) << 52) | ((if write {
        1u64
    } else {
        0u64
    }) << 51) | ((elem_size & 0x3) << 32) | (field & 0xffff_ffff)
}

pub fn build_field_id(class: u64, context: u64, write: bool, elem_size: u64, field: u64) -> (r: u64)
    ensures
        r == field_id(class, context, write, elem_size, field),
{
    let write_bit: u64 = if write {
        1
    } else {
        0
    };
    ((class & 0x3f) << 56) | ((context & 0x7) << 52) | (write_bit << 51) | ((elem_size & 0x3) << 32)
        | (field & 0xffff_ffff)
}

/// The bits of an L2 VMCS field that the L1 owns.
pub open spec fn writable_bits(field: u32, width: Width) -> u64 {
    match field {
        0x201a => 0x80,
        0x2012 => 0xFFFF_FFFF_FFFF_F000,
        0x2040 => 0xFFFF_FFFF_F018,
        0x2802 => 0xFFC1,
        0x2806 => 0x501,
        0x4002 => 0x48F9_9A04,
        0x4004 => 0xFFFF_FFFF_FFFB_FFFF,
        0x4012 => 0x200,
        0x401e => 0xC51_3F0C,
        0x2034 => 0xE,
        0x6800 => 0x8005_001F,
        0x6804 => 0x3FF_1FBF,
        _ => width.all_bits(),
    }
}

/// The write mask the TDX module requires for a given L2 VMCS field.
///
/// The module rejects a write whose mask covers a bit the L1 does not own, so
/// the mask belongs to the field rather than to the caller. Fields absent from
/// this table are fully writable at their natural width.
pub fn vmcs_write_mask(field: u32, width: Width) -> (r: u64)
    ensures
        r == writable_bits(field, width),
{
    match field {
        0x201a => 0x80,  // EPT pointer
        0x2012 => 0xFFFF_FFFF_FFFF_F000,  // virtual-APIC page address
        0x2040 => 0xFFFF_FFFF_F018,  // HLAT pointer
        0x2802 => 0xFFC1,  // guest IA32_DEBUGCTL
        0x2806 => 0x501,  // guest IA32_EFER
        0x4002 => 0x48F9_9A04,  // primary processor-based controls
        0x4004 => 0xFFFF_FFFF_FFFB_FFFF,  // exception bitmap
        0x4012 => 0x200,  // VM-entry controls
        0x401e => 0xC51_3F0C,  // secondary processor-based controls
        0x2034 => 0xE,  // tertiary processor-based controls
        0x6800 => 0x8005_001F,  // guest CR0
        0x6804 => 0x3FF_1FBF,  // guest CR4
        _ => width.default_mask(),
    }
}

/// An L2 VM, addressed through the TDVPS of the L1 vCPU this runs on.
///
/// Every `TDG.VP.*` leaf acts on the issuing vCPU's TDVPS, so an instance is
/// bound to one L1 vCPU: the thread that programs the VMCS must be the thread
/// that enters, and it must not migrate.
#[derive(Debug, Clone, Copy, PartialEq, Eq, Structural)]
pub struct L2Vm {
    pub vm_id: u8,
}

/// What a reply to a page grant calls for.
#[derive(Debug, Clone, Copy, PartialEq, Eq, Structural)]
pub enum GrantStep {
    /// The alias is in place, after this many calls.
    Granted(u32),
    /// Issue the same call again; it will be call number `tries`.
    Retry { tries: u32 },
    /// Give up.
    Failed(TdxError),
}

impl L2Vm {
    /// The metadata class of this VM's VMCS.
    pub open spec fn vmcs_class(self) -> u64 {
        (36 + (self.vm_id - 1) * 8) as u64
    }

    /// The metadata class of this VM's MSR intercept bitmap.
    pub open spec fn msr_bitmap_class(self) -> u64 {
        (37 + (self.vm_id - 1) * 8) as u64
    }

    /// Whether the id names an L2. Slot 0 is the L1 itself, and an attribute
    /// operand has one 16-bit lane for each of four VMs.
    pub open spec fn wf(self) -> bool {
        1 <= self.vm_id <= 3
    }

    pub fn new(vm_id: u8) -> (r: Self)
        ensures
            r.vm_id == vm_id,
    {
        L2Vm { vm_id }
    }

    pub fn vm_id(&self) -> (r: u8)
        ensures
            r == self.vm_id,
    {
        self.vm_id
    }

    /// Ask how many L2 VMs this TD was created with.
    pub fn num_l2_vms() -> (r: TdcallArgs)
        ensures
            r == TdcallArgs::leaf(LEAF_VM_RD, 0, MD_TDCS_NUM_L2_VMS, 0, 0),
    {
        TdcallArgs { rax: LEAF_VM_RD, rdx: MD_TDCS_NUM_L2_VMS, ..TdcallArgs::default() }
    }

    /// What the reply to [`L2Vm::num_l2_vms`] says. Zero means the TD is not an
    /// L1 VMM and nothing else here will work.
    pub fn num_l2_vms_result(reply: TdcallArgs) -> (r: Result<u64, TdxError>)
        ensures
            r == (if reply.rax == TDX_SUCCESS {
                Ok(reply.r8)
            } else {
                Err(TdxError::ReadL2Slots { status: reply.rax })
            }),
    {
        if reply.rax != TDX_SUCCESS {
            return Err(TdxError::ReadL2Slots { status: reply.rax });
        }
        Ok(reply.r8)
    }

    /// The register image that reads a field of the L2 VMCS.
    pub open spec fn vmcs_read(self, field: u32, width: Width) -> TdcallArgs {
        TdcallArgs::leaf(
            LEAF_VP_RD,
            0,
            field_id(self.vmcs_class(), 2, false, width.log2_bytes(), field as u64),
            0,
            0,
        )
    }

    /// The register image that writes a field of the L2 VMCS.
    pub open spec fn vmcs_write(self, field: u32, width: Width, value: u64) -> TdcallArgs {
        TdcallArgs::leaf(
            LEAF_VP_WR,
            0,
            field_id(self.vmcs_class(), 2, true, width.log2_bytes(), field as u64),
            value,
            writable_bits(field, width),
        )
    }

    /// Read a field of the L2 VMCS.
    pub fn read_vmcs(&self, field: u32, width: Width) -> (r: TdcallArgs)
        requires
            self.vm_id >= 1,
        ensures
            r == self.vmcs_read(field, width),
    {
        let id: u64 = build_field_id(
            MD_CLASS_TDVPS_VMCS_1 + (self.vm_id - 1) as u64 * 8,
            MD_CONTEXT_VP,
            false,
            width.elem_size(),
            field as u64,
        );
        TdcallArgs { rax: LEAF_VP_RD, rdx: id, ..TdcallArgs::default() }
    }

    /// What the reply to [`L2Vm::read_vmcs`] says.
    pub fn read_vmcs_result(field: u32, reply: TdcallArgs) -> (r: Result<u64, TdxError>)
        ensures
            r == (if reply.rax == TDX_SUCCESS {
                Ok(reply.r8)
            } else {
                Err(TdxError::ReadVmcs { field, status: reply.rax })
            }),
    {
        if reply.rax != TDX_SUCCESS {
            return Err(TdxError::ReadVmcs { field, status: reply.rax });
        }
        Ok(reply.r8)
    }

    /// Write a field of the L2 VMCS.
    pub fn write_vmcs(&self, field: u32, width: Width, value: u64) -> (r: TdcallArgs)
        requires
            self.vm_id >= 1,
        ensures
            r == self.vmcs_write(field, width, value),
    {
        let id: u64 = build_field_id(
            MD_CLASS_TDVPS_VMCS_1 + (self.vm_id - 1) as u64 * 8,
            MD_CONTEXT_VP,
            true,
            width.elem_size(),
            field as u64,
        );
        TdcallArgs {
            rax: LEAF_VP_WR,
            rdx: id,
            r8: value,
            r9: vmcs_write_mask(field, width),
            ..TdcallArgs::default()
        }
    }

    /// What the reply to [`L2Vm::write_vmcs`] says.
    pub fn write_vmcs_result(field: u32, value: u64, reply: TdcallArgs) -> (r: Result<(), TdxError>)
        ensures
            r == (if reply.rax == TDX_SUCCESS {
                Ok(())
            } else {
                Err(TdxError::WriteVmcs { field, value, status: reply.rax })
            }),
    {
        if reply.rax != TDX_SUCCESS {
            return Err(TdxError::WriteVmcs { field, value, status: reply.rax });
        }
        Ok(())
    }

    /// Write a TDVPS field that is not part of the VMCS, such as `L2_CTLS`.
    pub fn write_tdvps(&self, field_id: u64, value: u64, mask: u64) -> (r: TdcallArgs)
        ensures
            r == TdcallArgs::leaf(LEAF_VP_WR, 0, field_id, value, mask),
    {
        TdcallArgs { rax: LEAF_VP_WR, rdx: field_id, r8: value, r9: mask, ..TdcallArgs::default() }
    }

    /// What the reply to [`L2Vm::write_tdvps`] says.
    pub fn write_tdvps_result(field_id: u64, reply: TdcallArgs) -> (r: Result<(), TdxError>)
        ensures
            r == (if reply.rax == TDX_SUCCESS {
                Ok(())
            } else {
                Err(TdxError::WriteTdvps { field_id, status: reply.rax })
            }),
    {
        if reply.rax != TDX_SUCCESS {
            return Err(TdxError::WriteTdvps { field_id, status: reply.rax });
        }
        Ok(())
    }

    /// The register image that grants a page with the given attributes.
    pub open spec fn grant(self, gpa: u64, level: u64, attr: u16) -> TdcallArgs {
        TdcallArgs::leaf(
            LEAF_MEM_PAGE_ATTR_WR,
            gpa | level,
            lane(attr | gpa_attr::VALID, self.vm_id),
            lane(attr | 0, self.vm_id),
            0,
        )
    }

    /// The register image that takes every access to a page away, together
    /// with the cached translations that still carry it.
    pub open spec fn revocation(self, gpa: u64) -> TdcallArgs {
        TdcallArgs::leaf(
            LEAF_MEM_PAGE_ATTR_WR,
            gpa,
            lane(0 | gpa_attr::VALID, self.vm_id),
            lane(gpa_attr::RWX | INVEPT_FLAG, self.vm_id),
            0,
        )
    }

    /// Alias one page of this TD's private memory into the L2.
    ///
    /// `level` selects the mapping size: 0 for 4 KiB, 1 for 2 MiB, 2 for
    /// 1 GiB. A large level costs one call instead of 512 or 262144, but the
    /// module only accepts it if it already has a mapping of that size.
    pub fn add_page_alias_level(&self, gpa: u64, level: u64, attr: u16) -> (r: TdcallArgs)
        requires
            self.vm_id <= 3,
        ensures
            r == self.grant(gpa, level, attr),
    {
        let (want, flags) = page_attr_operands(self.vm_id, attr, attr, false);
        TdcallArgs {
            rax: LEAF_MEM_PAGE_ATTR_WR,
            rcx: gpa | level,
            rdx: want,
            r8: flags,
            ..TdcallArgs::default()
        }
    }

    /// Alias one 4 KiB page.
    pub fn add_page_alias(&self, gpa: u64, attr: u16) -> (r: TdcallArgs)
        requires
            self.vm_id <= 3,
        ensures
            r == self.grant(gpa, 0, attr),
    {
        self.add_page_alias_level(gpa, 0, attr)
    }

    /// What the reply to call number `tries` of a grant means.
    pub open spec fn grant_step(
        self,
        gpa: u64,
        attr: u16,
        tries: u32,
        reply: TdcallArgs,
    ) -> GrantStep {
        if reply.rax == TDX_SUCCESS && reply.rdx == lane(attr | gpa_attr::VALID, self.vm_id) {
            GrantStep::Granted(tries)
        } else if reply.rax != TDX_SUCCESS && reply.rax != TDX_OPERAND_BUSY {
            GrantStep::Failed(TdxError::GrantPage { gpa, status: reply.rax })
        } else if tries < MAX_GRANT_TRIES {
            GrantStep::Retry { tries: (tries + 1) as u32 }
        } else {
            GrantStep::Failed(TdxError::GrantNeverTookEffect { gpa })
        }
    }

    /// Decide on the reply to call number `tries` of a grant.
    ///
    /// The module can return without creating the alias: it needs the host to
    /// supply an L2 Secure EPT page first, and signals that by returning
    /// attributes other than the ones requested, so the call is retried. The
    /// bound matters: an unbounded loop would wedge the vCPU if the host never
    /// cooperated.
    pub fn add_page_alias_result(
        &self,
        gpa: u64,
        attr: u16,
        tries: u32,
        reply: TdcallArgs,
    ) -> (r: GrantStep)
        requires
            self.vm_id <= 3,
            1 <= tries <= MAX_GRANT_TRIES,
        ensures
            r == self.grant_step(gpa, attr, tries, reply),
    {
        let (want, _flags) = page_attr_operands(self.vm_id, attr, attr, false);
        if reply.rax != TDX_OPERAND_BUSY {
            if reply.rax != TDX_SUCCESS {
                return GrantStep::Failed(TdxError::GrantPage { gpa, status: reply.rax });
            }
            if reply.rdx == want {
                return GrantStep::Granted(tries);
            }
        }
        if tries < MAX_GRANT_TRIES {
            GrantStep::Retry { tries: tries + 1 }
        } else {
            GrantStep::Failed(TdxError::GrantNeverTookEffect { gpa })
        }
    }

    /// Remove this L2's access to one 4 KiB page.
    ///
    /// Revocation is deliberately different from granting access: the module
    /// must invalidate the L2 translation while narrowing the page's
    /// attributes, otherwise a cached translation can survive after the page
    /// has gone back to the L1.
    pub fn drop_page_alias(&self, gpa: u64) -> (r: TdcallArgs)
        requires
            self.vm_id <= 3,
        ensures
            r == self.revocation(gpa),
    {
        let (want, flags) = page_attr_operands(self.vm_id, 0, gpa_attr::RWX, true);
        TdcallArgs {
            rax: LEAF_MEM_PAGE_ATTR_WR,
            rcx: gpa,
            rdx: want,
            r8: flags,
            ..TdcallArgs::default()
        }
    }

    /// What the reply to [`L2Vm::drop_page_alias`] says.
    pub fn drop_page_alias_result(&self, gpa: u64, reply: TdcallArgs) -> (r: Result<(), TdxError>)
        requires
            self.vm_id <= 3,
        ensures
            r == (if reply.rax != TDX_SUCCESS {
                Err(TdxError::RevokePage { gpa, status: reply.rax })
            } else if reply.rdx != self.revocation(gpa).rdx {
                Err(TdxError::RevokeDidNotTakeEffect { gpa, attributes: reply.rdx })
            } else {
                Ok(())
            }),
    {
        let (want, _flags) = page_attr_operands(self.vm_id, 0, gpa_attr::RWX, true);
        if reply.rax != TDX_SUCCESS {
            return Err(TdxError::RevokePage { gpa, status: reply.rax });
        }
        if reply.rdx != want {
            return Err(TdxError::RevokeDidNotTakeEffect { gpa, attributes: reply.rdx });
        }
        Ok(())
    }

    /// Read one 64-bit word of the L2's MSR intercept bitmap.
    ///
    /// Used to check the field encoding before writing it: a wrong class or
    /// index would corrupt some other part of the TDVPS, and the symptom of
    /// that is the L1 itself hanging with nothing to inspect.
    pub fn read_msr_bitmap(&self, qword: u64) -> (r: TdcallArgs)
        requires
            self.vm_id >= 1,
        ensures
            r == TdcallArgs::leaf(
                LEAF_VP_RD,
                0,
                field_id(self.msr_bitmap_class(), 2, false, 3, qword),
                0,
                0,
            ),
    {
        let class: u64 = MD_CLASS_TDVPS_MSR_BITMAP_1 + (self.vm_id - 1) as u64 * 8;
        let id: u64 = build_field_id(class, MD_CONTEXT_VP, false, 3, qword);
        TdcallArgs { rax: LEAF_VP_RD, rdx: id, ..TdcallArgs::default() }
    }

    /// What the reply to [`L2Vm::read_msr_bitmap`] says.
    pub fn read_msr_bitmap_result(qword: u64, reply: TdcallArgs) -> (r: Result<u64, TdxError>)
        ensures
            r == (if reply.rax == TDX_SUCCESS {
                Ok(reply.r8)
            } else {
                Err(TdxError::ReadMsrBitmap { qword, status: reply.rax })
            }),
    {
        if reply.rax != TDX_SUCCESS {
            return Err(TdxError::ReadMsrBitmap { qword, status: reply.rax });
        }
        Ok(reply.r8)
    }

    /// The bit of one half of the intercept bitmap that stands for an MSR. The
    /// bitmap covers two ranges of 8192 MSRs, one after the other.
    pub open spec fn msr_bitmap_bit(msr: u32) -> Option<u64> {
        if msr < 0x2000 {
            Some(msr as u64)
        } else if 0xc000_0000 <= msr < 0xc000_2000 {
            Some((8192 + (msr - 0xc000_0000)) as u64)
        } else {
            None
        }
    }

    /// The register image that clears one bit of the intercept bitmap: of the
    /// read intercepts when `region` is 0, of the write intercepts when it
    /// is 256.
    pub open spec fn clear_intercept(self, bit: u64, region: u64) -> TdcallArgs {
        TdcallArgs::leaf(
            LEAF_VP_WR,
            0,
            field_id(self.msr_bitmap_class(), 2, true, 3, (region + bit / 64) as u64),
            0,
            1u64 << (bit % 64),
        )
    }

    /// Stop intercepting an MSR, letting the hardware serve the L2 directly:
    /// the calls that clear its read intercept and its write intercept.
    ///
    /// Emulating an MSR means inventing a value, and for the ones that hold
    /// per-CPU state an invented value is indistinguishable from memory
    /// corruption a long way from the cause. The TDX module context-switches
    /// these for an L2 already; the L1's only job is to get out of the way.
    pub fn passthrough_msr(&self, msr: u32) -> (r: Result<[TdcallArgs; 2], TdxError>)
        requires
            self.vm_id >= 1,
        ensures
            match L2Vm::msr_bitmap_bit(msr) {
                Some(bit) => {
                    &&& r matches Ok(calls)
                    &&& calls@ == seq![
                        self.clear_intercept(bit, 0),
                        self.clear_intercept(bit, 256),
                    ]
                },
                None => r == Err::<[TdcallArgs; 2], TdxError>(TdxError::MsrOutsideBitmap { msr }),
            },
    {
        let index: u64 = if msr < 0x2000 {
            msr as u64
        } else if 0xc000_0000 <= msr && msr < 0xc000_2000 {
            128 * 64 + (msr - 0xc000_0000) as u64
        } else {
            return Err(TdxError::MsrOutsideBitmap { msr });
        };
        let class: u64 = MD_CLASS_TDVPS_MSR_BITMAP_1 + (self.vm_id - 1) as u64 * 8;
        let read: TdcallArgs = TdcallArgs {
            rax: LEAF_VP_WR,
            rdx: build_field_id(class, MD_CONTEXT_VP, true, 3, index / 64),
            r9: 1u64 << (index % 64),
            ..TdcallArgs::default()
        };
        let write: TdcallArgs = TdcallArgs {
            rax: LEAF_VP_WR,
            rdx: build_field_id(class, MD_CONTEXT_VP, true, 3, 256 + index / 64),
            r9: 1u64 << (index % 64),
            ..TdcallArgs::default()
        };
        let calls: [TdcallArgs; 2] = [read, write];
        assert(calls@ =~= seq![read, write]);
        Ok(calls)
    }

    /// What the reply to either call of [`L2Vm::passthrough_msr`] says.
    pub fn passthrough_msr_result(msr: u32, reply: TdcallArgs) -> (r: Result<(), TdxError>)
        ensures
            r == (if reply.rax == TDX_SUCCESS {
                Ok(())
            } else {
                Err(TdxError::ClearMsrIntercept { msr, status: reply.rax })
            }),
    {
        if reply.rax != TDX_SUCCESS {
            return Err(TdxError::ClearMsrIntercept { msr, status: reply.rax });
        }
        Ok(())
    }

    /// Invalidate the L2's cached translations. The reply carries no status
    /// worth acting on.
    pub fn invept(&self) -> (r: TdcallArgs)
        requires
            self.vm_id < 64,
        ensures
            r == TdcallArgs::leaf(LEAF_VP_INVEPT, 1u64 << (self.vm_id as u64), 0, 0, 0),
    {
        TdcallArgs { rax: LEAF_VP_INVEPT, rcx: 1u64 << (self.vm_id as u64), ..TdcallArgs::default() }
    }

    /// Run the L2 until it exits. `context_gpa` is the GPR image the module
    /// loads on entry and writes back on exit.
    pub fn enter(&self, context_gpa: u64) -> (r: TdcallArgs)
        ensures
            r == TdcallArgs::leaf(
                LEAF_VP_ENTER,
                (self.vm_id as u64) << 52,
                context_gpa,
                0,
                0,
            ),
    {
        TdcallArgs {
            rax: LEAF_VP_ENTER,
            rcx: (self.vm_id as u64) << 52,
            rdx: context_gpa,
            ..TdcallArgs::default()
        }
    }

    /// The meaning of a reply to `TDG.VP.ENTER`: the upper half of the status
    /// is its class, and its low 16 bits are the exit reason.
    pub open spec fn entry_result(reply: Option<TdcallArgs>) -> VpEnterResult {
        match reply {
            None => VpEnterResult::NoEntry,
            Some(args) => {
                let class = args.rax & 0xFFFF_FFFF_0000_0000;
                if class == 0x0000_1120_0000_0000 {
                    VpEnterResult::NoEntry
                } else if class == 0x0000_1100_0000_0000 || class == 0x0000_1101_0000_0000 {
                    VpEnterResult::HostRouted { reason: (args.rax % 0x1_0000) as u16 }
                } else if class == 0 || class == 0x0000_1102_0000_0000 {
                    VpEnterResult::Exit {
                        reason: (args.rax % 0x1_0000) as u16,
                        qualification: args.rcx,
                        instruction_length: (args.r11 / 0x1_0000_0000) as u32,
                    }
                } else {
                    VpEnterResult::Error(args.rax)
                }
            },
        }
    }

    /// Sort out how an entry returned. `None` is an entry that a kick ended
    /// before it began.
    pub fn enter_result(reply: Option<TdcallArgs>) -> (r: VpEnterResult)
        ensures
            r == L2Vm::entry_result(reply),
    {
        let args: TdcallArgs = match reply {
            Some(args) => args,
            None => return VpEnterResult::NoEntry,
        };
        proof {
            crate::bits::lemma_split_u64(args.rax);
            crate::bits::lemma_split_u64(args.r11);
        }
        let class: u64 = args.rax & CLASS_MASK;
        let reason: u16 = args.rax as u16;
        if class == PENDING_INTERRUPT {
            VpEnterResult::NoEntry
        } else if class == L2_EXIT_HOST_ROUTED_ASYNC || class == L2_EXIT_HOST_ROUTED_TDVMCALL {
            VpEnterResult::HostRouted { reason }
        } else if class == TDX_SUCCESS || class == L2_EXIT_PENDING_INTERRUPT {
            VpEnterResult::Exit {
                reason,
                qualification: args.rcx,
                instruction_length: (args.r11 >> 32) as u32,
            }
        } else {
            VpEnterResult::Error(args.rax)
        }
    }
}

/// The contents of lane `vm_id` of an attribute or flags operand.
pub open spec fn lane_of(operand: u64, vm_id: u8) -> u16 {
    ((operand >> ((vm_id as u64 * 16) as u64)) & 0xffff) as u16
}

proof fn lemma_lane(value: u16, vm_id: u8, other: u8)
    by (bit_vector)
    requires
        vm_id <= 3,
        other <= 3,
    ensures
        ((((value as u64) << ((vm_id as u64 * 16) as u64)) >> ((other as u64 * 16) as u64)) & 0xffff)
            as u16 == (if vm_id == other {
            value
        } else {
            0
        }),
{
}

/// Granting a page sets exactly the requested attributes, marks the lane valid
/// and invalidates nothing; revoking it leaves no access and demands that
/// cached translations go. Neither says anything about another L2 VM.
pub proof fn law_grant_and_revocation_touch_one_vm(
    vm: L2Vm,
    gpa: u64,
    level: u64,
    attr: u16,
    other: u8,
)
    requires
        vm.wf(),
        other <= 3,
        attr & gpa_attr::VALID == 0,
    ensures
        lane_of(vm.grant(gpa, level, attr).rdx, vm.vm_id) == attr | gpa_attr::VALID,
        lane_of(vm.grant(gpa, level, attr).r8, vm.vm_id) == attr,
        lane_of(vm.revocation(gpa).rdx, vm.vm_id) == gpa_attr::VALID,
        lane_of(vm.revocation(gpa).r8, vm.vm_id) == gpa_attr::RWX | INVEPT_FLAG,
        other != vm.vm_id ==> {
            &&& lane_of(vm.grant(gpa, level, attr).rdx, other) == 0
            &&& lane_of(vm.grant(gpa, level, attr).r8, other) == 0
            &&& lane_of(vm.revocation(gpa).rdx, other) == 0
            &&& lane_of(vm.revocation(gpa).r8, other) == 0
        },
{
    lemma_lane(attr | gpa_attr::VALID, vm.vm_id, vm.vm_id);
    lemma_lane(attr | 0, vm.vm_id, vm.vm_id);
    lemma_lane(0 | gpa_attr::VALID, vm.vm_id, vm.vm_id);
    lemma_lane(gpa_attr::RWX | INVEPT_FLAG, vm.vm_id, vm.vm_id);
    lemma_lane(attr | gpa_attr::VALID, vm.vm_id, other);
    lemma_lane(attr | 0, vm.vm_id, other);
    lemma_lane(0 | gpa_attr::VALID, vm.vm_id, other);
    lemma_lane(gpa_attr::RWX | INVEPT_FLAG, vm.vm_id, other);
    assert(attr | 0 == attr && 0 | 0x8000u16 == 0x8000u16) by (bit_vector);
}

/// Every call of a grant but the last may ask for one more, and the last never
/// does: a grant takes at most [`MAX_GRANT_TRIES`] calls, whatever the module
/// answers.
pub proof fn law_grant_is_bounded(vm: L2Vm, gpa: u64, attr: u16, tries: u32, reply: TdcallArgs)
    requires
        1 <= tries <= MAX_GRANT_TRIES,
    ensures
        vm.grant_step(gpa, attr, tries, reply) matches GrantStep::Retry { tries: next} ==> next
            == tries + 1 && next <= MAX_GRANT_TRIES,
        tries == MAX_GRANT_TRIES ==> !(vm.grant_step(gpa, attr, tries, reply) is Retry),
{
}

/// A page counts as granted only when the module reports the very attributes
/// that were asked for.
pub proof fn law_granted_means_requested_attributes(
    vm: L2Vm,
    gpa: u64,
    level: u64,
    attr: u16,
    tries: u32,
    reply: TdcallArgs,
)
    requires
        1 <= tries <= MAX_GRANT_TRIES,
        vm.grant_step(gpa, attr, tries, reply) is Granted,
    ensures
        reply.rax == TDX_SUCCESS,
        reply.rdx == vm.grant(gpa, level, attr).rdx,
{
}

proof fn lemma_field_id_parts(class: u64, context: u64, write: u64, elem_size: u64, field: u64)
    by (bit_vector)
    requires
        write <= 1,
    ensures
        ((((class & 0x3f) << 56) | ((context & 0x7) << 52) | (write << 51) | ((elem_size & 0x3) << 32)
            | (field & 0xffff_ffff)) >> 56) & 0x3f == class & 0x3f,
        ((((class & 0x3f) << 56) | ((context & 0x7) << 52) | (write << 51) | ((elem_size & 0x3) << 32)
            | (field & 0xffff_ffff)) >> 52) & 0x7 == context & 0x7,
        ((((class & 0x3f) << 56) | ((context & 0x7) << 52) | (write << 51) | ((elem_size & 0x3) << 32)
            | (field & 0xffff_ffff)) >> 51) & 1 == write,
        ((((class & 0x3f) << 56) | ((context & 0x7) << 52) | (write << 51) | ((elem_size & 0x3) << 32)
            | (field & 0xffff_ffff)) >> 32) & 0x3 == elem_size & 0x3,
        (((class & 0x3f) << 56) | ((context & 0x7) << 52) | (write << 51) | ((elem_size & 0x3) << 32)
            | (field & 0xffff_ffff)) & 0xffff_ffff == field & 0xffff_ffff,
        class < 0x40 ==> class & 0x3f == class,
        context < 8 ==> context & 0x7 == context,
        elem_size < 4 ==> elem_size & 0x3 == elem_size,
        field <= 0xffff_ffff ==> field & 0xffff_ffff == field,
{
}

/// A field identifier can be taken apart again, so two different fields,
/// widths, directions, contexts or classes never share an identifier.
pub proof fn law_field_id_is_injective(
    class1: u64,
    context1: u64,
    write1: bool,
    size1: u64,
    field1: u64,
    class2: u64,
    context2: u64,
    write2: bool,
    size2: u64,
    field2: u64,
)
    requires
        class1 < 0x40 && class2 < 0x40,
        context1 < 8 && context2 < 8,
        size1 < 4 && size2 < 4,
        field1 <= 0xffff_ffff && field2 <= 0xffff_ffff,
        field_id(class1, context1, write1, size1, field1) == field_id(
            class2,
            context2,
            write2,
            size2,
            field2,
        ),
    ensures
        class1 == class2,
        context1 == context2,
        write1 == write2,
        size1 == size2,
        field1 == field2,
{
    lemma_field_id_parts(
        class1,
        context1,
        if write1 {
            1
        } else {
            0
        },
        size1,
        field1,
    );
    lemma_field_id_parts(
        class2,
        context2,
        if write2 {
            1
        } else {
            0
        },
        size2,
        field2,
    );
}

/// Reads and writes of different VMCS fields, at different widths, or of
/// different L2 VMs, and the intercept bitmap of any of them, never reach each
/// other's state.
pub proof fn law_vmcs_accesses_do_not_collide(
    vm1: L2Vm,
    field1: u32,
    width1: Width,
    vm2: L2Vm,
    field2: u32,
    width2: Width,
    value: u64,
    bit: u64,
    region: u64,
)
    requires
        vm1.wf(),
        vm2.wf(),
        bit < 16384,
        region == 0 || region == 256,
    ensures
        vm1.vmcs_read(field1, width1).rdx == vm2.vmcs_read(field2, width2).rdx ==> vm1 == vm2
            && field1 == field2 && width1 == width2,
        vm1.vmcs_write(field1, width1, value).rdx == vm2.vmcs_write(field2, width2, value).rdx
            ==> vm1 == vm2 && field1 == field2 && width1 == width2,
        vm1.vmcs_write(field1, width1, value).rdx != vm2.clear_intercept(bit, region).rdx,
{
    if vm1.vmcs_read(field1, width1).rdx == vm2.vmcs_read(field2, width2).rdx {
        law_field_id_is_injective(
            vm1.vmcs_class(),
            2,
            false,
            width1.log2_bytes(),
            field1 as u64,
            vm2.vmcs_class(),
            2,
            false,
            width2.log2_bytes(),
            field2 as u64,
        );
    }
    if vm1.vmcs_write(field1, width1, value).rdx == vm2.vmcs_write(field2, width2, value).rdx {
        law_field_id_is_injective(
            vm1.vmcs_class(),
            2,
            true,
            width1.log2_bytes(),
            field1 as u64,
            vm2.vmcs_class(),
            2,
            true,
            width2.log2_bytes(),
            field2 as u64,
        );
    }
    if vm1.vmcs_write(field1, width1, value).rdx == vm2.clear_intercept(bit, region).rdx {
        law_field_id_is_injective(
            vm1.vmcs_class(),
            2,
            true,
            width1.log2_bytes(),
            field1 as u64,
            vm2.msr_bitmap_class(),
            2,
            true,
            3,
            (region + bit / 64) as u64,
        );
    }
}

/// Two MSRs never share a bit of the intercept bitmap, and the bit stays inside
/// the half it belongs to.
pub proof fn law_msr_bits_are_distinct(msr1: u32, msr2: u32)
    ensures
        L2Vm::msr_bitmap_bit(msr1) matches Some(bit) ==> bit < 16384,
        L2Vm::msr_bitmap_bit(msr1) is Some && L2Vm::msr_bitmap_bit(msr1) == L2Vm::msr_bitmap_bit(
            msr2,
        ) ==> msr1 == msr2,
{
}

/// No bit the L1 does not own is ever covered by a write: the mask of a VMCS
/// write depends on the field alone, never on the value.
pub proof fn law_write_mask_ignores_value(vm: L2Vm, field: u32, width: Width, a: u64, b: u64)
    ensures
        vm.vmcs_write(field, width, a).r9 == vm.vmcs_write(field, width, b).r9,
        vm.vmcs_write(field, width, a).r9 == writable_bits(field, width),
{
}

/// Entries end in exactly one of four ways, and only a status of class zero or
/// of the pending-interrupt exit class reports an exit the L1 has to service.
pub proof fn law_only_two_classes_are_exits(args: TdcallArgs)
    ensures
        L2Vm::entry_result(Some(args)) is Exit <==> (args.rax & 0xFFFF_FFFF_0000_0000 == 0
            || args.rax & 0xFFFF_FFFF_0000_0000 == 0x0000_1102_0000_0000),
        L2Vm::entry_result(None) == VpEnterResult::NoEntry,
{
}

/// A VMCS access says what it does: the leaf is `TDG.VP.RD` or `TDG.VP.WR`, the
/// field identifier names the VMCS of this L2 VM, the issuing VP as its context,
/// the direction, the width and the field, a write carries the value and the
/// mask of the bits that are the L1's, and no other register matters.
pub proof fn law_vmcs_calls_name_their_field(vm: L2Vm, field: u32, width: Width, value: u64)
    requires
        vm.wf(),
    ensures
        ({
            let read = vm.vmcs_read(field, width);
            let write = vm.vmcs_write(field, width, value);
            &&& read.rax == 9 && write.rax == 10
            &&& read.rcx == 0 && write.rcx == 0
            &&& (read.rdx >> 56) & 0x3f == 36 + 8 * (vm.vm_id - 1)
            &&& (write.rdx >> 56) & 0x3f == 36 + 8 * (vm.vm_id - 1)
            &&& (read.rdx >> 52) & 7 == 2 && (write.rdx >> 52) & 7 == 2
            &&& (read.rdx >> 51) & 1 == 0 && (write.rdx >> 51) & 1 == 1
            &&& (read.rdx >> 32) & 3 == (match width {
                Width::Bits16 => 1u64,
                Width::Bits32 => 2,
                Width::Bits64 => 3,
            })
            &&& (write.rdx >> 32) & 3 == (read.rdx >> 32) & 3
            &&& read.rdx & 0xffff_ffff == field && write.rdx & 0xffff_ffff == field
            &&& read.r8 == 0 && read.r9 == 0
            &&& write.r8 == value
        }),
{
    lemma_field_id_parts(vm.vmcs_class(), 2, 0, width.log2_bytes(), field as u64);
    lemma_field_id_parts(vm.vmcs_class(), 2, 1, width.log2_bytes(), field as u64);
}

/// The bits of a VMCS field that the L1 may write, field by field: twelve fields
/// are shared with the TDX module, and every other one is the L1's at its full
/// width.
pub proof fn law_write_masks_by_field(field: u32, width: Width)
    ensures
        ({
            let mask = writable_bits(field, width);
            &&& field == crate::vmcs::field::VIRTUAL_APIC_PAGE ==> mask == 0xffff_ffff_ffff_f000
            &&& field == crate::vmcs::field::GUEST_IA32_DEBUGCTL ==> mask == 0xffc1
            &&& field == crate::vmcs::field::GUEST_IA32_EFER ==> mask == 0x501
            &&& field == crate::vmcs::field::PROC_EXEC_CTLS ==> mask == 0x48f9_9a04
            &&& field == crate::vmcs::field::EXCEPTION_BITMAP ==> mask == 0xffff_ffff_fffb_ffff
            &&& field == crate::vmcs::field::ENTRY_CTLS ==> mask == 0x200
            &&& field == crate::vmcs::field::PROC_EXEC_CTLS2 ==> mask == 0x0c51_3f0c
            &&& field == crate::vmcs::field::GUEST_CR0 ==> mask == 0x8005_001f
            &&& field == crate::vmcs::field::GUEST_CR4 ==> mask == 0x03ff_1fbf
            &&& field == 0x201a ==> mask == 0x80
            &&& field == 0x2034 ==> mask == 0xe
            &&& field == 0x2040 ==> mask == 0xffff_ffff_f018
            &&& !(field == crate::vmcs::field::VIRTUAL_APIC_PAGE || field
                == crate::vmcs::field::GUEST_IA32_DEBUGCTL || field
                == crate::vmcs::field::GUEST_IA32_EFER || field
                == crate::vmcs::field::PROC_EXEC_CTLS || field
                == crate::vmcs::field::EXCEPTION_BITMAP || field == crate::vmcs::field::ENTRY_CTLS
                || field == crate::vmcs::field::PROC_EXEC_CTLS2 || field
                == crate::vmcs::field::GUEST_CR0 || field == crate::vmcs::field::GUEST_CR4 || field
                == 0x201a || field == 0x2034 || field == 0x2040) ==> mask == (match width {
                Width::Bits16 => 0xffffu64,
                Width::Bits32 => 0xffff_ffff,
                Width::Bits64 => 0xffff_ffff_ffff_ffff,
            })
        }),
{
}

proof fn lemma_page_operand(gpa: u64, level: u64)
    by (bit_vector)
    requires
        gpa % 0x1000 == 0,
        level <= 2,
    ensures
        (gpa | level) / 0x1000 == gpa / 0x1000,
        (gpa | level) % 0x1000 == level,
{
}

/// Granting and revoking are calls of `TDG.MEM.PAGE.ATTR.WR` for the page that
/// was asked for: the page's address stands in RCX, the mapping size in the low
/// bits of a grant and zero in those of a revocation.
pub proof fn law_page_calls_name_their_page(vm: L2Vm, gpa: u64, level: u64, attr: u16)
    requires
        gpa % 0x1000 == 0,
        level <= 2,
    ensures
        vm.grant(gpa, level, attr).rax == 24,
        vm.grant(gpa, level, attr).rcx / 0x1000 == gpa / 0x1000,
        vm.grant(gpa, level, attr).rcx % 0x1000 == level,
        vm.grant(gpa, level, attr).r9 == 0,
        vm.revocation(gpa).rax == 24,
        vm.revocation(gpa).rcx == gpa,
        vm.revocation(gpa).r9 == 0,
{
    lemma_page_operand(gpa, level);
}

/// The attributes are bits of their own: reading, writing and the two kinds of
/// execution, with the flag that makes a lane count in the top bit, where the
/// flags operand has the one that demands an invalidation. Full access is
/// reading, writing and supervisor execution.
pub proof fn law_attributes_are_bits()
    ensures
        gpa_attr::R == 1,
        gpa_attr::W == 2,
        gpa_attr::XS == 4,
        gpa_attr::XU == 8,
        gpa_attr::RWX == gpa_attr::R + gpa_attr::W + gpa_attr::XS,
        gpa_attr::VALID == 0x8000,
        INVEPT_FLAG == 0x8000,
{
}

/// What a reply to a grant means, whatever it is: success with the requested
/// attributes is a grant; success with others, or a busy page, is tried again
/// until the tries are used up, and then given up; any other status is a failure
/// and is reported with the page.
pub proof fn law_grant_replies(
    vm: L2Vm,
    gpa: u64,
    level: u64,
    attr: u16,
    tries: u32,
    reply: TdcallArgs,
)
    requires
        1 <= tries <= 4096,
    ensures
        ({
            let step = vm.grant_step(gpa, attr, tries, reply);
            let took = reply.rdx == vm.grant(gpa, level, attr).rdx;
            let again = (reply.rax == 0 && !took) || reply.rax == 0x8000_0200_0000_0000;
            &&& reply.rax == 0 && took ==> step == GrantStep::Granted(tries)
            &&& again && tries < 4096 ==> step == (GrantStep::Retry { tries: (tries + 1) as u32 })
            &&& again && tries == 4096 ==> step == GrantStep::Failed(
                TdxError::GrantNeverTookEffect { gpa },
            )
            &&& reply.rax != 0 && reply.rax != 0x8000_0200_0000_0000 ==> step == GrantStep::Failed(
                TdxError::GrantPage { gpa, status: reply.rax },
            )
        }),
{
}

pub proof fn lemma_entry_operands(vm_id: u64, bit: u64, other: u64, status: u64)
    by (bit_vector)
    requires
        vm_id <= 0xff,
        bit < 64,
        other < 64,
    ensures
        (vm_id << 52) >> 52 == vm_id,
        (vm_id << 52) & 0xf_ffff_ffff_ffff == 0,
        ((1u64 << bit) >> other) & 1 == 1 <==> bit == other,
        status & 0xFFFF_FFFF_0000_0000 == status / 0x1_0000_0000 * 0x1_0000_0000,
        0u16 & 0x8000u16 == 0,
{
}

/// Passing an MSR through clears one bit of the intercept bitmap of this L2 VM
/// and no other: the low 8192 MSRs have the first 128 words, the 8192 from
/// 0xc000_0000 on the 128 words behind them, and the write intercepts lie 256
/// words behind the read intercepts. Every other MSR has no bit.
#[verifier::rlimit(40)]
pub proof fn law_clearing_an_intercept_clears_one_bit(vm: L2Vm, msr: u32, region: u64, other: u64)
    requires
        vm.wf(),
        region == 0 || region == 256,
        other < 64,
    ensures
        L2Vm::msr_bitmap_bit(msr) is Some <==> msr < 0x2000 || 0xc000_0000 <= msr < 0xc000_2000,
        L2Vm::msr_bitmap_bit(msr) matches Some(bit) ==> {
            let call = vm.clear_intercept(bit, region);
            &&& call.rax == 10 && call.rcx == 0
            &&& (call.rdx >> 56) & 0x3f == 37 + 8 * (vm.vm_id - 1)
            &&& (call.rdx >> 52) & 7 == 2
            &&& (call.rdx >> 51) & 1 == 1
            &&& (call.rdx >> 32) & 3 == 3
            &&& call.rdx & 0xffff_ffff == region + msr % 0x2000 / 64 + (if msr < 0x2000 {
                0int
            } else {
                128
            })
            &&& call.r8 == 0
            &&& (call.r9 >> other) & 1 == 1 <==> other == msr % 64
        },
{
    if let Some(bit) = L2Vm::msr_bitmap_bit(msr) {
        lemma_entry_operands(0, bit % 64, other, 0);
        if msr < 0x2000 {
            assert(bit == msr);
        } else {
            assert(bit == 0x2000 + msr % 0x2000);
            assert(bit / 64 == 128 + msr % 0x2000 / 64);
        }
        assert(bit % 64 == msr % 64);
        let word = (region + bit / 64) as u64;
        lemma_field_id_parts(vm.msr_bitmap_class(), 2, 1, 3, word);
        assert(vm.msr_bitmap_class() == 37 + 8 * (vm.vm_id - 1));
    }
}

/// What the reply to an entry says, by the upper half of its status. Class 0 and
/// the class of an exit with an interrupt pending report an exit of the L2: the
/// reason in the low 16 bits of the status, the qualification in RCX and the
/// length of the instruction in the upper half of R11. The two classes of exits
/// that the host took report only the reason, the class of an interrupt that was
/// pending reports that nothing was entered, and every other status is a failure
/// and kept as it is.
pub proof fn law_entry_replies_by_class(args: TdcallArgs)
    ensures
        ({
            let class = args.rax / 0x1_0000_0000;
            let result = L2Vm::entry_result(Some(args));
            &&& class == 0 || class == 0x1102 ==> (result matches VpEnterResult::Exit {
                reason,
                qualification,
                instruction_length,
            } && reason == args.rax % 0x1_0000 && qualification == args.rcx && instruction_length
                == args.r11 / 0x1_0000_0000)
            &&& class == 0x1100 || class == 0x1101 ==> (result matches VpEnterResult::HostRouted {
                reason,
            } && reason == args.rax % 0x1_0000)
            &&& class == 0x1120 ==> result == VpEnterResult::NoEntry
            &&& class != 0 && class != 0x1100 && class != 0x1101 && class != 0x1102 && class
                != 0x1120 ==> result == VpEnterResult::Error(args.rax)
        }),
{
    lemma_entry_operands(0, 0, 0, args.rax);
}

/// The numbers of the leaves and of the fields outside the VMCS are the
/// module's, and so are the two statuses that are told apart.
pub proof fn law_module_numbers()
    ensures
        LEAF_VP_INFO == 1,
        LEAF_VM_RD == 7,
        LEAF_VM_WR == 8,
        LEAF_VP_RD == 9,
        LEAF_VP_WR == 10,
        LEAF_MEM_PAGE_ATTR_WR == 24,
        LEAF_VP_ENTER == 25,
        LEAF_VP_INVEPT == 26,
        TDX_SUCCESS == 0,
        TDX_OPERAND_BUSY == 0x8000_0200_0000_0000,
        MD_TDCS_NUM_L2_VMS == 0x9010_0001_0000_0005,
        MD_TDVPS_L2_CTLS == 0xa020_0003_0000_0050,
        MAX_GRANT_TRIES == 4096,
{
}

/// An entry is a call of `TDG.VP.ENTER` that names the L2 VM above bit 52 of RCX
/// and nothing below, and the register image in RDX; an invalidation is one of
/// `TDG.VP.INVEPT` with the bit of this L2 VM and no other.
pub proof fn law_entries_and_invalidations_name_the_vm(
    vm: L2Vm,
    context_gpa: u64,
    entry: TdcallArgs,
    invalidation: TdcallArgs,
    other: u64,
)
    requires
        vm.wf(),
        other < 64,
        call_ensures(L2Vm::enter, (&vm, context_gpa), entry),
        call_ensures(L2Vm::invept, (&vm,), invalidation),
    ensures
        entry.rax == 25,
        entry.rcx >> 52 == vm.vm_id,
        entry.rcx & 0xf_ffff_ffff_ffff == 0,
        entry.rdx == context_gpa,
        entry.r8 == 0 && entry.r9 == 0,
        invalidation.rax == 26,
        (invalidation.rcx >> other) & 1 == 1 <==> other == vm.vm_id,
        invalidation.rdx == 0 && invalidation.r8 == 0 && invalidation.r9 == 0,
{
    lemma_entry_operands(vm.vm_id as u64, vm.vm_id as u64, other, 0);
}

/// What a reply means for a call that has no second chance: success is the
/// module's zero, a read then gives R8, and any other status is a failure that is
/// reported with what was accessed.
pub proof fn law_replies_give_r8_or_fail(
    field: u32,
    field_id: u64,
    qword: u64,
    msr: u32,
    value: u64,
    reply: TdcallArgs,
    slots: Result<u64, TdxError>,
    read: Result<u64, TdxError>,
    word: Result<u64, TdxError>,
    wrote: Result<(), TdxError>,
    stored: Result<(), TdxError>,
    passed: Result<(), TdxError>,
)
    requires
        call_ensures(L2Vm::num_l2_vms_result, (reply,), slots),
        call_ensures(L2Vm::read_vmcs_result, (field, reply), read),
        call_ensures(L2Vm::read_msr_bitmap_result, (qword, reply), word),
        call_ensures(L2Vm::write_vmcs_result, (field, value, reply), wrote),
        call_ensures(L2Vm::write_tdvps_result, (field_id, reply), stored),
        call_ensures(L2Vm::passthrough_msr_result, (msr, reply), passed),
    ensures
        ({
            let status = reply.rax;
            &&& status == 0 ==> slots == Ok::<u64, TdxError>(reply.r8) && read == Ok::<
                u64,
                TdxError,
            >(reply.r8) && word == Ok::<u64, TdxError>(reply.r8)
            &&& status == 0 ==> wrote is Ok && stored is Ok && passed is Ok
            &&& status != 0 ==> {
                &&& slots == Err::<u64, TdxError>(TdxError::ReadL2Slots { status })
                &&& read == Err::<u64, TdxError>(TdxError::ReadVmcs { field, status })
                &&& word == Err::<u64, TdxError>(TdxError::ReadMsrBitmap { qword, status })
                &&& wrote == Err::<(), TdxError>(TdxError::WriteVmcs { field, value, status })
                &&& stored == Err::<(), TdxError>(TdxError::WriteTdvps { field_id, status })
                &&& passed == Err::<(), TdxError>(TdxError::ClearMsrIntercept { msr, status })
            }
        }),
{
}

/// A page counts as revoked only when the module succeeded and reports that this
/// L2 VM has no access left; anything else is a failure that is reported with the
/// page.
pub proof fn law_revoked_means_no_access_left(
    vm: L2Vm,
    gpa: u64,
    reply: TdcallArgs,
    revoked: Result<(), TdxError>,
)
    requires
        vm.wf(),
        call_ensures(L2Vm::drop_page_alias_result, (&vm, gpa, reply), revoked),
    ensures
        revoked is Ok <==> reply.rax == 0 && reply.rdx == vm.revocation(gpa).rdx,
        revoked is Ok ==> lane_of(reply.rdx, vm.vm_id) == 0x8000,
        reply.rax != 0 ==> revoked == Err::<(), TdxError>(
            TdxError::RevokePage { gpa, status: reply.rax },
        ),
        reply.rax == 0 && reply.rdx != vm.revocation(gpa).rdx ==> revoked == Err::<(), TdxError>(
            TdxError::RevokeDidNotTakeEffect { gpa, attributes: reply.rdx },
        ),
{
    lemma_entry_operands(0, 0, 0, 0);
    law_grant_and_revocation_touch_one_vm(vm, gpa, 0, 0, 0);
}

/// The number of L2 VMs is read from the field that holds it, and a word of the
/// intercept bitmap from the bitmap of this L2 VM.
pub proof fn law_other_reads_name_their_field(
    vm: L2Vm,
    qword: u64,
    slots: TdcallArgs,
    word: TdcallArgs,
)
    requires
        vm.wf(),
        qword <= 0xffff_ffff,
        call_ensures(L2Vm::num_l2_vms, (), slots),
        call_ensures(L2Vm::read_msr_bitmap, (&vm, qword), word),
    ensures
        slots.rax == 7 && slots.rcx == 0 && slots.rdx == 0x9010_0001_0000_0005,
        word.rax == 9 && word.rcx == 0,
        (word.rdx >> 56) & 0x3f == 37 + 8 * (vm.vm_id - 1),
        (word.rdx >> 52) & 7 == 2,
        (word.rdx >> 51) & 1 == 0,
        (word.rdx >> 32) & 3 == 3,
        word.rdx & 0xffff_ffff == qword,
{
    lemma_field_id_parts(vm.msr_bitmap_class(), 2, 0, 3, qword);
}

} // verus!
