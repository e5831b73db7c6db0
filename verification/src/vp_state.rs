//! Per-processor state.
//!
//! Registers come from two places: the general-purpose registers live in the
//! image the TDX module exchanges on every entry, and everything else is VMCS
//! fields, one TDCALL each.
//!
//! The rest is state this backend does not model. Snapshot reads fail
//! explicitly. Writes are accepted only before first entry, while the loader is
//! constructing a fresh VP; once the VP has run, a restore attempt fails.
use crate::error::StateElement;
use crate::error::TdpError;
use crate::regs::L2GprContext;
use crate::tdx::Width;
use crate::vmcs::field;
use crate::vmcs::Command;
use crate::vmcs::SegmentFields;
use crate::vmcs::SegmentName;
use crate::vmcs::VmcsRead;
use vstd::prelude::*;

verus! {

/// A segment register.
#[derive(Debug, Clone, Copy, PartialEq, Eq, Structural)]
pub struct SegmentRegister {
    pub base: u64,
    pub limit: u32,
    pub attributes: u16,
    pub selector: u16,
}

/// A descriptor table register.
#[derive(Debug, Clone, Copy, PartialEq, Eq, Structural)]
pub struct TableRegister {
    pub base: u64,
    pub limit: u16,
}

/// The registers of a processor.
#[derive(Debug, Clone, Copy, PartialEq, Eq, Structural)]
pub struct Registers {
    pub rax: u64,
    pub rcx: u64,
    pub rdx: u64,
    pub rbx: u64,
    pub rsp: u64,
    pub rbp: u64,
    pub rsi: u64,
    pub rdi: u64,
    pub r8: u64,
    pub r9: u64,
    pub r10: u64,
    pub r11: u64,
    pub r12: u64,
    pub r13: u64,
    pub r14: u64,
    pub r15: u64,
    pub rip: u64,
    pub rflags: u64,
    pub cs: SegmentRegister,
    pub ds: SegmentRegister,
    pub es: SegmentRegister,
    pub fs: SegmentRegister,
    pub gs: SegmentRegister,
    pub ss: SegmentRegister,
    pub tr: SegmentRegister,
    pub ldtr: SegmentRegister,
    pub gdtr: TableRegister,
    pub idtr: TableRegister,
    pub cr0: u64,
    pub cr2: u64,
    pub cr3: u64,
    pub cr4: u64,
    pub cr8: u64,
    pub efer: u64,
}

/// The run state of a processor, as INIT and SIPI change it.
#[derive(Debug, Clone, Copy, PartialEq, Eq, Structural)]
pub enum MpState {
    Running,
    WaitForSipi,
    Halted,
    Idle,
}

/// What a processor is doing besides executing instructions.
#[derive(Debug, Clone, Copy, PartialEq, Eq, Structural)]
pub struct Activity {
    pub mp_state: MpState,
    pub nmi_pending: bool,
    pub nmi_masked: bool,
    pub interrupt_shadow: bool,
    pub pending_event: bool,
    pub pending_interruption: bool,
}

impl Activity {
    /// A run state with nothing pending.
    pub open spec fn plain(mp_state: MpState) -> Activity {
        Activity {
            mp_state,
            nmi_pending: false,
            nmi_masked: false,
            interrupt_shadow: false,
            pending_event: false,
            pending_interruption: false,
        }
    }
}

/// The activity of a processor.
pub fn activity(mp_state: MpState) -> (r: Activity)
    ensures
        r == Activity::plain(mp_state),
{
    Activity {
        mp_state,
        nmi_pending: false,
        nmi_masked: false,
        interrupt_shadow: false,
        pending_event: false,
        pending_interruption: false,
    }
}

/// The run state to adopt, unless the activity holds something pending, which
/// cannot be set.
pub fn accept_activity(value: &Activity) -> (r: Result<MpState, TdpError>)
    ensures
        r is Ok <==> *value == Activity::plain(value.mp_state),
        r matches Ok(mp_state) ==> mp_state == value.mp_state,
        r matches Err(err) ==> err matches TdpError::Unsupported(what) && what@
            == "pending activity state"@,
{
    if value.nmi_pending || value.nmi_masked || value.interrupt_shadow || value.pending_event
        || value.pending_interruption {
        return Err(TdpError::Unsupported("pending activity state"));
    }
    Ok(value.mp_state)
}

/// Read back a state element that is not modelled: never possible.
pub fn snapshot_unmodelled(element: StateElement) -> (r: TdpError)
    ensures
        r == TdpError::Snapshot(element),
{
    TdpError::Snapshot(element)
}

/// Set a state element that is not modelled. `initialized` says whether the VP
/// has run, and `at_reset` whether the value is the element's reset value.
pub fn restore_unmodelled(element: StateElement, initialized: bool, at_reset: bool) -> (r: Result<
    (),
    TdpError,
>)
    ensures
        r is Ok <==> !initialized || at_reset,
        r matches Err(err) ==> err == TdpError::Restore(element),
{
    if !initialized || at_reset {
        return Ok(());
    }
    Err(TdpError::Restore(element))
}

/// The segment registers in the order they are read and written.
pub open spec fn segment_order(k: int) -> SegmentName {
    if k == 0 {
        SegmentName::Cs
    } else if k == 1 {
        SegmentName::Ds
    } else if k == 2 {
        SegmentName::Es
    } else if k == 3 {
        SegmentName::Fs
    } else if k == 4 {
        SegmentName::Gs
    } else if k == 5 {
        SegmentName::Ss
    } else if k == 6 {
        SegmentName::Tr
    } else {
        SegmentName::Ldtr
    }
}

fn segment_name(k: usize) -> (r: SegmentName)
    requires
        k < 8,
    ensures
        r == segment_order(k as int),
{
    match k {
        0 => SegmentName::Cs,
        1 => SegmentName::Ds,
        2 => SegmentName::Es,
        3 => SegmentName::Fs,
        4 => SegmentName::Gs,
        5 => SegmentName::Ss,
        6 => SegmentName::Tr,
        _ => SegmentName::Ldtr,
    }
}

impl Registers {
    /// A segment register, by its place in [`segment_order`].
    pub open spec fn segment(self, k: int) -> SegmentRegister {
        if k == 0 {
            self.cs
        } else if k == 1 {
            self.ds
        } else if k == 2 {
            self.es
        } else if k == 3 {
            self.fs
        } else if k == 4 {
            self.gs
        } else if k == 5 {
            self.ss
        } else if k == 6 {
            self.tr
        } else {
            self.ldtr
        }
    }

    fn get_segment(&self, k: usize) -> (r: SegmentRegister)
        requires
            k < 8,
        ensures
            r == self.segment(k as int),
    {
        match k {
            0 => self.cs,
            1 => self.ds,
            2 => self.es,
            3 => self.fs,
            4 => self.gs,
            5 => self.ss,
            6 => self.tr,
            _ => self.ldtr,
        }
    }
}

/// The reads that fetch a segment register.
pub open spec fn segment_reads(name: SegmentName) -> Seq<VmcsRead> {
    seq![
        VmcsRead { field: name.layout().base, width: Width::Bits64 },
        VmcsRead { field: name.layout().limit, width: Width::Bits32 },
        VmcsRead { field: name.layout().selector, width: Width::Bits16 },
        VmcsRead { field: name.layout().attributes, width: Width::Bits32 },
    ]
}

/// The reads that fetch the first `n` segment registers.
pub open spec fn segments_reads(n: int) -> Seq<VmcsRead>
    decreases n,
{
    if n <= 0 {
        Seq::empty()
    } else {
        segments_reads(n - 1) + segment_reads(segment_order(n - 1))
    }
}

/// The reads that fetch the descriptor tables and the control registers.
pub open spec fn control_reads() -> Seq<VmcsRead> {
    seq![
        VmcsRead { field: field::GUEST_GDTR_BASE, width: Width::Bits64 },
        VmcsRead { field: field::GUEST_GDTR_LIMIT, width: Width::Bits32 },
        VmcsRead { field: field::GUEST_IDTR_BASE, width: Width::Bits64 },
        VmcsRead { field: field::GUEST_IDTR_LIMIT, width: Width::Bits32 },
        VmcsRead { field: field::GUEST_CR0, width: Width::Bits64 },
        VmcsRead { field: field::GUEST_CR3, width: Width::Bits64 },
        VmcsRead { field: field::GUEST_CR4, width: Width::Bits64 },
        VmcsRead { field: field::GUEST_IA32_EFER, width: Width::Bits64 },
    ]
}

/// How many reads fetch the registers.
pub const REGISTER_READS: usize = 40;

/// A segment register, out of the values of its four fields.
pub open spec fn segment_from(base: u64, limit: u64, selector: u64, attributes: u64) -> SegmentRegister {
    SegmentRegister {
        base,
        limit: (limit % 0x1_0000_0000) as u32,
        selector: (selector % 0x1_0000) as u16,
        attributes: (attributes % 0x1_0000) as u16,
    }
}

/// The segment register whose reads start at `values[at]`.
pub open spec fn segment_at(values: Seq<u64>, at: int) -> SegmentRegister {
    segment_from(values[at], values[at + 1], values[at + 2], values[at + 3])
}

/// A segment register that the VMCS holds.
pub open spec fn segment_of(vmcs: Map<u32, u64>, name: SegmentName) -> SegmentRegister {
    segment_from(
        vmcs[name.layout().base],
        vmcs[name.layout().limit],
        vmcs[name.layout().selector],
        vmcs[name.layout().attributes],
    )
}

/// The registers of a processor with this register image and this VMCS. CR2 has
/// no VMCS field and CR8 is not kept apart, so both read as zero.
pub open spec fn registers_of(regs: L2GprContext, vmcs: Map<u32, u64>) -> Registers {
    Registers {
        rax: regs.rax,
        rcx: regs.rcx,
        rdx: regs.rdx,
        rbx: regs.rbx,
        rsp: regs.rsp,
        rbp: regs.rbp,
        rsi: regs.rsi,
        rdi: regs.rdi,
        r8: regs.r8,
        r9: regs.r9,
        r10: regs.r10,
        r11: regs.r11,
        r12: regs.r12,
        r13: regs.r13,
        r14: regs.r14,
        r15: regs.r15,
        rip: regs.rip,
        rflags: regs.rflags,
        cs: segment_of(vmcs, SegmentName::Cs),
        ds: segment_of(vmcs, SegmentName::Ds),
        es: segment_of(vmcs, SegmentName::Es),
        fs: segment_of(vmcs, SegmentName::Fs),
        gs: segment_of(vmcs, SegmentName::Gs),
        ss: segment_of(vmcs, SegmentName::Ss),
        tr: segment_of(vmcs, SegmentName::Tr),
        ldtr: segment_of(vmcs, SegmentName::Ldtr),
        gdtr: TableRegister {
            base: vmcs[field::GUEST_GDTR_BASE],
            limit: (vmcs[field::GUEST_GDTR_LIMIT] % 0x1_0000) as u16,
        },
        idtr: TableRegister {
            base: vmcs[field::GUEST_IDTR_BASE],
            limit: (vmcs[field::GUEST_IDTR_LIMIT] % 0x1_0000) as u16,
        },
        cr0: vmcs[field::GUEST_CR0],
        cr2: 0,
        cr3: vmcs[field::GUEST_CR3],
        cr4: vmcs[field::GUEST_CR4],
        cr8: 0,
        efer: vmcs[field::GUEST_IA32_EFER],
    }
}

/// The registers, out of a register image and the values of the reads.
pub open spec fn registers_from(regs: L2GprContext, values: Seq<u64>) -> Registers {
    Registers {
        rax: regs.rax,
        rcx: regs.rcx,
        rdx: regs.rdx,
        rbx: regs.rbx,
        rsp: regs.rsp,
        rbp: regs.rbp,
        rsi: regs.rsi,
        rdi: regs.rdi,
        r8: regs.r8,
        r9: regs.r9,
        r10: regs.r10,
        r11: regs.r11,
        r12: regs.r12,
        r13: regs.r13,
        r14: regs.r14,
        r15: regs.r15,
        rip: regs.rip,
        rflags: regs.rflags,
        cs: segment_at(values, 0),
        ds: segment_at(values, 4),
        es: segment_at(values, 8),
        fs: segment_at(values, 12),
        gs: segment_at(values, 16),
        ss: segment_at(values, 20),
        tr: segment_at(values, 24),
        ldtr: segment_at(values, 28),
        gdtr: TableRegister { base: values[32], limit: (values[33] % 0x1_0000) as u16 },
        idtr: TableRegister { base: values[34], limit: (values[35] % 0x1_0000) as u16 },
        cr0: values[36],
        cr2: 0,
        cr3: values[37],
        cr4: values[38],
        cr8: 0,
        efer: values[39],
    }
}

proof fn lemma_segments_reads(n: int)
    requires
        0 <= n <= 8,
    ensures
        segments_reads(n).len() == 4 * n,
        forall|k: int|
            0 <= k < n ==> {
                &&& segments_reads(n)[4 * k] == segment_reads(#[trigger] segment_order(k))[0]
                &&& segments_reads(n)[4 * k + 1] == segment_reads(segment_order(k))[1]
                &&& segments_reads(n)[4 * k + 2] == segment_reads(segment_order(k))[2]
                &&& segments_reads(n)[4 * k + 3] == segment_reads(segment_order(k))[3]
            },
    decreases n,
{
    if n > 0 {
        lemma_segments_reads(n - 1);
    }
}

/// The values of the reads make up the registers of the processor they were
/// read from.
pub proof fn law_reads_make_up_the_registers(
    regs: L2GprContext,
    vmcs: Map<u32, u64>,
    values: Seq<u64>,
)
    requires
        values.len() == REGISTER_READS,
        forall|i: int|
            0 <= i < REGISTER_READS ==> #[trigger] values[i] == vmcs[(segments_reads(8)
                + control_reads())[i].field],
    ensures
        registers_from(regs, values) == registers_of(regs, vmcs),
{
    let reads = segments_reads(8) + control_reads();
    lemma_segments_reads(8);
    assert forall|k: int| 0 <= k < 8 implies segment_at(values, 4 * k) == segment_of(
        vmcs,
        #[trigger] segment_order(k),
    ) by {
        assert(values[4 * k] == vmcs[reads[4 * k].field]);
        assert(values[4 * k + 1] == vmcs[reads[4 * k + 1].field]);
        assert(values[4 * k + 2] == vmcs[reads[4 * k + 2].field]);
        assert(values[4 * k + 3] == vmcs[reads[4 * k + 3].field]);
    }
    assert(segment_order(0) == SegmentName::Cs);
    assert(segment_order(1) == SegmentName::Ds);
    assert(segment_order(2) == SegmentName::Es);
    assert(segment_order(3) == SegmentName::Fs);
    assert(segment_order(4) == SegmentName::Gs);
    assert(segment_order(5) == SegmentName::Ss);
    assert(segment_order(6) == SegmentName::Tr);
    assert(segment_order(7) == SegmentName::Ldtr);
    assert forall|k: int| 32 <= k < 40 implies #[trigger] values[k] == vmcs[control_reads()[k
        - 32].field] by {
        assert(reads[k] == control_reads()[k - 32]);
    }
}

/// The reads that fetch the registers.
pub fn register_reads() -> (r: Vec<VmcsRead>)
    ensures
        r@ == segments_reads(8) + control_reads(),
        r@.len() == REGISTER_READS,
{
    let mut reads: Vec<VmcsRead> = Vec::new();
    let mut k: usize = 0;
    while k < 8
        invariant
            k <= 8,
            reads@ == segments_reads(k as int),
        decreases 8 - k,
    {
        let ghost before = reads@;
        let fields: SegmentFields = segment_name(k).fields();
        reads.push(VmcsRead { field: fields.base, width: Width::Bits64 });
        reads.push(VmcsRead { field: fields.limit, width: Width::Bits32 });
        reads.push(VmcsRead { field: fields.selector, width: Width::Bits16 });
        reads.push(VmcsRead { field: fields.attributes, width: Width::Bits32 });
        assert(reads@ =~= before + segment_reads(segment_order(k as int)));
        k = k + 1;
    }
    let ghost before = reads@;
    reads.push(VmcsRead { field: field::GUEST_GDTR_BASE, width: Width::Bits64 });
    reads.push(VmcsRead { field: field::GUEST_GDTR_LIMIT, width: Width::Bits32 });
    reads.push(VmcsRead { field: field::GUEST_IDTR_BASE, width: Width::Bits64 });
    reads.push(VmcsRead { field: field::GUEST_IDTR_LIMIT, width: Width::Bits32 });
    reads.push(VmcsRead { field: field::GUEST_CR0, width: Width::Bits64 });
    reads.push(VmcsRead { field: field::GUEST_CR3, width: Width::Bits64 });
    reads.push(VmcsRead { field: field::GUEST_CR4, width: Width::Bits64 });
    reads.push(VmcsRead { field: field::GUEST_IA32_EFER, width: Width::Bits64 });
    assert(reads@ =~= before + control_reads());
    proof {
        lemma_segments_reads(8);
    }
    reads
}

/// Make up a segment register from the values of its reads.
pub fn read_segment(values: &Vec<u64>, at: usize) -> (r: SegmentRegister)
    requires
        at + 4 <= values@.len(),
    ensures
        r == segment_at(values@, at as int),
{
    let size: usize = values.len();
    assert(at + 4 <= size);
    SegmentRegister {
        base: values[at],
        limit: (values[at + 1] % 0x1_0000_0000) as u32,
        selector: (values[at + 2] % 0x1_0000) as u16,
        attributes: (values[at + 3] % 0x1_0000) as u16,
    }
}

/// Make up the registers from the register image and the values of the reads.
pub fn registers(regs: &L2GprContext, values: &Vec<u64>) -> (r: Registers)
    requires
        values@.len() == REGISTER_READS,
    ensures
        r == registers_from(*regs, values@),
{
    Registers {
        rax: regs.rax,
        rcx: regs.rcx,
        rdx: regs.rdx,
        rbx: regs.rbx,
        rsp: regs.rsp,
        rbp: regs.rbp,
        rsi: regs.rsi,
        rdi: regs.rdi,
        r8: regs.r8,
        r9: regs.r9,
        r10: regs.r10,
        r11: regs.r11,
        r12: regs.r12,
        r13: regs.r13,
        r14: regs.r14,
        r15: regs.r15,
        rip: regs.rip,
        rflags: regs.rflags,
        cs: read_segment(values, 0),
        ds: read_segment(values, 4),
        es: read_segment(values, 8),
        fs: read_segment(values, 12),
        gs: read_segment(values, 16),
        ss: read_segment(values, 20),
        tr: read_segment(values, 24),
        ldtr: read_segment(values, 28),
        gdtr: TableRegister { base: values[32], limit: (values[33] % 0x1_0000) as u16 },
        idtr: TableRegister { base: values[34], limit: (values[35] % 0x1_0000) as u16 },
        cr0: values[36],
        cr2: 0,
        cr3: values[37],
        cr4: values[38],
        cr8: 0,
        efer: values[39],
    }
}

/// A register image with the general-purpose registers replaced.
pub open spec fn with_general(regs: L2GprContext, value: Registers) -> L2GprContext {
    L2GprContext {
        rax: value.rax,
        rcx: value.rcx,
        rdx: value.rdx,
        rbx: value.rbx,
        rsp: value.rsp,
        rbp: value.rbp,
        rsi: value.rsi,
        rdi: value.rdi,
        r8: value.r8,
        r9: value.r9,
        r10: value.r10,
        r11: value.r11,
        r12: value.r12,
        r13: value.r13,
        r14: value.r14,
        r15: value.r15,
        rip: value.rip,
        rflags: value.rflags,
        ..regs
    }
}

/// Replace the general-purpose registers of a register image.
pub fn set_general(regs: &L2GprContext, value: &Registers) -> (r: L2GprContext)
    ensures
        r == with_general(*regs, *value),
{
    L2GprContext {
        rax: value.rax,
        rcx: value.rcx,
        rdx: value.rdx,
        rbx: value.rbx,
        rsp: value.rsp,
        rbp: value.rbp,
        rsi: value.rsi,
        rdi: value.rdi,
        r8: value.r8,
        r9: value.r9,
        r10: value.r10,
        r11: value.r11,
        r12: value.r12,
        r13: value.r13,
        r14: value.r14,
        r15: value.r15,
        rip: value.rip,
        rflags: value.rflags,
        ssp: regs.ssp,
        interrupt_status: regs.interrupt_status,
    }
}

/// The program that loads a segment register.
pub open spec fn load_segment(name: SegmentName, value: SegmentRegister) -> Seq<Command> {
    crate::vmcs::segment_commands(
        name,
        value.selector as u64,
        value.base,
        value.limit as u64,
        value.attributes as u64,
    )
}

/// The program that loads the first `n` segment registers.
pub open spec fn load_segments(value: Registers, n: int) -> Seq<Command>
    decreases n,
{
    if n <= 0 {
        Seq::empty()
    } else {
        load_segments(value, n - 1) + load_segment(segment_order(n - 1), value.segment(n - 1))
    }
}

/// The bit of EFER that says that long mode is active.
pub const EFER_LMA: u64 = 0x400;

/// The program that loads the descriptor tables and the control registers, each
/// of CR0 and CR4 with its read shadow, and declares long mode in the entry
/// controls when EFER does.
pub open spec fn load_control(value: Registers) -> Seq<Command> {
    seq![
        crate::vmcs::w64(field::GUEST_GDTR_BASE, value.gdtr.base),
        crate::vmcs::w32(field::GUEST_GDTR_LIMIT, value.gdtr.limit as u64),
        crate::vmcs::w64(field::GUEST_IDTR_BASE, value.idtr.base),
        crate::vmcs::w32(field::GUEST_IDTR_LIMIT, value.idtr.limit as u64),
        crate::vmcs::w64(field::GUEST_CR0, value.cr0),
        crate::vmcs::w64(field::CR0_SHADOW, value.cr0),
        crate::vmcs::w64(field::GUEST_CR3, value.cr3),
        crate::vmcs::w64(field::GUEST_CR4, value.cr4),
        crate::vmcs::w64(field::CR4_SHADOW, value.cr4),
        crate::vmcs::w64(field::GUEST_IA32_EFER, value.efer),
        if value.efer & EFER_LMA != 0 {
            crate::vmcs::rw32(field::ENTRY_CTLS, 0, crate::vmcs::ENTRY_CTL_IA32E_MODE)
        } else {
            crate::vmcs::rw32(field::ENTRY_CTLS, crate::vmcs::ENTRY_CTL_IA32E_MODE, 0)
        },
    ]
}

/// The program that loads the registers that are VMCS fields.
pub open spec fn register_commands(value: Registers) -> Seq<Command> {
    load_segments(value, 8) + load_control(value)
}

/// Load a segment register.
pub fn write_segment(program: &mut Vec<Command>, name: SegmentName, value: &SegmentRegister)
    ensures
        final(program)@ == old(program)@ + load_segment(name, *value),
{
    crate::vmcs::set_segment(
        program,
        name,
        value.selector as u64,
        value.base,
        value.limit as u64,
        value.attributes as u64,
    );
}

/// The program that loads the registers that are VMCS fields.
pub fn register_program(value: &Registers) -> (r: Vec<Command>)
    ensures
        r@ == register_commands(*value),
{
    let mut program: Vec<Command> = Vec::new();
    let mut k: usize = 0;
    while k < 8
        invariant
            k <= 8,
            program@ == load_segments(*value, k as int),
        decreases 8 - k,
    {
        let segment: SegmentRegister = value.get_segment(k);
        write_segment(&mut program, segment_name(k), &segment);
        k = k + 1;
    }
    let ghost before = program@;
    crate::vmcs::push64(&mut program, field::GUEST_GDTR_BASE, value.gdtr.base);
    crate::vmcs::push32(&mut program, field::GUEST_GDTR_LIMIT, value.gdtr.limit as u64);
    crate::vmcs::push64(&mut program, field::GUEST_IDTR_BASE, value.idtr.base);
    crate::vmcs::push32(&mut program, field::GUEST_IDTR_LIMIT, value.idtr.limit as u64);
    crate::vmcs::push64(&mut program, field::GUEST_CR0, value.cr0);
    crate::vmcs::push64(&mut program, field::CR0_SHADOW, value.cr0);
    crate::vmcs::push64(&mut program, field::GUEST_CR3, value.cr3);
    crate::vmcs::push64(&mut program, field::GUEST_CR4, value.cr4);
    crate::vmcs::push64(&mut program, field::CR4_SHADOW, value.cr4);
    crate::vmcs::push64(&mut program, field::GUEST_IA32_EFER, value.efer);
    // Long mode has to be declared in the entry controls as well as in EFER,
    // or entry fails its guest-state consistency checks.
    if value.efer & EFER_LMA != 0 {
        crate::vmcs::push_update32(
            &mut program,
            field::ENTRY_CTLS,
            0,
            crate::vmcs::ENTRY_CTL_IA32E_MODE,
        );
    } else {
        crate::vmcs::push_update32(
            &mut program,
            field::ENTRY_CTLS,
            crate::vmcs::ENTRY_CTL_IA32E_MODE,
            0,
        );
    }
    assert(program@ =~= before + load_control(*value));
    program
}

/// The bits of a field that the L1 owns come from the new value, the others
/// stay.
pub open spec fn owned_bits(before: u64, value: u64, f: u32) -> u64 {
    let mask = crate::tdx::writable_bits(f, Width::Bits64);
    (before & !mask) | (value & mask)
}

proof fn lemma_stored_widths(before: u64, value: u64)
    by (bit_vector)
    ensures
        ((before & !0xffff_ffffu64) | (value & 0xffff_ffffu64)) % 0x1_0000_0000 == value
            % 0x1_0000_0000,
        ((before & !0xffff_ffffu64) | (value & 0xffff_ffffu64)) % 0x1_0000 == value % 0x1_0000,
        ((before & !0xffffu64) | (value & 0xffffu64)) % 0x1_0000 == value % 0x1_0000,
        ((before & !0xffff_ffff_ffff_ffffu64) | (value & 0xffff_ffff_ffff_ffffu64)) == value,
{
}

/// Loading one segment register leaves the others alone.
proof fn lemma_other_segment_spared(name: SegmentName, value: SegmentRegister, other: SegmentName)
    requires
        name != other,
    ensures
        crate::vmcs::spares(load_segment(name, value), other.layout().base),
        crate::vmcs::spares(load_segment(name, value), other.layout().limit),
        crate::vmcs::spares(load_segment(name, value), other.layout().selector),
        crate::vmcs::spares(load_segment(name, value), other.layout().attributes),
{
}

/// A loaded segment register reads back.
proof fn lemma_loaded_segment(vmcs: Map<u32, u64>, name: SegmentName, value: SegmentRegister)
    ensures
        segment_of(crate::vmcs::after_commands(vmcs, load_segment(name, value)), name) == value,
{
    let program = load_segment(name, value);
    let after = crate::vmcs::after_commands(vmcs, program);
    let fields = name.layout();
    assert(crate::vmcs::spares(program.subrange(1, 4), fields.selector));
    assert(crate::vmcs::spares(program.subrange(2, 4), fields.base));
    assert(crate::vmcs::spares(program.subrange(3, 4), fields.limit));
    assert(crate::vmcs::spares(program.subrange(4, 4), fields.attributes));
    crate::vmcs::law_last_write_stays(vmcs, program, 0, fields.selector);
    crate::vmcs::law_last_write_stays(vmcs, program, 1, fields.base);
    crate::vmcs::law_last_write_stays(vmcs, program, 2, fields.limit);
    crate::vmcs::law_last_write_stays(vmcs, program, 3, fields.attributes);
    lemma_stored_widths(
        crate::vmcs::after_commands(vmcs, program.subrange(0, 0))[fields.selector],
        value.selector as u64,
    );
    lemma_stored_widths(
        crate::vmcs::after_commands(vmcs, program.subrange(0, 1))[fields.base],
        value.base,
    );
    lemma_stored_widths(
        crate::vmcs::after_commands(vmcs, program.subrange(0, 2))[fields.limit],
        value.limit as u64,
    );
    lemma_stored_widths(
        crate::vmcs::after_commands(vmcs, program.subrange(0, 3))[fields.attributes],
        value.attributes as u64,
    );
}

/// A program that spares a segment's fields leaves the register as it is.
proof fn lemma_segment_kept(vmcs: Map<u32, u64>, program: Seq<Command>, name: SegmentName)
    requires
        crate::vmcs::spares(program, name.layout().base),
        crate::vmcs::spares(program, name.layout().limit),
        crate::vmcs::spares(program, name.layout().selector),
        crate::vmcs::spares(program, name.layout().attributes),
    ensures
        segment_of(crate::vmcs::after_commands(vmcs, program), name) == segment_of(vmcs, name),
{
    crate::vmcs::law_spared_fields_keep_their_value(vmcs, program, name.layout().base);
    crate::vmcs::law_spared_fields_keep_their_value(vmcs, program, name.layout().limit);
    crate::vmcs::law_spared_fields_keep_their_value(vmcs, program, name.layout().selector);
    crate::vmcs::law_spared_fields_keep_their_value(vmcs, program, name.layout().attributes);
}

/// Loaded segment registers read back.
proof fn lemma_loaded_segments(vmcs: Map<u32, u64>, value: Registers, n: int)
    requires
        0 <= n <= 8,
    ensures
        forall|k: int|
            0 <= k < n ==> segment_of(
                crate::vmcs::after_commands(vmcs, load_segments(value, n)),
                #[trigger] segment_order(k),
            ) == value.segment(k),
    decreases n,
{
    if n > 0 {
        lemma_loaded_segments(vmcs, value, n - 1);
        let rest = load_segments(value, n - 1);
        let last = load_segment(segment_order(n - 1), value.segment(n - 1));
        let middle = crate::vmcs::after_commands(vmcs, rest);
        crate::vmcs::law_programs_compose(vmcs, rest, last);
        lemma_loaded_segment(middle, segment_order(n - 1), value.segment(n - 1));
        assert forall|k: int| 0 <= k < n implies segment_of(
            crate::vmcs::after_commands(vmcs, load_segments(value, n)),
            #[trigger] segment_order(k),
        ) == value.segment(k) by {
            if k < n - 1 {
                lemma_other_segment_spared(
                    segment_order(n - 1),
                    value.segment(n - 1),
                    segment_order(k),
                );
                lemma_segment_kept(middle, last, segment_order(k));
            }
        }
    }
}

/// Loading segments leaves other fields alone.
proof fn lemma_segments_spare_others(value: Registers, n: int, f: u32)
    requires
        0 <= n <= 8,
        !(0x0800 <= f <= 0x080e),
        !(0x4800 <= f <= 0x480e),
        !(0x4814 <= f <= 0x4822),
        !(0x6806 <= f <= 0x6814),
    ensures
        crate::vmcs::spares(load_segments(value, n), f),
    decreases n,
{
    if n > 0 {
        lemma_segments_spare_others(value, n - 1, f);
        let segment = value.segment(n - 1);
        crate::vmcs::lemma_segments_spare(
            segment_order(n - 1),
            segment.selector as u64,
            segment.base,
            segment.limit as u64,
            segment.attributes as u64,
            f,
        );
        crate::vmcs::lemma_spares_concat(
            load_segments(value, n - 1),
            load_segment(segment_order(n - 1), segment),
            f,
        );
    }
}

/// What a control field holds after the whole program, if one command of the
/// control part writes it.
proof fn lemma_loaded_control(vmcs: Map<u32, u64>, value: Registers, i: int, f: u32)
    requires
        0 <= i < 11,
        !(0x0800 <= f <= 0x080e),
        !(0x4800 <= f <= 0x480e),
        !(0x4814 <= f <= 0x4822),
        !(0x6806 <= f <= 0x6814),
        forall|j: int|
            0 <= j < 11 && j != i ==> !crate::vmcs::writes(#[trigger] load_control(value)[j], f),
    ensures
        crate::vmcs::after_commands(vmcs, register_commands(value))[f]
            == crate::vmcs::after_command(vmcs, load_control(value)[i])[f],
{
    let first = load_segments(value, 8);
    let second = load_control(value);
    let middle = crate::vmcs::after_commands(vmcs, first);
    lemma_segments_spare_others(value, 8, f);
    crate::vmcs::law_programs_compose(vmcs, first, second);
    crate::vmcs::law_spared_fields_keep_their_value(vmcs, first, f);
    let tail = second.subrange(i + 1, 11);
    assert forall|j: int| 0 <= j < tail.len() implies !crate::vmcs::writes(#[trigger] tail[j], f) by {
        assert(tail[j] == second[j + i + 1]);
    }
    crate::vmcs::law_last_write_stays(middle, second, i, f);
    let head = second.subrange(0, i);
    assert forall|j: int| 0 <= j < head.len() implies !crate::vmcs::writes(#[trigger] head[j], f) by {
        assert(head[j] == second[j]);
    }
    crate::vmcs::law_spared_fields_keep_their_value(middle, head, f);
}

/// The control part leaves the segments alone.
proof fn lemma_control_spares_segments(value: Registers, name: SegmentName)
    ensures
        crate::vmcs::spares(load_control(value), name.layout().base),
        crate::vmcs::spares(load_control(value), name.layout().limit),
        crate::vmcs::spares(load_control(value), name.layout().selector),
        crate::vmcs::spares(load_control(value), name.layout().attributes),
{
}

/// Registers that were set read back: everything but CR2 and CR8, which have no
/// place to be kept, and but for the bits of CR0, CR4 and EFER that are not the
/// L1's to set.
pub proof fn law_registers_read_back(regs: L2GprContext, vmcs: Map<u32, u64>, value: Registers)
    ensures
        registers_of(
            with_general(regs, value),
            crate::vmcs::after_commands(vmcs, register_commands(value)),
        ) == (Registers {
            cr0: owned_bits(vmcs[field::GUEST_CR0], value.cr0, field::GUEST_CR0),
            cr2: 0,
            cr4: owned_bits(vmcs[field::GUEST_CR4], value.cr4, field::GUEST_CR4),
            cr8: 0,
            efer: owned_bits(vmcs[field::GUEST_IA32_EFER], value.efer, field::GUEST_IA32_EFER),
            ..value
        }),
{
    let first = load_segments(value, 8);
    let second = load_control(value);
    let middle = crate::vmcs::after_commands(vmcs, first);
    let after = crate::vmcs::after_commands(vmcs, register_commands(value));
    crate::vmcs::law_programs_compose(vmcs, first, second);
    lemma_loaded_segments(vmcs, value, 8);
    assert forall|k: int| 0 <= k < 8 implies segment_of(after, #[trigger] segment_order(k))
        == value.segment(k) by {
        lemma_control_spares_segments(value, segment_order(k));
        lemma_segment_kept(middle, second, segment_order(k));
    }
    assert(segment_of(after, segment_order(0)) == value.cs);
    assert(segment_of(after, segment_order(1)) == value.ds);
    assert(segment_of(after, segment_order(2)) == value.es);
    assert(segment_of(after, segment_order(3)) == value.fs);
    assert(segment_of(after, segment_order(4)) == value.gs);
    assert(segment_of(after, segment_order(5)) == value.ss);
    assert(segment_of(after, segment_order(6)) == value.tr);
    assert(segment_of(after, segment_order(7)) == value.ldtr);
    lemma_loaded_control(vmcs, value, 0, field::GUEST_GDTR_BASE);
    lemma_loaded_control(vmcs, value, 1, field::GUEST_GDTR_LIMIT);
    lemma_loaded_control(vmcs, value, 2, field::GUEST_IDTR_BASE);
    lemma_loaded_control(vmcs, value, 3, field::GUEST_IDTR_LIMIT);
    lemma_loaded_control(vmcs, value, 4, field::GUEST_CR0);
    lemma_loaded_control(vmcs, value, 6, field::GUEST_CR3);
    lemma_loaded_control(vmcs, value, 7, field::GUEST_CR4);
    lemma_loaded_control(vmcs, value, 9, field::GUEST_IA32_EFER);
    lemma_stored_widths(vmcs[field::GUEST_GDTR_BASE], value.gdtr.base);
    lemma_stored_widths(vmcs[field::GUEST_GDTR_LIMIT], value.gdtr.limit as u64);
    lemma_stored_widths(vmcs[field::GUEST_IDTR_BASE], value.idtr.base);
    lemma_stored_widths(vmcs[field::GUEST_IDTR_LIMIT], value.idtr.limit as u64);
    lemma_stored_widths(vmcs[field::GUEST_CR3], value.cr3);
}

proof fn lemma_declared_mode(before: u64)
    by (bit_vector)
    ensures
        ((before & !0x200u64) | (((before & !0u64) | 0x200u64) & 0x200u64)) & 0x200u64 != 0,
        ((before & !0x200u64) | (((before & !0x200u64) | 0u64) & 0x200u64)) & 0x200u64 == 0,
{
}

/// Once registers are set, the entry controls declare long mode exactly when
/// EFER says it is active, and the read shadows of CR0 and CR4 hold what the
/// guest believes it wrote.
pub proof fn law_entry_controls_agree_with_efer(vmcs: Map<u32, u64>, value: Registers)
    ensures
        ({
            let after = crate::vmcs::after_commands(vmcs, register_commands(value));
            &&& (after[field::ENTRY_CTLS] & crate::vmcs::ENTRY_CTL_IA32E_MODE != 0) == (value.efer
                & EFER_LMA != 0)
            &&& after[field::CR0_SHADOW] == value.cr0
            &&& after[field::CR4_SHADOW] == value.cr4
        }),
{
    lemma_loaded_control(vmcs, value, 10, field::ENTRY_CTLS);
    lemma_loaded_control(vmcs, value, 5, field::CR0_SHADOW);
    lemma_loaded_control(vmcs, value, 8, field::CR4_SHADOW);
    lemma_stored_widths(vmcs[field::CR0_SHADOW], value.cr0);
    lemma_stored_widths(vmcs[field::CR4_SHADOW], value.cr4);
    lemma_declared_mode(vmcs[field::ENTRY_CTLS]);
}

/// Where a startup IPI starts a processor: in real mode, at the page that its
/// vector names.
pub open spec fn at_startup(regs: Registers, vector: u8) -> Registers {
    Registers {
        cs: SegmentRegister {
            base: (vector * 0x1000) as u64,
            selector: (vector * 0x100) as u16,
            limit: 0xffff,
            attributes: 0x9b,
        },
        rip: 0,
        ..regs
    }
}

/// The registers a startup IPI leaves.
pub fn startup_registers(regs: &Registers, vector: u8) -> (r: Registers)
    ensures
        r == at_startup(*regs, vector),
{
    let mut started: Registers = *regs;
    started.cs = SegmentRegister {
        base: vector as u64 * 0x1000,
        selector: vector as u16 * 0x100,
        limit: 0xffff,
        attributes: 0x9b,
    };
    started.rip = 0;
    started
}

/// The registers go by their names. Each general-purpose register, RIP and RFLAGS
/// are the ones of the register image, each segment register is made of its own
/// four fields, the descriptor tables and control registers of theirs, and CR2
/// and CR8 read as zero.
pub proof fn law_registers_are_read_by_name(regs: L2GprContext, vmcs: Map<u32, u64>)
    ensures
        ({
            let r = registers_of(regs, vmcs);
            &&& r.rax == regs.rax
            &&& r.rcx == regs.rcx
            &&& r.rdx == regs.rdx
            &&& r.rbx == regs.rbx
            &&& r.rsp == regs.rsp
            &&& r.rbp == regs.rbp
            &&& r.rsi == regs.rsi
            &&& r.rdi == regs.rdi
            &&& r.r8 == regs.r8
            &&& r.r9 == regs.r9
            &&& r.r10 == regs.r10
            &&& r.r11 == regs.r11
            &&& r.r12 == regs.r12
            &&& r.r13 == regs.r13
            &&& r.r14 == regs.r14
            &&& r.r15 == regs.r15
            &&& r.rip == regs.rip
            &&& r.rflags == regs.rflags
            &&& r.cs.base == vmcs[field::GUEST_CS_BASE]
            &&& r.cs.limit == vmcs[field::GUEST_CS_LIMIT] % 0x1_0000_0000
            &&& r.cs.selector == vmcs[field::GUEST_CS_SEL] % 0x1_0000
            &&& r.cs.attributes == vmcs[field::GUEST_CS_AR] % 0x1_0000
            &&& r.ds.base == vmcs[field::GUEST_DS_BASE]
            &&& r.ds.limit == vmcs[field::GUEST_DS_LIMIT] % 0x1_0000_0000
            &&& r.ds.selector == vmcs[field::GUEST_DS_SEL] % 0x1_0000
            &&& r.ds.attributes == vmcs[field::GUEST_DS_AR] % 0x1_0000
            &&& r.es.base == vmcs[field::GUEST_ES_BASE]
            &&& r.es.limit == vmcs[field::GUEST_ES_LIMIT] % 0x1_0000_0000
            &&& r.es.selector == vmcs[field::GUEST_ES_SEL] % 0x1_0000
            &&& r.es.attributes == vmcs[field::GUEST_ES_AR] % 0x1_0000
            &&& r.fs.base == vmcs[field::GUEST_FS_BASE]
            &&& r.fs.limit == vmcs[field::GUEST_FS_LIMIT] % 0x1_0000_0000
            &&& r.fs.selector == vmcs[field::GUEST_FS_SEL] % 0x1_0000
            &&& r.fs.attributes == vmcs[field::GUEST_FS_AR] % 0x1_0000
            &&& r.gs.base == vmcs[field::GUEST_GS_BASE]
            &&& r.gs.limit == vmcs[field::GUEST_GS_LIMIT] % 0x1_0000_0000
            &&& r.gs.selector == vmcs[field::GUEST_GS_SEL] % 0x1_0000
            &&& r.gs.attributes == vmcs[field::GUEST_GS_AR] % 0x1_0000
            &&& r.ss.base == vmcs[field::GUEST_SS_BASE]
            &&& r.ss.limit == vmcs[field::GUEST_SS_LIMIT] % 0x1_0000_0000
            &&& r.ss.selector == vmcs[field::GUEST_SS_SEL] % 0x1_0000
            &&& r.ss.attributes == vmcs[field::GUEST_SS_AR] % 0x1_0000
            &&& r.tr.base == vmcs[field::GUEST_TR_BASE]
            &&& r.tr.limit == vmcs[field::GUEST_TR_LIMIT] % 0x1_0000_0000
            &&& r.tr.selector == vmcs[field::GUEST_TR_SEL] % 0x1_0000
            &&& r.tr.attributes == vmcs[field::GUEST_TR_AR] % 0x1_0000
            &&& r.ldtr.base == vmcs[field::GUEST_LDTR_BASE]
            &&& r.ldtr.limit == vmcs[field::GUEST_LDTR_LIMIT] % 0x1_0000_0000
            &&& r.ldtr.selector == vmcs[field::GUEST_LDTR_SEL] % 0x1_0000
            &&& r.ldtr.attributes == vmcs[field::GUEST_LDTR_AR] % 0x1_0000
            &&& r.gdtr.base == vmcs[field::GUEST_GDTR_BASE]
            &&& r.gdtr.limit == vmcs[field::GUEST_GDTR_LIMIT] % 0x1_0000
            &&& r.idtr.base == vmcs[field::GUEST_IDTR_BASE]
            &&& r.idtr.limit == vmcs[field::GUEST_IDTR_LIMIT] % 0x1_0000
            &&& r.cr0 == vmcs[field::GUEST_CR0]
            &&& r.cr3 == vmcs[field::GUEST_CR3]
            &&& r.cr4 == vmcs[field::GUEST_CR4]
            &&& r.efer == vmcs[field::GUEST_IA32_EFER]
            &&& r.cr2 == 0 && r.cr8 == 0
        }),
{
}

/// Setting the registers puts each general-purpose register, RIP and RFLAGS into
/// its own place in the register image and leaves the rest of the image alone.
pub proof fn law_general_registers_are_set_by_name(regs: L2GprContext, value: Registers)
    ensures
        ({
            let after = with_general(regs, value);
            &&& after.rax == value.rax
            &&& after.rcx == value.rcx
            &&& after.rdx == value.rdx
            &&& after.rbx == value.rbx
            &&& after.rsp == value.rsp
            &&& after.rbp == value.rbp
            &&& after.rsi == value.rsi
            &&& after.rdi == value.rdi
            &&& after.r8 == value.r8
            &&& after.r9 == value.r9
            &&& after.r10 == value.r10
            &&& after.r11 == value.r11
            &&& after.r12 == value.r12
            &&& after.r13 == value.r13
            &&& after.r14 == value.r14
            &&& after.r15 == value.r15
            &&& after.rip == value.rip
            &&& after.rflags == value.rflags
            &&& after.ssp == regs.ssp
            &&& after.interrupt_status == regs.interrupt_status
        }),
{
}

/// The parts of the program that loads the registers: the segments and the rest.
spec fn register_parts(value: Registers) -> Seq<Seq<Command>> {
    seq![
        load_segment(SegmentName::Cs, value.cs),
        load_segment(SegmentName::Ds, value.ds),
        load_segment(SegmentName::Es, value.es),
        load_segment(SegmentName::Fs, value.fs),
        load_segment(SegmentName::Gs, value.gs),
        load_segment(SegmentName::Ss, value.ss),
        load_segment(SegmentName::Tr, value.tr),
        load_segment(SegmentName::Ldtr, value.ldtr),
        load_control(value),
    ]
}

proof fn lemma_register_parts(value: Registers)
    ensures
        crate::vmcs::joined(register_parts(value), 9) == register_commands(value),
{
    let parts = register_parts(value);
    reveal_with_fuel(crate::vmcs::joined, 10);
    reveal_with_fuel(load_segments, 9);
    assert(crate::vmcs::joined(parts, 8) == load_segments(value, 8));
}

/// What the program that loads the registers leaves in a field.
proof fn lemma_loaded_field(
    vmcs: Map<u32, u64>,
    value: Registers,
    part: int,
    f: u32,
    command: Command,
)
    requires
        0 <= part < 9,
        crate::vmcs::sets(register_parts(value)[part], f, command),
        forall|k: int|
            0 <= k < 9 && k != part ==> crate::vmcs::spares(#[trigger] register_parts(value)[k], f),
    ensures
        ({
            let after = crate::vmcs::after_commands(vmcs, register_commands(value));
            command matches Command::WriteVmcs { width, value, .. } ==> crate::vmcs::holds(
                after,
                f,
                crate::tdx::writable_bits(f, width),
                value,
            )
        }),
{
    let parts = register_parts(value);
    lemma_register_parts(value);
    crate::vmcs::lemma_joined_sets(parts, 9, f, command);
    assert(crate::vmcs::sets(parts[part], f, command));
    crate::vmcs::lemma_set_field(vmcs, crate::vmcs::joined(parts, 9), f, command);
    if let Command::WriteVmcs { width, value: written, .. } = command {
        crate::vmcs::lemma_stored_bits(vmcs[f], written, crate::tdx::writable_bits(f, width));
    }
}

/// One loaded segment register, field by field.
#[verifier::rlimit(40)]
proof fn lemma_loaded_segment_fields(
    vmcs: Map<u32, u64>,
    value: Registers,
    part: int,
    name: SegmentName,
    segment: SegmentRegister,
)
    requires
        0 <= part < 8,
        register_parts(value)[part] == load_segment(name, segment),
        name == segment_order(part),
    ensures
        ({
            let after = crate::vmcs::after_commands(vmcs, register_commands(value));
            let fields = name.layout();
            &&& after[fields.base] == segment.base
            &&& crate::vmcs::holds(after, fields.limit, 0xffff_ffff, segment.limit as u64)
            &&& crate::vmcs::holds(after, fields.selector, 0xffff, segment.selector as u64)
            &&& crate::vmcs::holds(after, fields.attributes, 0xffff_ffff, segment.attributes as u64)
        }),
{
    let fields = name.layout();
    let parts = register_parts(value);
    let own = load_segment(name, segment);
    assert forall|k: int| 0 <= k < 9 && k != part implies {
        &&& crate::vmcs::spares(#[trigger] parts[k], fields.base)
        &&& crate::vmcs::spares(parts[k], fields.limit)
        &&& crate::vmcs::spares(parts[k], fields.selector)
        &&& crate::vmcs::spares(parts[k], fields.attributes)
    } by {
        if k < 8 {
            assert(parts[k] == load_segment(segment_order(k), value.segment(k)));
            lemma_other_segment_spared(segment_order(k), value.segment(k), name);
        } else {
            lemma_control_spares_segments(value, name);
        }
    }
    assert(own[0] == crate::vmcs::w16(fields.selector, segment.selector as u64));
    assert(own[1] == crate::vmcs::w64(fields.base, segment.base));
    assert(own[2] == crate::vmcs::w32(fields.limit, segment.limit as u64));
    assert(own[3] == crate::vmcs::w32(fields.attributes, segment.attributes as u64));
    lemma_loaded_field(
        vmcs,
        value,
        part,
        fields.selector,
        crate::vmcs::w16(fields.selector, segment.selector as u64),
    );
    lemma_loaded_field(
        vmcs,
        value,
        part,
        fields.base,
        crate::vmcs::w64(fields.base, segment.base),
    );
    lemma_loaded_field(
        vmcs,
        value,
        part,
        fields.limit,
        crate::vmcs::w32(fields.limit, segment.limit as u64),
    );
    lemma_loaded_field(
        vmcs,
        value,
        part,
        fields.attributes,
        crate::vmcs::w32(fields.attributes, segment.attributes as u64),
    );
    crate::vmcs::lemma_all_bits(
        crate::vmcs::after_commands(vmcs, register_commands(value))[fields.base],
        segment.base,
    );
}

/// Setting the registers loads each segment register into the four fields that
/// are named after it, whole.
pub proof fn law_segments_are_set_by_name(vmcs: Map<u32, u64>, value: Registers)
    ensures
        ({
            let after = crate::vmcs::after_commands(vmcs, register_commands(value));
            &&& after[field::GUEST_CS_BASE] == value.cs.base
            &&& crate::vmcs::holds(
                after,
                field::GUEST_CS_LIMIT,
                0xffff_ffff,
                value.cs.limit as u64,
            )
            &&& crate::vmcs::holds(
                after,
                field::GUEST_CS_SEL,
                0xffff,
                value.cs.selector as u64,
            )
            &&& crate::vmcs::holds(
                after,
                field::GUEST_CS_AR,
                0xffff_ffff,
                value.cs.attributes as u64,
            )
            &&& after[field::GUEST_DS_BASE] == value.ds.base
            &&& crate::vmcs::holds(
                after,
                field::GUEST_DS_LIMIT,
                0xffff_ffff,
                value.ds.limit as u64,
            )
            &&& crate::vmcs::holds(
                after,
                field::GUEST_DS_SEL,
                0xffff,
                value.ds.selector as u64,
            )
            &&& crate::vmcs::holds(
                after,
                field::GUEST_DS_AR,
                0xffff_ffff,
                value.ds.attributes as u64,
            )
            &&& after[field::GUEST_ES_BASE] == value.es.base
            &&& crate::vmcs::holds(
                after,
                field::GUEST_ES_LIMIT,
                0xffff_ffff,
                value.es.limit as u64,
            )
            &&& crate::vmcs::holds(
                after,
                field::GUEST_ES_SEL,
                0xffff,
                value.es.selector as u64,
            )
            &&& crate::vmcs::holds(
                after,
                field::GUEST_ES_AR,
                0xffff_ffff,
                value.es.attributes as u64,
            )
            &&& after[field::GUEST_FS_BASE] == value.fs.base
            &&& crate::vmcs::holds(
                after,
                field::GUEST_FS_LIMIT,
                0xffff_ffff,
                value.fs.limit as u64,
            )
            &&& crate::vmcs::holds(
                after,
                field::GUEST_FS_SEL,
                0xffff,
                value.fs.selector as u64,
            )
            &&& crate::vmcs::holds(
                after,
                field::GUEST_FS_AR,
                0xffff_ffff,
                value.fs.attributes as u64,
            )
            &&& after[field::GUEST_GS_BASE] == value.gs.base
            &&& crate::vmcs::holds(
                after,
                field::GUEST_GS_LIMIT,
                0xffff_ffff,
                value.gs.limit as u64,
            )
            &&& crate::vmcs::holds(
                after,
                field::GUEST_GS_SEL,
                0xffff,
                value.gs.selector as u64,
            )
            &&& crate::vmcs::holds(
                after,
                field::GUEST_GS_AR,
                0xffff_ffff,
                value.gs.attributes as u64,
            )
            &&& after[field::GUEST_SS_BASE] == value.ss.base
            &&& crate::vmcs::holds(
                after,
                field::GUEST_SS_LIMIT,
                0xffff_ffff,
                value.ss.limit as u64,
            )
            &&& crate::vmcs::holds(
                after,
                field::GUEST_SS_SEL,
                0xffff,
                value.ss.selector as u64,
            )
            &&& crate::vmcs::holds(
                after,
                field::GUEST_SS_AR,
                0xffff_ffff,
                value.ss.attributes as u64,
            )
            &&& after[field::GUEST_TR_BASE] == value.tr.base
            &&& crate::vmcs::holds(
                after,
                field::GUEST_TR_LIMIT,
                0xffff_ffff,
                value.tr.limit as u64,
            )
            &&& crate::vmcs::holds(
                after,
                field::GUEST_TR_SEL,
                0xffff,
                value.tr.selector as u64,
            )
            &&& crate::vmcs::holds(
                after,
                field::GUEST_TR_AR,
                0xffff_ffff,
                value.tr.attributes as u64,
            )
            &&& after[field::GUEST_LDTR_BASE] == value.ldtr.base
            &&& crate::vmcs::holds(
                after,
                field::GUEST_LDTR_LIMIT,
                0xffff_ffff,
                value.ldtr.limit as u64,
            )
            &&& crate::vmcs::holds(
                after,
                field::GUEST_LDTR_SEL,
                0xffff,
                value.ldtr.selector as u64,
            )
            &&& crate::vmcs::holds(
                after,
                field::GUEST_LDTR_AR,
                0xffff_ffff,
                value.ldtr.attributes as u64,
            )
        }),
{
    lemma_loaded_segment_fields(vmcs, value, 0, SegmentName::Cs, value.cs);
    lemma_loaded_segment_fields(vmcs, value, 1, SegmentName::Ds, value.ds);
    lemma_loaded_segment_fields(vmcs, value, 2, SegmentName::Es, value.es);
    lemma_loaded_segment_fields(vmcs, value, 3, SegmentName::Fs, value.fs);
    lemma_loaded_segment_fields(vmcs, value, 4, SegmentName::Gs, value.gs);
    lemma_loaded_segment_fields(vmcs, value, 5, SegmentName::Ss, value.ss);
    lemma_loaded_segment_fields(vmcs, value, 6, SegmentName::Tr, value.tr);
    lemma_loaded_segment_fields(vmcs, value, 7, SegmentName::Ldtr, value.ldtr);
}

/// Setting the registers loads the descriptor tables and the control registers
/// into the fields that are named after them, CR0, CR4 and EFER as far as they
/// are the L1's to set, with the read shadow of each of CR0 and CR4 as the guest
/// wrote it. Of the entry controls only the declaration of long mode changes.
pub proof fn law_control_registers_are_set_by_name(vmcs: Map<u32, u64>, value: Registers)
    ensures
        ({
            let after = crate::vmcs::after_commands(vmcs, register_commands(value));
            &&& after[field::GUEST_GDTR_BASE] == value.gdtr.base
            &&& crate::vmcs::holds(
                after,
                field::GUEST_GDTR_LIMIT,
                0xffff_ffff,
                value.gdtr.limit as u64,
            )
            &&& after[field::GUEST_IDTR_BASE] == value.idtr.base
            &&& crate::vmcs::holds(
                after,
                field::GUEST_IDTR_LIMIT,
                0xffff_ffff,
                value.idtr.limit as u64,
            )
            &&& crate::vmcs::holds(after, field::GUEST_CR0, 0x8005_001f, value.cr0)
            &&& after[field::CR0_SHADOW] == value.cr0
            &&& after[field::GUEST_CR3] == value.cr3
            &&& crate::vmcs::holds(after, field::GUEST_CR4, 0x03ff_1fbf, value.cr4)
            &&& after[field::CR4_SHADOW] == value.cr4
            &&& crate::vmcs::holds(after, field::GUEST_IA32_EFER, 0x501, value.efer)
            &&& after[field::ENTRY_CTLS] & 0x200 != 0 <==> value.efer & 0x400 != 0
            &&& after[field::ENTRY_CTLS] & !0x200u64 == vmcs[field::ENTRY_CTLS] & !0x200u64
        }),
{
    law_entry_controls_agree_with_efer(vmcs, value);
    lemma_loaded_control(vmcs, value, 0, field::GUEST_GDTR_BASE);
    lemma_loaded_control(vmcs, value, 1, field::GUEST_GDTR_LIMIT);
    lemma_loaded_control(vmcs, value, 2, field::GUEST_IDTR_BASE);
    lemma_loaded_control(vmcs, value, 3, field::GUEST_IDTR_LIMIT);
    lemma_loaded_control(vmcs, value, 4, field::GUEST_CR0);
    lemma_loaded_control(vmcs, value, 6, field::GUEST_CR3);
    lemma_loaded_control(vmcs, value, 7, field::GUEST_CR4);
    lemma_loaded_control(vmcs, value, 9, field::GUEST_IA32_EFER);
    lemma_loaded_control(vmcs, value, 10, field::ENTRY_CTLS);
    lemma_stored_widths(vmcs[field::GUEST_GDTR_BASE], value.gdtr.base);
    lemma_stored_widths(vmcs[field::GUEST_IDTR_BASE], value.idtr.base);
    lemma_stored_widths(vmcs[field::GUEST_CR3], value.cr3);
    crate::vmcs::lemma_stored_bits(
        vmcs[field::GUEST_GDTR_LIMIT],
        value.gdtr.limit as u64,
        0xffff_ffff,
    );
    crate::vmcs::lemma_stored_bits(
        vmcs[field::GUEST_IDTR_LIMIT],
        value.idtr.limit as u64,
        0xffff_ffff,
    );
    crate::vmcs::lemma_stored_bits(vmcs[field::GUEST_CR0], value.cr0, 0x8005_001f);
    crate::vmcs::lemma_stored_bits(vmcs[field::GUEST_CR4], value.cr4, 0x03ff_1fbf);
    crate::vmcs::lemma_stored_bits(vmcs[field::GUEST_IA32_EFER], value.efer, 0x501);
    crate::vmcs::lemma_stored_bits(
        vmcs[field::ENTRY_CTLS],
        crate::vmcs::updated(vmcs[field::ENTRY_CTLS], 0, 0x200),
        0x200,
    );
    crate::vmcs::lemma_stored_bits(
        vmcs[field::ENTRY_CTLS],
        crate::vmcs::updated(vmcs[field::ENTRY_CTLS], 0x200, 0),
        0x200,
    );
}

/// Setting the registers changes no field but those of the registers, the two
/// read shadows and the entry controls.
pub proof fn law_setting_registers_leaves_other_fields_alone(
    vmcs: Map<u32, u64>,
    value: Registers,
    f: u32,
)
    requires
        !(field::GUEST_ES_SEL <= f <= field::GUEST_TR_SEL),
        !(field::GUEST_ES_LIMIT <= f <= field::GUEST_IDTR_LIMIT),
        !(field::GUEST_ES_AR <= f <= field::GUEST_TR_AR),
        !(field::GUEST_ES_BASE <= f <= field::GUEST_IDTR_BASE),
        f != field::GUEST_CR0 && f != field::GUEST_CR3 && f != field::GUEST_CR4,
        f != field::CR0_SHADOW && f != field::CR4_SHADOW,
        f != field::GUEST_IA32_EFER && f != field::ENTRY_CTLS,
    ensures
        crate::vmcs::after_commands(vmcs, register_commands(value))[f] == vmcs[f],
{
    lemma_segments_spare_others(value, 8, f);
    assert(crate::vmcs::spares(load_control(value), f));
    crate::vmcs::lemma_spares_concat(load_segments(value, 8), load_control(value), f);
    crate::vmcs::law_spared_fields_keep_their_value(vmcs, register_commands(value), f);
}

/// Every read for the registers has the width of its field.
pub proof fn law_register_reads_have_the_fields_width(i: int)
    requires
        0 <= i < REGISTER_READS,
    ensures
        ({
            let read = (segments_reads(8) + control_reads())[i];
            let width = read.field / 0x2000;
            &&& width == 0 ==> read.width == Width::Bits16
            &&& width == 2 ==> read.width == Width::Bits32
            &&& width == 1 || width == 3 ==> read.width == Width::Bits64
            &&& width <= 3
        }),
{
    lemma_segments_reads(8);
    if i < 32 {
        let k = i / 4;
        assert(segments_reads(8)[4 * k] == segment_reads(segment_order(k))[0]);
    } else {
        assert((segments_reads(8) + control_reads())[i] == control_reads()[i - 32]);
    }
}

/// A startup IPI starts a processor at the first byte of the page that its vector
/// numbers, in real mode: the base of the code segment is sixteen times its
/// selector, as real mode has it, and the segment is a present, accessed 64 KiB
/// code segment. Nothing else of the registers changes.
pub proof fn law_startup_is_at_the_vectors_page(regs: Registers, vector: u8)
    ensures
        ({
            let started = at_startup(regs, vector);
            &&& started.cs.base + started.rip == vector * 0x1000
            &&& started.rip == 0
            &&& started.cs.base == 16 * started.cs.selector
            &&& started.cs.limit == 0xffff
            &&& started.cs.attributes == 0x9b
            &&& started == (Registers { cs: started.cs, rip: 0, ..regs })
        }),
{
}

/// A plain activity has nothing pending, nothing masked and no interrupt shadow.
pub proof fn law_plain_activity_has_nothing_pending(mp_state: MpState)
    ensures
        ({
            let plain = Activity::plain(mp_state);
            &&& plain.mp_state == mp_state
            &&& !plain.nmi_pending && !plain.nmi_masked && !plain.interrupt_shadow
            &&& !plain.pending_event && !plain.pending_interruption
        }),
{
}

/// State that is not modelled can never be read back, and can be set only before
/// the processor has run or to its reset value; a refusal names the element.
pub proof fn law_unmodelled_state(
    element: StateElement,
    initialized: bool,
    at_reset: bool,
    read: TdpError,
    set: Result<(), TdpError>,
)
    requires
        call_ensures(snapshot_unmodelled, (element,), read),
        call_ensures(restore_unmodelled, (element, initialized, at_reset), set),
    ensures
        read == TdpError::Snapshot(element),
        set is Ok <==> !initialized || at_reset,
        set matches Err(err) ==> err == TdpError::Restore(element),
{
}

} // verus!
