//! Programs for the L2 VMCS.
//!
//! Most of an L2's VMCS is not the L1 VMM's to choose. The TDX module owns
//! EPT, VPID, unrestricted guest, the MSR bitmaps and the pin-based controls,
//! and it forces on APIC virtualization; attempts to clear those bits fail the
//! write with "field value not valid" even where the documented write mask
//! covers them. What is left to the L1 is the guest state and a handful of
//! controls, which is what the programs here set.
pub mod field;

use crate::driver::TdcallArgs;
use crate::error::TdxError;
use crate::tdx::L2Vm;
use crate::tdx::Width;
use vstd::prelude::*;

verus! {

/// One step of programming an L2. A program is a sequence of these, carried
/// out in order and abandoned at the first that fails.
#[derive(Debug, Clone, Copy, PartialEq, Eq, Structural)]
pub enum Command {
    /// Write a VMCS field.
    WriteVmcs { field: u32, width: Width, value: u64 },
    /// Read a VMCS field and write it back with some bits changed.
    UpdateVmcs { field: u32, width: Width, clear: u64, set: u64 },
    /// Write a TDVPS field that is not part of the VMCS.
    WriteTdvps { field_id: u64, value: u64, mask: u64 },
    /// Set the APIC base of the local APIC model.
    SetApicBase { base: u64 },
    /// Stop intercepting an MSR.
    PassthroughMsr { msr: u32 },
    /// Invalidate the L2's cached translations.
    Invept,
}

/// A VMCS field to read, and its width.
#[derive(Debug, Clone, Copy, PartialEq, Eq, Structural)]
pub struct VmcsRead {
    pub field: u32,
    pub width: Width,
}

/// The value an update writes back, given what the field held.
pub open spec fn updated(current: u64, clear: u64, set: u64) -> u64 {
    (current & !clear) | set
}

/// The value an [`Command::UpdateVmcs`] writes back.
pub fn update_value(current: u64, clear: u64, set: u64) -> (r: u64)
    ensures
        r == updated(current, clear, set),
{
    (current & !clear) | set
}

/// The VMCS after a field was written: the module changes only the bits the L1
/// owns.
pub open spec fn stored(vmcs: Map<u32, u64>, field: u32, width: Width, value: u64) -> Map<u32, u64> {
    let mask = crate::tdx::writable_bits(field, width);
    vmcs.insert(field, (vmcs[field] & !mask) | (value & mask))
}

/// The VMCS after one command.
pub open spec fn after_command(vmcs: Map<u32, u64>, command: Command) -> Map<u32, u64> {
    match command {
        Command::WriteVmcs { field, width, value } => stored(vmcs, field, width, value),
        Command::UpdateVmcs { field, width, clear, set } => stored(
            vmcs,
            field,
            width,
            updated(vmcs[field], clear, set),
        ),
        _ => vmcs,
    }
}

/// The VMCS after a whole program.
pub open spec fn after_commands(vmcs: Map<u32, u64>, commands: Seq<Command>) -> Map<u32, u64>
    decreases commands.len(),
{
    if commands.len() == 0 {
        vmcs
    } else {
        after_command(after_commands(vmcs, commands.drop_last()), commands.last())
    }
}

/// Whether a command writes a VMCS field.
pub open spec fn writes(command: Command, f: u32) -> bool {
    match command {
        Command::WriteVmcs { field, .. } => field == f,
        Command::UpdateVmcs { field, .. } => field == f,
        _ => false,
    }
}

/// Whether no command of a program writes a VMCS field.
pub open spec fn spares(commands: Seq<Command>, f: u32) -> bool {
    forall|i: int| 0 <= i < commands.len() ==> !writes(#[trigger] commands[i], f)
}

/// Running one program after another is running their concatenation.
pub proof fn law_programs_compose(vmcs: Map<u32, u64>, first: Seq<Command>, second: Seq<Command>)
    ensures
        after_commands(vmcs, first + second) == after_commands(
            after_commands(vmcs, first),
            second,
        ),
    decreases second.len(),
{
    if second.len() == 0 {
        assert(first + second =~= first);
    } else {
        assert((first + second).drop_last() =~= first + second.drop_last());
        law_programs_compose(vmcs, first, second.drop_last());
    }
}

/// A field that no command writes keeps its value.
pub proof fn law_spared_fields_keep_their_value(
    vmcs: Map<u32, u64>,
    commands: Seq<Command>,
    f: u32,
)
    requires
        spares(commands, f),
    ensures
        after_commands(vmcs, commands)[f] == vmcs[f],
    decreases commands.len(),
{
    if commands.len() > 0 {
        let rest = commands.drop_last();
        assert forall|i: int| 0 <= i < rest.len() implies !writes(#[trigger] rest[i], f) by {
            assert(rest[i] == commands[i]);
        }
        law_spared_fields_keep_their_value(vmcs, rest, f);
        assert(!writes(commands[commands.len() - 1], f));
    }
}

/// What a field holds in the end is what its last write left there.
pub proof fn law_last_write_stays(vmcs: Map<u32, u64>, commands: Seq<Command>, i: int, f: u32)
    requires
        0 <= i < commands.len(),
        spares(commands.subrange(i + 1, commands.len() as int), f),
    ensures
        after_commands(vmcs, commands)[f] == after_command(
            after_commands(vmcs, commands.subrange(0, i)),
            commands[i],
        )[f],
{
    let head = commands.subrange(0, i + 1);
    let tail = commands.subrange(i + 1, commands.len() as int);
    assert(commands =~= head + tail);
    law_programs_compose(vmcs, head, tail);
    law_spared_fields_keep_their_value(after_commands(vmcs, head), tail, f);
    assert(head.drop_last() =~= commands.subrange(0, i));
    assert(head.last() == commands[i]);
}

/// A 16-bit field write.
pub open spec fn w16(field: u32, value: u64) -> Command {
    Command::WriteVmcs { field, width: Width::Bits16, value }
}

/// A 32-bit field write.
pub open spec fn w32(field: u32, value: u64) -> Command {
    Command::WriteVmcs { field, width: Width::Bits32, value }
}

/// A 64-bit field write.
pub open spec fn w64(field: u32, value: u64) -> Command {
    Command::WriteVmcs { field, width: Width::Bits64, value }
}

/// A 32-bit field read and written back with bits changed.
pub open spec fn rw32(field: u32, clear: u64, set: u64) -> Command {
    Command::UpdateVmcs { field, width: Width::Bits32, clear, set }
}

pub(crate) fn push16(program: &mut Vec<Command>, field: u32, value: u64)
    ensures
        final(program)@ == old(program)@.push(w16(field, value)),
{
    program.push(Command::WriteVmcs { field, width: Width::Bits16, value });
}

pub(crate) fn push32(program: &mut Vec<Command>, field: u32, value: u64)
    ensures
        final(program)@ == old(program)@.push(w32(field, value)),
{
    program.push(Command::WriteVmcs { field, width: Width::Bits32, value });
}

pub(crate) fn push64(program: &mut Vec<Command>, field: u32, value: u64)
    ensures
        final(program)@ == old(program)@.push(w64(field, value)),
{
    program.push(Command::WriteVmcs { field, width: Width::Bits64, value });
}

pub(crate) fn push_update32(program: &mut Vec<Command>, field: u32, clear: u64, set: u64)
    ensures
        final(program)@ == old(program)@.push(rw32(field, clear, set)),
{
    program.push(Command::UpdateVmcs { field, width: Width::Bits32, clear, set });
}

/// What carrying out a command needs next.
#[derive(Debug, Clone, Copy, PartialEq, Eq, Structural)]
pub enum CommandStep {
    /// Issue this call, and come back with its reply.
    Call(TdcallArgs),
    /// Set the base of the APIC model, and come back when it is done.
    SetApicBase(u64),
    /// The command is carried out.
    Done,
    /// The command failed, and with it the program.
    Failed(TdxError),
}

/// The step after a write.
pub open spec fn written(field: u32, value: u64, reply: TdcallArgs) -> CommandStep {
    if reply.rax == crate::tdx::TDX_SUCCESS {
        CommandStep::Done
    } else {
        CommandStep::Failed(TdxError::WriteVmcs { field, value, status: reply.rax })
    }
}

/// What carrying out a command needs next, given the replies it has had.
pub open spec fn next_step(vm: L2Vm, command: Command, replies: Seq<TdcallArgs>) -> CommandStep {
    let n = replies.len();
    match command {
        Command::WriteVmcs { field, width, value } => if n == 0 {
            CommandStep::Call(vm.vmcs_write(field, width, value))
        } else {
            written(field, value, replies[0])
        },
        Command::UpdateVmcs { field, width, clear, set } => {
            let value = updated(replies[0].r8, clear, set);
            if n == 0 {
                CommandStep::Call(vm.vmcs_read(field, width))
            } else if replies[0].rax != crate::tdx::TDX_SUCCESS {
                CommandStep::Failed(TdxError::ReadVmcs { field, status: replies[0].rax })
            } else if n == 1 {
                CommandStep::Call(vm.vmcs_write(field, width, value))
            } else {
                written(field, value, replies[1])
            }
        },
        Command::WriteTdvps { field_id, value, mask } => if n == 0 {
            CommandStep::Call(
                TdcallArgs::leaf(crate::tdx::LEAF_VP_WR, 0, field_id, value, mask),
            )
        } else if replies[0].rax == crate::tdx::TDX_SUCCESS {
            CommandStep::Done
        } else {
            CommandStep::Failed(TdxError::WriteTdvps { field_id, status: replies[0].rax })
        },
        Command::SetApicBase { base } => if n == 0 {
            CommandStep::SetApicBase(base)
        } else {
            CommandStep::Done
        },
        Command::PassthroughMsr { msr } => match L2Vm::msr_bitmap_bit(msr) {
            None => CommandStep::Failed(TdxError::MsrOutsideBitmap { msr }),
            Some(bit) => if n > 0 && replies[n - 1].rax != crate::tdx::TDX_SUCCESS {
                CommandStep::Failed(
                    TdxError::ClearMsrIntercept { msr, status: replies[n - 1].rax },
                )
            } else if n == 0 {
                CommandStep::Call(vm.clear_intercept(bit, 0))
            } else if n == 1 {
                CommandStep::Call(vm.clear_intercept(bit, 256))
            } else {
                CommandStep::Done
            },
        },
        Command::Invept => if n == 0 {
            CommandStep::Call(
                TdcallArgs::leaf(
                    crate::tdx::LEAF_VP_INVEPT,
                    1u64 << (vm.vm_id as u64),
                    0,
                    0,
                    0,
                ),
            )
        } else {
            CommandStep::Done
        },
    }
}

fn write_step(field: u32, value: u64, reply: TdcallArgs) -> (r: CommandStep)
    ensures
        r == written(field, value, reply),
{
    match L2Vm::write_vmcs_result(field, value, reply) {
        Ok(()) => CommandStep::Done,
        Err(err) => CommandStep::Failed(err),
    }
}

/// What carrying out a command needs next, given the replies it has had. The
/// reply to a [`CommandStep::SetApicBase`] has no content.
pub fn command_step(vm: &L2Vm, command: Command, replies: &Vec<TdcallArgs>) -> (r: CommandStep)
    requires
        vm.wf(),
    ensures
        r == next_step(*vm, command, replies@),
{
    let n: usize = replies.len();
    match command {
        Command::WriteVmcs { field, width, value } => {
            if n == 0 {
                return CommandStep::Call(vm.write_vmcs(field, width, value));
            }
            write_step(field, value, replies[0])
        },
        Command::UpdateVmcs { field, width, clear, set } => {
            if n == 0 {
                return CommandStep::Call(vm.read_vmcs(field, width));
            }
            let value: u64 = match L2Vm::read_vmcs_result(field, replies[0]) {
                Ok(current) => update_value(current, clear, set),
                Err(err) => return CommandStep::Failed(err),
            };
            if n == 1 {
                return CommandStep::Call(vm.write_vmcs(field, width, value));
            }
            write_step(field, value, replies[1])
        },
        Command::WriteTdvps { field_id, value, mask } => {
            if n == 0 {
                return CommandStep::Call(vm.write_tdvps(field_id, value, mask));
            }
            match L2Vm::write_tdvps_result(field_id, replies[0]) {
                Ok(()) => CommandStep::Done,
                Err(err) => CommandStep::Failed(err),
            }
        },
        Command::SetApicBase { base } => {
            if n == 0 {
                return CommandStep::SetApicBase(base);
            }
            CommandStep::Done
        },
        Command::PassthroughMsr { msr } => {
            let calls: [TdcallArgs; 2] = match vm.passthrough_msr(msr) {
                Ok(calls) => calls,
                Err(err) => return CommandStep::Failed(err),
            };
            if n > 0 {
                if let Err(err) = L2Vm::passthrough_msr_result(msr, replies[n - 1]) {
                    return CommandStep::Failed(err);
                }
            }
            if n < 2 {
                return CommandStep::Call(calls[n]);
            }
            CommandStep::Done
        },
        Command::Invept => {
            if n == 0 {
                return CommandStep::Call(vm.invept());
            }
            CommandStep::Done
        },
    }
}

/// No command takes more than two calls.
pub proof fn law_commands_end(vm: L2Vm, command: Command, replies: Seq<TdcallArgs>)
    requires
        replies.len() >= 2,
    ensures
        next_step(vm, command, replies) is Done || next_step(vm, command, replies) is Failed,
{
}

/// A command that only succeeds writes what the VMCS model says it writes: the
/// last call of a field write carries the written value and the mask of the
/// bits the L1 owns, and an update carries what the read returned with the bits
/// changed.
pub proof fn law_commands_write_what_the_model_stores(
    vm: L2Vm,
    command: Command,
    vmcs: Map<u32, u64>,
    read: TdcallArgs,
    f: u32,
)
    requires
        writes(command, f),
        read.rax == crate::tdx::TDX_SUCCESS,
        read.r8 == vmcs[f],
    ensures
        ({
            let replies = match command {
                Command::UpdateVmcs { .. } => seq![read],
                _ => Seq::empty(),
            };
            &&& next_step(vm, command, replies) matches CommandStep::Call(call)
            &&& call.rax == crate::tdx::LEAF_VP_WR
            &&& after_command(vmcs, command)[f] == (vmcs[f] & !call.r9) | (call.r8 & call.r9)
        }),
{
}

/// Long-mode control register state: PG | NE | ET | PE.
pub const CR0_LONG_MODE: u64 = 0x8000_0031;

/// PAE, which long mode requires.
pub const CR4_LONG_MODE: u64 = 0x20;

/// LMA | LME.
pub const EFER_LONG_MODE: u64 = 0x500;

/// The VM-entry control that declares long mode.
pub const ENTRY_CTL_IA32E_MODE: u64 = 0x200;

/// Present, code, execute/read, L=1, G=1.
pub const CS_AR_LONG: u64 = 0xa09b;

/// Present, data, read/write, D/B=1, G=1.
pub const DS_AR_LONG: u64 = 0xc093;

pub const TR_AR: u64 = 0x8b;

pub const LDTR_AR_UNUSABLE: u64 = 0x10000;

pub const PAT_POWER_ON: u64 = 0x0007_0406_0007_0406;

pub const DR7_INIT: u64 = 0x400;

/// Every exception but the one the TDX module keeps to itself.
pub const TRAP_ALL_EXCEPTIONS: u64 = 0xfffb_ffff;

/// Where the guest starts and what it starts with.
#[derive(Debug, Clone, Copy, PartialEq, Eq, Structural)]
pub struct GuestState {
    pub cr3: u64,
    pub rip: u64,
    pub rsp: u64,
    /// Page holding the virtual APIC. The module leaves "use TPR shadow" set
    /// in the L2's controls, and VM entry then requires this to be valid even
    /// for a guest that never touches the APIC.
    pub virtual_apic_gpa: u64,
}

/// The four VMCS fields of a segment register.
#[derive(Debug, Clone, Copy, PartialEq, Eq, Structural)]
pub struct SegmentFields {
    pub selector: u32,
    pub base: u32,
    pub limit: u32,
    pub attributes: u32,
}

/// The segment registers, as the VMCS knows them.
#[derive(Debug, Clone, Copy, PartialEq, Eq, Structural)]
pub enum SegmentName {
    Es,
    Cs,
    Ss,
    Ds,
    Fs,
    Gs,
    Ldtr,
    Tr,
}

impl SegmentName {
    /// The position in the architectural field layout.
    pub open spec fn position(self) -> u32 {
        match self {
            SegmentName::Es => 0,
            SegmentName::Cs => 1,
            SegmentName::Ss => 2,
            SegmentName::Ds => 3,
            SegmentName::Fs => 4,
            SegmentName::Gs => 5,
            SegmentName::Ldtr => 6,
            SegmentName::Tr => 7,
        }
    }

    /// The fields of a segment: four groups of eight, two codes apart.
    pub open spec fn layout(self) -> SegmentFields {
        SegmentFields {
            selector: (0x0800 + 2 * self.position()) as u32,
            base: (0x6806 + 2 * self.position()) as u32,
            limit: (0x4800 + 2 * self.position()) as u32,
            attributes: (0x4814 + 2 * self.position()) as u32,
        }
    }

    /// The VMCS fields that hold this segment register.
    pub fn fields(self) -> (r: SegmentFields)
        ensures
            r == self.layout(),
    {
        match self {
            SegmentName::Es => SegmentFields {
                selector: field::GUEST_ES_SEL,
                base: field::GUEST_ES_BASE,
                limit: field::GUEST_ES_LIMIT,
                attributes: field::GUEST_ES_AR,
            },
            SegmentName::Cs => SegmentFields {
                selector: field::GUEST_CS_SEL,
                base: field::GUEST_CS_BASE,
                limit: field::GUEST_CS_LIMIT,
                attributes: field::GUEST_CS_AR,
            },
            SegmentName::Ss => SegmentFields {
                selector: field::GUEST_SS_SEL,
                base: field::GUEST_SS_BASE,
                limit: field::GUEST_SS_LIMIT,
                attributes: field::GUEST_SS_AR,
            },
            SegmentName::Ds => SegmentFields {
                selector: field::GUEST_DS_SEL,
                base: field::GUEST_DS_BASE,
                limit: field::GUEST_DS_LIMIT,
                attributes: field::GUEST_DS_AR,
            },
            SegmentName::Fs => SegmentFields {
                selector: field::GUEST_FS_SEL,
                base: field::GUEST_FS_BASE,
                limit: field::GUEST_FS_LIMIT,
                attributes: field::GUEST_FS_AR,
            },
            SegmentName::Gs => SegmentFields {
                selector: field::GUEST_GS_SEL,
                base: field::GUEST_GS_BASE,
                limit: field::GUEST_GS_LIMIT,
                attributes: field::GUEST_GS_AR,
            },
            SegmentName::Ldtr => SegmentFields {
                selector: field::GUEST_LDTR_SEL,
                base: field::GUEST_LDTR_BASE,
                limit: field::GUEST_LDTR_LIMIT,
                attributes: field::GUEST_LDTR_AR,
            },
            SegmentName::Tr => SegmentFields {
                selector: field::GUEST_TR_SEL,
                base: field::GUEST_TR_BASE,
                limit: field::GUEST_TR_LIMIT,
                attributes: field::GUEST_TR_AR,
            },
        }
    }
}

/// The commands that load a segment register.
pub open spec fn segment_commands(
    name: SegmentName,
    sel: u64,
    base: u64,
    limit: u64,
    ar: u64,
) -> Seq<Command> {
    seq![
        w16(name.layout().selector, sel),
        w64(name.layout().base, base),
        w32(name.layout().limit, limit),
        w32(name.layout().attributes, ar),
    ]
}

/// Load a segment register.
pub fn set_segment(
    program: &mut Vec<Command>,
    name: SegmentName,
    sel: u64,
    base: u64,
    limit: u64,
    ar: u64,
)
    ensures
        final(program)@ == old(program)@ + segment_commands(name, sel, base, limit, ar),
{
    let ghost before = program@;
    let fields: SegmentFields = name.fields();
    push16(program, fields.selector, sel);
    push64(program, fields.base, base);
    push32(program, fields.limit, limit);
    push32(program, fields.attributes, ar);
    assert(program@ =~= before + segment_commands(name, sel, base, limit, ar));
}

/// The first commands of every program: the module's own choice of
/// processor-based controls is read and written back unchanged, which the L1
/// has to do and which proves the masks are right, and the virtual-APIC page is
/// set.
pub open spec fn module_controls(virtual_apic_gpa: u64) -> Seq<Command> {
    seq![
        rw32(field::PROC_EXEC_CTLS, 0, 0),
        rw32(field::PROC_EXEC_CTLS2, 0, 0),
        w64(field::VIRTUAL_APIC_PAGE, virtual_apic_gpa),
        w32(field::TPR_THRESHOLD, 0),
    ]
}

/// No event is injected by the next entry.
pub open spec fn no_event() -> Seq<Command> {
    seq![
        w32(field::ENTRY_INTR_INFO, 0),
        w32(field::ENTRY_EXCEPTION_EC, 0),
        w32(field::ENTRY_INSTR_LEN, 0),
    ]
}

/// Which exceptions exit, and that the guest owns its control registers.
pub open spec fn interception(bitmap: u64) -> Seq<Command> {
    seq![
        w32(field::EXCEPTION_BITMAP, bitmap),
        w32(field::PF_EC_MASK, 0),
        w32(field::PF_EC_MATCH, 0),
        w32(field::CR3_TARGET_COUNT, 0),
        w64(field::CR0_MASK, 0),
        w64(field::CR4_MASK, 0),
    ]
}

/// Power-on values for the state the guest has not set itself.
pub open spec fn power_on_state() -> Seq<Command> {
    seq![
        w32(field::GUEST_SYSENTER_CS, 0),
        w64(field::GUEST_SYSENTER_ESP, 0),
        w64(field::GUEST_SYSENTER_EIP, 0),
        w64(field::GUEST_PENDING_DBG, 0),
        w64(field::GUEST_IA32_DEBUGCTL, 0),
        w32(field::GUEST_INTERRUPTIBILITY, 0),
        w64(field::GUEST_IA32_PAT, PAT_POWER_ON),
        w64(field::GUEST_DR7, DR7_INIT),
    ]
}

/// The read shadows of the control registers, and long mode declared in the
/// entry controls.
pub open spec fn long_mode_declared() -> Seq<Command> {
    seq![
        w64(field::CR0_SHADOW, CR0_LONG_MODE),
        w64(field::CR4_SHADOW, CR4_LONG_MODE),
        rw32(field::ENTRY_CTLS, 0, ENTRY_CTL_IA32E_MODE),
    ]
}

/// The control registers of a guest in long mode.
pub open spec fn long_mode_registers(cr3: u64) -> Seq<Command> {
    seq![
        w64(field::GUEST_CR0, CR0_LONG_MODE),
        w64(field::GUEST_CR4, CR4_LONG_MODE),
        w64(field::GUEST_CR3, cr3),
        w64(field::GUEST_IA32_EFER, EFER_LONG_MODE),
    ]
}

/// A flat data segment.
pub open spec fn flat_data(name: SegmentName) -> Seq<Command> {
    segment_commands(name, 0x18, 0, 0xffff_ffff, DS_AR_LONG)
}

/// Flat segments. Long mode ignores most bases, but VM entry still checks the
/// access-rights bytes, so they must be architecturally sane.
pub open spec fn flat_segments() -> Seq<Command> {
    segment_commands(SegmentName::Cs, 0x10, 0, 0xffff_ffff, CS_AR_LONG) + flat_data(SegmentName::Ds)
        + flat_data(SegmentName::Es) + flat_data(SegmentName::Ss) + flat_data(SegmentName::Fs)
        + flat_data(SegmentName::Gs) + segment_commands(SegmentName::Tr, 0x20, 0, 0xffff, TR_AR)
        + segment_commands(SegmentName::Ldtr, 0, 0, 0xffff, LDTR_AR_UNUSABLE)
}

/// Empty descriptor tables.
pub open spec fn empty_tables() -> Seq<Command> {
    seq![
        w64(field::GUEST_GDTR_BASE, 0),
        w32(field::GUEST_GDTR_LIMIT, 0xffff),
        w64(field::GUEST_IDTR_BASE, 0),
        w32(field::GUEST_IDTR_LIMIT, 0xffff),
    ]
}

/// The program for a flat 64-bit guest.
pub open spec fn configure_64bit_commands(state: GuestState, trap_exceptions: bool) -> Seq<Command> {
    module_controls(state.virtual_apic_gpa) + interception(
        if trap_exceptions {
            TRAP_ALL_EXCEPTIONS
        } else {
            0
        },
    ) + long_mode_declared() + no_event() + long_mode_registers(state.cr3) + flat_segments()
        + empty_tables() + power_on_state() + seq![w64(field::GUEST_RSP, state.rsp)]
}

fn push_module_controls(program: &mut Vec<Command>, virtual_apic_gpa: u64)
    ensures
        final(program)@ == old(program)@ + module_controls(virtual_apic_gpa),
{
    let ghost before = program@;
    push_update32(program, field::PROC_EXEC_CTLS, 0, 0);
    push_update32(program, field::PROC_EXEC_CTLS2, 0, 0);
    push64(program, field::VIRTUAL_APIC_PAGE, virtual_apic_gpa);
    push32(program, field::TPR_THRESHOLD, 0);
    assert(program@ =~= before + module_controls(virtual_apic_gpa));
}

fn push_no_event(program: &mut Vec<Command>)
    ensures
        final(program)@ == old(program)@ + no_event(),
{
    let ghost before = program@;
    push32(program, field::ENTRY_INTR_INFO, 0);
    push32(program, field::ENTRY_EXCEPTION_EC, 0);
    push32(program, field::ENTRY_INSTR_LEN, 0);
    assert(program@ =~= before + no_event());
}

fn push_interception(program: &mut Vec<Command>, bitmap: u64)
    ensures
        final(program)@ == old(program)@ + interception(bitmap),
{
    let ghost before = program@;
    push32(program, field::EXCEPTION_BITMAP, bitmap);
    push32(program, field::PF_EC_MASK, 0);
    push32(program, field::PF_EC_MATCH, 0);
    push32(program, field::CR3_TARGET_COUNT, 0);
    push64(program, field::CR0_MASK, 0);
    push64(program, field::CR4_MASK, 0);
    assert(program@ =~= before + interception(bitmap));
}

fn push_power_on_state(program: &mut Vec<Command>)
    ensures
        final(program)@ == old(program)@ + power_on_state(),
{
    let ghost before = program@;
    push32(program, field::GUEST_SYSENTER_CS, 0);
    push64(program, field::GUEST_SYSENTER_ESP, 0);
    push64(program, field::GUEST_SYSENTER_EIP, 0);
    push64(program, field::GUEST_PENDING_DBG, 0);
    push64(program, field::GUEST_IA32_DEBUGCTL, 0);
    push32(program, field::GUEST_INTERRUPTIBILITY, 0);
    push64(program, field::GUEST_IA32_PAT, PAT_POWER_ON);
    push64(program, field::GUEST_DR7, DR7_INIT);
    assert(program@ =~= before + power_on_state());
}

fn push_long_mode(program: &mut Vec<Command>, cr3: u64)
    ensures
        final(program)@ == old(program)@ + long_mode_declared() + no_event() + long_mode_registers(
            cr3,
        ),
{
    let ghost before = program@;
    push64(program, field::CR0_SHADOW, CR0_LONG_MODE);
    push64(program, field::CR4_SHADOW, CR4_LONG_MODE);
    // IA32E_MODE is the one entry control an L1 may set, and it has to agree
    // with CR0.PG and EFER.LMA or entry fails its guest-state checks.
    push_update32(program, field::ENTRY_CTLS, 0, ENTRY_CTL_IA32E_MODE);
    assert(program@ =~= before + long_mode_declared());
    push_no_event(program);
    let ghost middle = program@;
    push64(program, field::GUEST_CR0, CR0_LONG_MODE);
    push64(program, field::GUEST_CR4, CR4_LONG_MODE);
    push64(program, field::GUEST_CR3, cr3);
    push64(program, field::GUEST_IA32_EFER, EFER_LONG_MODE);
    assert(program@ =~= middle + long_mode_registers(cr3));
}

fn push_flat_segments(program: &mut Vec<Command>)
    ensures
        final(program)@ == old(program)@ + flat_segments(),
{
    let ghost before = program@;
    set_segment(program, SegmentName::Cs, 0x10, 0, 0xffff_ffff, CS_AR_LONG);
    set_segment(program, SegmentName::Ds, 0x18, 0, 0xffff_ffff, DS_AR_LONG);
    set_segment(program, SegmentName::Es, 0x18, 0, 0xffff_ffff, DS_AR_LONG);
    set_segment(program, SegmentName::Ss, 0x18, 0, 0xffff_ffff, DS_AR_LONG);
    set_segment(program, SegmentName::Fs, 0x18, 0, 0xffff_ffff, DS_AR_LONG);
    set_segment(program, SegmentName::Gs, 0x18, 0, 0xffff_ffff, DS_AR_LONG);
    set_segment(program, SegmentName::Tr, 0x20, 0, 0xffff, TR_AR);
    set_segment(program, SegmentName::Ldtr, 0, 0, 0xffff, LDTR_AR_UNUSABLE);
    assert(program@ =~= before + flat_segments());
}

/// Program an L2 VMCS for a flat 64-bit guest.
///
/// Intercepting every exception is a diagnostic, not a design: an exception
/// the guest cannot handle otherwise loops forever with no exit and no console
/// output, which is indistinguishable from a hang.
pub fn configure_64bit(state: &GuestState, trap_exceptions: bool) -> (r: Vec<Command>)
    ensures
        r@ == configure_64bit_commands(*state, trap_exceptions),
{
    let mut program: Vec<Command> = Vec::new();
    push_module_controls(&mut program, state.virtual_apic_gpa);
    let bitmap: u64 = if trap_exceptions {
        TRAP_ALL_EXCEPTIONS
    } else {
        0
    };
    push_interception(&mut program, bitmap);
    push_long_mode(&mut program, state.cr3);
    push_flat_segments(&mut program);
    let ghost before = program@;
    push64(&mut program, field::GUEST_GDTR_BASE, 0);
    push32(&mut program, field::GUEST_GDTR_LIMIT, 0xffff);
    push64(&mut program, field::GUEST_IDTR_BASE, 0);
    push32(&mut program, field::GUEST_IDTR_LIMIT, 0xffff);
    assert(program@ =~= before + empty_tables());
    push_power_on_state(&mut program);
    push64(&mut program, field::GUEST_RSP, state.rsp);
    assert(program@ =~= configure_64bit_commands(*state, trap_exceptions));
    program
}

/// The command that turns off the optional L2 features.
pub open spec fn features_off(vm: L2Vm) -> Command {
    Command::WriteTdvps {
        field_id: (crate::tdx::MD_TDVPS_L2_CTLS + vm.vm_id) as u64,
        value: 0,
        mask: 0x7,
    }
}

/// Turn off the optional L2 features this backend does not offer.
///
/// `L2_CTLS` selects shared memory, TDVMCALLs from the L2 and extended
/// virtualization exceptions. A guest here has none of them: it is told it is
/// bare metal, and every TDCALL it might make would exit to the VMM anyway.
/// Clearing them explicitly beats inheriting whatever the module left behind.
pub fn disable_optional_l2_features(vm: &L2Vm) -> (r: Command)
    ensures
        r == features_off(*vm),
{
    Command::WriteTdvps {
        field_id: crate::tdx::MD_TDVPS_L2_CTLS + vm.vm_id as u64,
        value: 0,
        mask: 0x7,
    }
}

/// The APIC base a VP starts with: at its architectural address, enabled, in
/// x2APIC mode, bootstrap processor.
pub const APIC_BASE_X2APIC: u64 = 0xfee0_0d00;

/// The MSRs the guest reaches without an exit. First the three x2APIC
/// registers that hardware serves itself: task priority, end of interrupt, and
/// self-IPI. Then per-thread state, for which any answer given here would be
/// invented; the set is what the kernel driver swaps around every entry.
pub open spec fn passthrough_msrs() -> Seq<u32> {
    seq![
        0x808,
        0x80b,
        0x83f,
        0x10,
        0x48,
        0x49,
        0x174,
        0x175,
        0x176,
        0xda0,
        0xc000_0080,
        0xc000_0081,
        0xc000_0082,
        0xc000_0084,
        0xc000_0100,
        0xc000_0101,
        0xc000_0102,
        0xc000_0103,
    ]
}

fn passthrough_list() -> (r: [u32; 18])
    ensures
        r@ == passthrough_msrs(),
{
    let list: [u32; 18] = [
        0x808,  // x2APIC TPR
        0x80b,  // x2APIC EOI
        0x83f,  // x2APIC SELF_IPI
        0x10,  // TSC
        0x48,  // SPEC_CTRL
        0x49,  // PRED_CMD, the barrier a context switch issues
        0x174,
        0x175,
        0x176,  // SYSENTER CS/ESP/EIP
        0xda0,  // XSS
        0xc000_0080,  // EFER
        0xc000_0081,  // STAR
        0xc000_0082,  // LSTAR
        0xc000_0084,  // SFMASK
        0xc000_0100,  // FS_BASE
        0xc000_0101,  // GS_BASE
        0xc000_0102,  // KERNEL_GS_BASE
        0xc000_0103,  // TSC_AUX
    ];
    assert(list@ =~= passthrough_msrs());
    list
}

/// Every MSR that is passed through has its bits in the intercept bitmap, so
/// initializing a processor never names one that has not.
pub proof fn law_passed_through_msrs_have_intercepts(i: int)
    requires
        0 <= i < passthrough_msrs().len(),
    ensures
        L2Vm::msr_bitmap_bit(passthrough_msrs()[i]) is Some,
{
}

/// The commands that stop intercepting each MSR of a list.
pub open spec fn passthrough_commands(msrs: Seq<u32>) -> Seq<Command> {
    Seq::new(msrs.len(), |i: int| Command::PassthroughMsr { msr: msrs[i] })
}

/// What a VP runs once its virtual-APIC page holds power-on values: the APIC
/// model is switched on, the page is set, and no event is left over.
pub open spec fn apic_commands(virtual_apic_gpa: u64) -> Seq<Command> {
    seq![Command::SetApicBase { base: APIC_BASE_X2APIC }] + module_controls(virtual_apic_gpa)
        + no_event()
}

/// What a VP runs once its exception bitmap is chosen: the rest.
pub open spec fn guest_commands(exception_bitmap: u32) -> Seq<Command> {
    interception(exception_bitmap as u64) + no_event() + power_on_state() + passthrough_commands(
        passthrough_msrs(),
    ) + seq![Command::Invept]
}

/// The program a VP runs before its first entry.
pub open spec fn initialize_commands(
    vm: L2Vm,
    virtual_apic_gpa: u64,
    exception_bitmap: u32,
) -> Seq<Command> {
    seq![features_off(vm)] + apic_commands(virtual_apic_gpa) + guest_commands(exception_bitmap)
}

/// Switch the APIC model on and program the virtual-APIC page, which entry
/// insists on even for a guest that never uses an APIC.
///
/// TDVPS state survives closing the userspace owner and claiming the same L2
/// slot again, so a valid event-injection field of an earlier VM is never
/// inherited: a stale NMI could remain blocked for minutes and then appear in
/// an unrelated workload.
pub fn apic_program(virtual_apic_gpa: u64) -> (r: Vec<Command>)
    ensures
        r@ == apic_commands(virtual_apic_gpa),
{
    let mut program: Vec<Command> = Vec::new();
    program.push(Command::SetApicBase { base: APIC_BASE_X2APIC });
    push_module_controls(&mut program, virtual_apic_gpa);
    push_no_event(&mut program);
    assert(program@ =~= apic_commands(virtual_apic_gpa));
    program
}

/// Program the rest of what a VP needs before its first entry.
///
/// Almost none of the controls are the L1's to choose: the TDX module owns EPT,
/// VPID, unrestricted guest, the MSR bitmaps and the pin controls, and forces
/// APIC virtualization on. What is left is guest-owned state.
pub fn guest_program(exception_bitmap: u32) -> (r: Vec<Command>)
    ensures
        r@ == guest_commands(exception_bitmap),
{
    let mut program: Vec<Command> = Vec::new();
    push_interception(&mut program, exception_bitmap as u64);
    push_no_event(&mut program);
    push_power_on_state(&mut program);
    let ghost before = program@;
    let list: [u32; 18] = passthrough_list();
    let mut i: usize = 0;
    assert(program@ =~= before + passthrough_commands(passthrough_msrs().subrange(0, 0)));
    while i < 18
        invariant
            i <= 18,
            list@ == passthrough_msrs(),
            program@ == before + passthrough_commands(passthrough_msrs().subrange(0, i as int)),
        decreases 18 - i,
    {
        program.push(Command::PassthroughMsr { msr: list[i] });
        i = i + 1;
        assert(program@ =~= before + passthrough_commands(
            passthrough_msrs().subrange(0, i as int),
        ));
    }
    assert(passthrough_msrs().subrange(0, 18) =~= passthrough_msrs());
    program.push(Command::Invept);
    assert(program@ =~= guest_commands(exception_bitmap));
    program
}

/// A program spares what both of its halves spare.
pub proof fn lemma_spares_concat(first: Seq<Command>, second: Seq<Command>, f: u32)
    requires
        spares(first, f),
        spares(second, f),
    ensures
        spares(first + second, f),
{
    assert forall|i: int| 0 <= i < (first + second).len() implies !writes(
        #[trigger] (first + second)[i],
        f,
    ) by {
        if i < first.len() {
            assert((first + second)[i] == first[i]);
        } else {
            assert((first + second)[i] == second[i - first.len()]);
        }
    }
}

/// What a field holds after three parts of a program, of which the last spares
/// the field.
proof fn lemma_middle_part(
    vmcs: Map<u32, u64>,
    first: Seq<Command>,
    middle: Seq<Command>,
    last: Seq<Command>,
    i: int,
    f: u32,
)
    requires
        spares(last, f),
        0 <= i < middle.len(),
        spares(middle.subrange(i + 1, middle.len() as int), f),
    ensures
        after_commands(vmcs, first + middle + last)[f] == after_command(
            after_commands(after_commands(vmcs, first), middle.subrange(0, i)),
            middle[i],
        )[f],
{
    law_programs_compose(vmcs, first + middle, last);
    law_spared_fields_keep_their_value(after_commands(vmcs, first + middle), last, f);
    law_programs_compose(vmcs, first, middle);
    law_last_write_stays(after_commands(vmcs, first), middle, i, f);
}

/// The segment fields are the segments' own.
pub proof fn lemma_segments_spare(name: SegmentName, sel: u64, base: u64, limit: u64, ar: u64, f: u32)
    requires
        !(0x0800 <= f <= 0x080e),
        !(0x4800 <= f <= 0x480e),
        !(0x4814 <= f <= 0x4822),
        !(0x6806 <= f <= 0x6814),
    ensures
        spares(segment_commands(name, sel, base, limit, ar), f),
{
}

proof fn lemma_flat_segments_spare(f: u32)
    requires
        !(0x0800 <= f <= 0x080e),
        !(0x4800 <= f <= 0x480e),
        !(0x4814 <= f <= 0x4822),
        !(0x6806 <= f <= 0x6814),
    ensures
        spares(flat_segments(), f),
{
    let c = segment_commands(SegmentName::Cs, 0x10, 0, 0xffff_ffff, CS_AR_LONG);
    let d = flat_data(SegmentName::Ds);
    let e = flat_data(SegmentName::Es);
    let s = flat_data(SegmentName::Ss);
    let fs = flat_data(SegmentName::Fs);
    let g = flat_data(SegmentName::Gs);
    let t = segment_commands(SegmentName::Tr, 0x20, 0, 0xffff, TR_AR);
    let l = segment_commands(SegmentName::Ldtr, 0, 0, 0xffff, LDTR_AR_UNUSABLE);
    lemma_segments_spare(SegmentName::Cs, 0x10, 0, 0xffff_ffff, CS_AR_LONG, f);
    lemma_segments_spare(SegmentName::Ds, 0x18, 0, 0xffff_ffff, DS_AR_LONG, f);
    lemma_segments_spare(SegmentName::Es, 0x18, 0, 0xffff_ffff, DS_AR_LONG, f);
    lemma_segments_spare(SegmentName::Ss, 0x18, 0, 0xffff_ffff, DS_AR_LONG, f);
    lemma_segments_spare(SegmentName::Fs, 0x18, 0, 0xffff_ffff, DS_AR_LONG, f);
    lemma_segments_spare(SegmentName::Gs, 0x18, 0, 0xffff_ffff, DS_AR_LONG, f);
    lemma_segments_spare(SegmentName::Tr, 0x20, 0, 0xffff, TR_AR, f);
    lemma_segments_spare(SegmentName::Ldtr, 0, 0, 0xffff, LDTR_AR_UNUSABLE, f);
    lemma_spares_concat(c, d, f);
    lemma_spares_concat(c + d, e, f);
    lemma_spares_concat(c + d + e, s, f);
    lemma_spares_concat(c + d + e + s, fs, f);
    lemma_spares_concat(c + d + e + s + fs, g, f);
    lemma_spares_concat(c + d + e + s + fs + g, t, f);
    lemma_spares_concat(c + d + e + s + fs + g + t, l, f);
}

/// The part of the 64-bit program behind the control registers.
spec fn configure_tail(rsp: u64) -> Seq<Command> {
    flat_segments() + empty_tables() + power_on_state() + seq![w64(field::GUEST_RSP, rsp)]
}

proof fn lemma_tail_spares(rsp: u64, f: u32)
    requires
        f == field::GUEST_CR0 || f == field::GUEST_CR3 || f == field::GUEST_CR4 || f
            == field::GUEST_IA32_EFER || f == field::ENTRY_CTLS || f == field::ENTRY_INTR_INFO || f
            == field::CR0_SHADOW || f == field::CR4_SHADOW || f == field::EXCEPTION_BITMAP,
    ensures
        spares(configure_tail(rsp), f),
{
    lemma_flat_segments_spare(f);
    assert(spares(empty_tables(), f));
    assert(spares(power_on_state(), f));
    assert(spares(seq![w64(field::GUEST_RSP, rsp)], f));
    lemma_spares_concat(flat_segments(), empty_tables(), f);
    lemma_spares_concat(flat_segments() + empty_tables(), power_on_state(), f);
    lemma_spares_concat(
        flat_segments() + empty_tables() + power_on_state(),
        seq![w64(field::GUEST_RSP, rsp)],
        f,
    );
}

/// What a masked write leaves under its mask.
pub proof fn lemma_masked_bits(old: u64, value: u64, mask: u64)
    by (bit_vector)
    ensures
        ((old & !mask) | (value & mask)) & mask == value & mask,
        ((old & !0xffff_ffff_ffff_ffffu64) | (value & 0xffff_ffff_ffff_ffffu64)) == value,
{
}

/// A guest programmed for 64-bit mode starts in it: paging and long mode are on
/// in CR0, EFER and the entry controls alike, the read shadows agree with the
/// registers, its page tables are the requested ones, and no event of an
/// earlier guest is injected.
pub proof fn law_configured_guest_starts_in_long_mode(
    vmcs: Map<u32, u64>,
    state: GuestState,
    trap_exceptions: bool,
)
    ensures
        ({
            let after = after_commands(vmcs, configure_64bit_commands(state, trap_exceptions));
            &&& after[field::GUEST_CR0] & 0x8000_0000 == 0x8000_0000
            &&& after[field::GUEST_IA32_EFER] & 0x400 == 0x400
            &&& after[field::ENTRY_CTLS] & 0x200 == 0x200
            &&& after[field::CR0_SHADOW] == CR0_LONG_MODE
            &&& after[field::CR4_SHADOW] == CR4_LONG_MODE
            &&& after[field::GUEST_CR3] == state.cr3
            &&& after[field::GUEST_RSP] == state.rsp
            &&& after[field::ENTRY_INTR_INFO] & 0xffff_ffff == 0
        }),
{
    let program = configure_64bit_commands(state, trap_exceptions);
    let bitmap = if trap_exceptions {
        TRAP_ALL_EXCEPTIONS
    } else {
        0
    };
    let head = module_controls(state.virtual_apic_gpa) + interception(bitmap);
    let declared = long_mode_declared();
    let quiet = no_event();
    let regs = long_mode_registers(state.cr3);
    let tail = configure_tail(state.rsp);
    assert(program =~= head + declared + (quiet + regs + tail));
    assert(program =~= (head + declared) + quiet + (regs + tail));
    assert(program =~= (head + declared + quiet) + regs + tail);
    let after = after_commands(vmcs, program);

    // The fields of `declared`.
    assert forall|f: u32|
        f == field::CR0_SHADOW || f == field::CR4_SHADOW || f == field::ENTRY_CTLS implies spares(
        quiet + regs + tail,
        f,
    ) by {
        lemma_tail_spares(state.rsp, f);
        assert(spares(quiet, f));
        assert(spares(regs, f));
        lemma_spares_concat(quiet, regs, f);
        lemma_spares_concat(quiet + regs, tail, f);
    }
    lemma_middle_part(vmcs, head, declared, quiet + regs + tail, 0, field::CR0_SHADOW);
    lemma_middle_part(vmcs, head, declared, quiet + regs + tail, 1, field::CR4_SHADOW);
    lemma_middle_part(vmcs, head, declared, quiet + regs + tail, 2, field::ENTRY_CTLS);
    let v0 = after_commands(after_commands(vmcs, head), declared.subrange(0, 0));
    lemma_masked_bits(v0[field::CR0_SHADOW], CR0_LONG_MODE, 0);
    let v1 = after_commands(after_commands(vmcs, head), declared.subrange(0, 1));
    lemma_masked_bits(v1[field::CR4_SHADOW], CR4_LONG_MODE, 0);
    let v2 = after_commands(after_commands(vmcs, head), declared.subrange(0, 2));
    let ctl = updated(v2[field::ENTRY_CTLS], 0, ENTRY_CTL_IA32E_MODE);
    lemma_masked_bits(v2[field::ENTRY_CTLS], ctl, 0x200);

    // The injected event.
    lemma_tail_spares(state.rsp, field::ENTRY_INTR_INFO);
    assert(spares(regs, field::ENTRY_INTR_INFO));
    lemma_spares_concat(regs, tail, field::ENTRY_INTR_INFO);
    assert(spares(quiet.subrange(1, 3), field::ENTRY_INTR_INFO));
    lemma_middle_part(vmcs, head + declared, quiet, regs + tail, 0, field::ENTRY_INTR_INFO);
    let v3 = after_commands(after_commands(vmcs, head + declared), quiet.subrange(0, 0));
    lemma_masked_bits(v3[field::ENTRY_INTR_INFO], 0, 0xffff_ffff);

    // The control registers.
    let front = head + declared + quiet;
    lemma_tail_spares(state.rsp, field::GUEST_CR0);
    lemma_tail_spares(state.rsp, field::GUEST_CR3);
    lemma_tail_spares(state.rsp, field::GUEST_IA32_EFER);
    assert(spares(regs.subrange(1, 4), field::GUEST_CR0));
    assert(spares(regs.subrange(3, 4), field::GUEST_CR3));
    lemma_middle_part(vmcs, front, regs, tail, 0, field::GUEST_CR0);
    lemma_middle_part(vmcs, front, regs, tail, 2, field::GUEST_CR3);
    lemma_middle_part(vmcs, front, regs, tail, 3, field::GUEST_IA32_EFER);
    let w0 = after_commands(after_commands(vmcs, front), regs.subrange(0, 0));
    let w2 = after_commands(after_commands(vmcs, front), regs.subrange(0, 2));
    let w3 = after_commands(after_commands(vmcs, front), regs.subrange(0, 3));
    lemma_masked_bits(w0[field::GUEST_CR0], CR0_LONG_MODE, 0x8005_001F);
    lemma_masked_bits(w2[field::GUEST_CR3], state.cr3, 0);
    lemma_masked_bits(w3[field::GUEST_IA32_EFER], EFER_LONG_MODE, 0x501);

    // The stack pointer is the last write of all.
    let rsp = seq![w64(field::GUEST_RSP, state.rsp)];
    let rest = front + regs + flat_segments() + empty_tables() + power_on_state();
    assert(program =~= rest + rsp + Seq::<Command>::empty());
    lemma_middle_part(vmcs, rest, rsp, Seq::<Command>::empty(), 0, field::GUEST_RSP);
    let v5 = after_commands(after_commands(vmcs, rest), rsp.subrange(0, 0));
    lemma_masked_bits(v5[field::GUEST_RSP], state.rsp, 0);

    let cr0 = after[field::GUEST_CR0];
    let efer = after[field::GUEST_IA32_EFER];
    let entry = after[field::ENTRY_CTLS];
    let held = v2[field::ENTRY_CTLS];
    let info = after[field::ENTRY_INTR_INFO];
    assert(cr0 & 0x8000_0000 == 0x8000_0000 && efer & 0x400 == 0x400 && entry & 0x200 == 0x200
        && info & 0xffff_ffff == 0) by (bit_vector)
        requires
            cr0 & 0x8005_001F == 0x8000_0031u64 & 0x8005_001F,
            efer & 0x501 == 0x500u64 & 0x501,
            entry & 0x200 == ctl & 0x200,
            ctl == (held & !0u64) | 0x200,
            info & 0xffff_ffff == 0u64 & 0xffff_ffff,
    ;
}

proof fn lemma_passthrough_spares(msrs: Seq<u32>, f: u32)
    ensures
        spares(passthrough_commands(msrs), f),
{
}

/// A processor that was just initialized injects no event of an earlier guest,
/// and traps every exception it was asked to trap except the one the TDX module
/// keeps to itself.
pub proof fn law_initialized_vp_starts_clean(
    vmcs: Map<u32, u64>,
    vm: L2Vm,
    virtual_apic_gpa: u64,
    exception_bitmap: u32,
)
    ensures
        ({
            let after = after_commands(
                vmcs,
                initialize_commands(vm, virtual_apic_gpa, exception_bitmap),
            );
            &&& after[field::ENTRY_INTR_INFO] & 0xffff_ffff == 0
            &&& after[field::EXCEPTION_BITMAP] & 0xfffb_ffff == exception_bitmap as u64
                & 0xfffb_ffff
        }),
{
    let program = initialize_commands(vm, virtual_apic_gpa, exception_bitmap);
    let start = seq![features_off(vm), Command::SetApicBase { base: APIC_BASE_X2APIC }]
        + module_controls(virtual_apic_gpa) + no_event();
    let middle = interception(exception_bitmap as u64);
    let passthrough = passthrough_commands(passthrough_msrs());
    let end = seq![Command::Invept];
    let rest = power_on_state() + passthrough + end;
    assert(program =~= start + middle + (no_event() + rest));
    assert(program =~= (start + middle) + no_event() + rest);
    assert forall|f: u32| f == field::ENTRY_INTR_INFO || f == field::EXCEPTION_BITMAP implies spares(
        rest,
        f,
    ) by {
        assert(spares(power_on_state(), f));
        lemma_passthrough_spares(passthrough_msrs(), f);
        assert(spares(end, f));
        lemma_spares_concat(power_on_state(), passthrough, f);
        lemma_spares_concat(power_on_state() + passthrough, end, f);
    }
    assert(spares(no_event(), field::EXCEPTION_BITMAP));
    lemma_spares_concat(no_event(), rest, field::EXCEPTION_BITMAP);
    assert(spares(middle.subrange(1, 6), field::EXCEPTION_BITMAP));
    lemma_middle_part(vmcs, start, middle, no_event() + rest, 0, field::EXCEPTION_BITMAP);
    assert(spares(no_event().subrange(1, 3), field::ENTRY_INTR_INFO));
    lemma_middle_part(vmcs, start + middle, no_event(), rest, 0, field::ENTRY_INTR_INFO);
    let v0 = after_commands(after_commands(vmcs, start), middle.subrange(0, 0));
    lemma_masked_bits(v0[field::EXCEPTION_BITMAP], exception_bitmap as u64, 0xFFFF_FFFF_FFFB_FFFF);
    let v1 = after_commands(after_commands(vmcs, start + middle), no_event().subrange(0, 0));
    lemma_masked_bits(v1[field::ENTRY_INTR_INFO], 0, 0xffff_ffff);
    let after = after_commands(vmcs, program);
    let held = after[field::EXCEPTION_BITMAP];
    let info = after[field::ENTRY_INTR_INFO];
    let wanted = exception_bitmap as u64;
    assert(held & 0xfffb_ffff == wanted & 0xfffb_ffff && info & 0xffff_ffff == 0) by (bit_vector)
        requires
            held & 0xFFFF_FFFF_FFFB_FFFF == wanted & 0xFFFF_FFFF_FFFB_FFFF,
            info & 0xffff_ffff == 0u64 & 0xffff_ffff,
    ;
}

/// Whether a program writes a field, with this command and no other.
pub open spec fn sets(commands: Seq<Command>, f: u32, command: Command) -> bool {
    &&& writes(command, f)
    &&& exists|i: int| 0 <= i < commands.len() && #[trigger] commands[i] == command
    &&& forall|i: int|
        0 <= i < commands.len() && writes(#[trigger] commands[i], f) ==> commands[i] == command
}

proof fn lemma_write_settles(held: u64, value: u64, mask: u64, clear: u64, set: u64)
    by (bit_vector)
    ensures
        (((held & !mask) | (value & mask)) & !mask) | (value & mask) == (held & !mask) | (value
            & mask),
        ({
            let once = (held & !mask) | (((held & !clear) | set) & mask);
            (once & !mask) | (((once & !clear) | set) & mask) == once
        }),
{
}

/// Carrying out a command a second time changes nothing.
proof fn lemma_command_settles(vmcs: Map<u32, u64>, now: Map<u32, u64>, command: Command, f: u32)
    requires
        writes(command, f),
        now[f] == vmcs[f] || now[f] == after_command(vmcs, command)[f],
    ensures
        after_command(now, command)[f] == after_command(vmcs, command)[f],
{
    match command {
        Command::WriteVmcs { field, width, value } => {
            lemma_write_settles(
                vmcs[f],
                value,
                crate::tdx::writable_bits(field, width),
                0,
                0,
            );
        },
        Command::UpdateVmcs { field, width, clear, set } => {
            lemma_write_settles(
                vmcs[f],
                0,
                crate::tdx::writable_bits(field, width),
                clear,
                set,
            );
        },
        _ => {},
    }
}

/// What a field holds that a program writes with one command only.
pub proof fn lemma_set_field(vmcs: Map<u32, u64>, commands: Seq<Command>, f: u32, command: Command)
    requires
        writes(command, f),
        forall|i: int|
            0 <= i < commands.len() && writes(#[trigger] commands[i], f) ==> commands[i] == command,
    ensures
        sets(commands, f, command) ==> after_commands(vmcs, commands)[f] == after_command(
            vmcs,
            command,
        )[f],
        spares(commands, f) ==> after_commands(vmcs, commands)[f] == vmcs[f],
        sets(commands, f, command) || spares(commands, f),
    decreases commands.len(),
{
    if commands.len() > 0 {
        let rest = commands.drop_last();
        assert forall|i: int| 0 <= i < rest.len() && writes(#[trigger] rest[i], f) implies rest[i]
            == command by {
            assert(rest[i] == commands[i]);
        }
        lemma_set_field(vmcs, rest, f, command);
        let before = after_commands(vmcs, rest);
        let last = commands.last();
        assert(last == commands[commands.len() - 1]);
        if writes(last, f) {
            lemma_command_settles(vmcs, before, command, f);
            assert(sets(commands, f, command));
        } else if spares(rest, f) {
            assert forall|i: int| 0 <= i < commands.len() implies !writes(
                #[trigger] commands[i],
                f,
            ) by {
                if i < rest.len() {
                    assert(rest[i] == commands[i]);
                }
            }
        } else {
            let i = choose|i: int| 0 <= i < rest.len() && #[trigger] rest[i] == command;
            assert(commands[i] == command);
            assert(sets(commands, f, command));
        }
    }
}

/// The first `n` parts of a program, one after another.
pub open spec fn joined(parts: Seq<Seq<Command>>, n: int) -> Seq<Command>
    decreases n,
{
    if n <= 0 {
        Seq::empty()
    } else {
        joined(parts, n - 1) + parts[n - 1]
    }
}

/// A program writes a field with one command only if each of its parts does or
/// leaves the field alone.
pub proof fn lemma_joined_sets(parts: Seq<Seq<Command>>, n: int, f: u32, command: Command)
    requires
        0 <= n <= parts.len(),
        writes(command, f),
        forall|k: int|
            0 <= k < n ==> spares(#[trigger] parts[k], f) || sets(parts[k], f, command),
    ensures
        forall|i: int|
            0 <= i < joined(parts, n).len() && writes(#[trigger] joined(parts, n)[i], f) ==> joined(
                parts,
                n,
            )[i] == command,
        forall|k: int|
            0 <= k < n && sets(#[trigger] parts[k], f, command) ==> sets(
                joined(parts, n),
                f,
                command,
            ),
        (forall|k: int| 0 <= k < n ==> spares(#[trigger] parts[k], f)) ==> spares(
            joined(parts, n),
            f,
        ),
    decreases n,
{
    if n > 0 {
        lemma_joined_sets(parts, n - 1, f, command);
        let before = joined(parts, n - 1);
        let part = parts[n - 1];
        let all = joined(parts, n);
        assert(spares(part, f) || sets(part, f, command));
        assert forall|i: int| 0 <= i < all.len() && writes(#[trigger] all[i], f) implies all[i]
            == command by {
            if i < before.len() {
                assert(all[i] == before[i]);
            } else {
                assert(all[i] == part[i - before.len()]);
            }
        }
        assert forall|k: int| 0 <= k < n && sets(#[trigger] parts[k], f, command) implies sets(
            all,
            f,
            command,
        ) by {
            if k < n - 1 {
                let i = choose|i: int| 0 <= i < before.len() && #[trigger] before[i] == command;
                assert(all[i] == command);
            } else {
                let i = choose|i: int| 0 <= i < part.len() && #[trigger] part[i] == command;
                assert(all[before.len() + i] == command);
            }
        }
        if forall|k: int| 0 <= k < n ==> spares(#[trigger] parts[k], f) {
            assert forall|i: int| 0 <= i < all.len() implies !writes(#[trigger] all[i], f) by {
                if i < before.len() {
                    assert(all[i] == before[i]);
                } else {
                    assert(all[i] == part[i - before.len()]);
                }
            }
        }
    }
}

/// Whether a field holds these bits of a value.
pub open spec fn holds(vmcs: Map<u32, u64>, f: u32, bits: u64, value: u64) -> bool {
    vmcs[f] & bits == value & bits
}

pub proof fn lemma_stored_bits(held: u64, value: u64, mask: u64)
    by (bit_vector)
    ensures
        ((held & !mask) | (value & mask)) & mask == value & mask,
        ((held & !mask) | (value & mask)) & !mask == held & !mask,
        (held & !mask) | (((held & !0u64) | 0u64) & mask) == held,
{
}

/// Which exceptions of a 64-bit guest exit: all that can, or none.
spec fn trapped_bitmap(trap_exceptions: bool) -> u64 {
    if trap_exceptions {
        0xfffb_ffff
    } else {
        0
    }
}

spec fn configured_parts(state: GuestState, bitmap: u64) -> Seq<Seq<Command>> {
    seq![
        module_controls(state.virtual_apic_gpa),
        interception(bitmap),
        long_mode_declared(),
        no_event(),
        long_mode_registers(state.cr3),
        flat_segments(),
        empty_tables(),
        power_on_state(),
        seq![w64(field::GUEST_RSP, state.rsp)],
    ]
}

/// What the program for a 64-bit guest leaves in a field outside the segments.
proof fn lemma_configured_field(
    vmcs: Map<u32, u64>,
    state: GuestState,
    trap_exceptions: bool,
    part: int,
    f: u32,
    command: Command,
)
    requires
        !(0x0800 <= f <= 0x080e),
        !(0x4800 <= f <= 0x480e),
        !(0x4814 <= f <= 0x4822),
        !(0x6806 <= f <= 0x6814),
        ({
            let parts = configured_parts(state, trapped_bitmap(trap_exceptions));
            &&& 0 <= part < 9
            &&& sets(parts[part], f, command)
            &&& forall|k: int| 0 <= k < 9 && k != part && k != 5 ==> spares(#[trigger] parts[k], f)
        }),
    ensures
        after_commands(vmcs, configure_64bit_commands(state, trap_exceptions))[f] == after_command(
            vmcs,
            command,
        )[f],
        ({
            let after = after_commands(vmcs, configure_64bit_commands(state, trap_exceptions));
            command matches Command::WriteVmcs { width, value, .. } ==> holds(
                after,
                f,
                crate::tdx::writable_bits(f, width),
                value,
            )
        }),
{
    let parts = configured_parts(state, trapped_bitmap(trap_exceptions));
    lemma_flat_segments_spare(f);
    reveal_with_fuel(joined, 10);
    assert(Seq::<Command>::empty() + parts[0] =~= parts[0]);
    assert(joined(parts, 9) == configure_64bit_commands(state, trap_exceptions));
    lemma_joined_sets(parts, 9, f, command);
    lemma_set_field(vmcs, joined(parts, 9), f, command);
    if let Command::WriteVmcs { width, value, .. } = command {
        lemma_stored_bits(vmcs[f], value, crate::tdx::writable_bits(f, width));
    }
}

proof fn lemma_declared(held: u64)
    by (bit_vector)
    ensures
        ((held & !0x200u64) | (((held & !0u64) | 0x200) & 0x200)) & 0x200 == 0x200u64 & 0x200,
        ((held & !0x200u64) | (((held & !0u64) | 0x200) & 0x200)) & !0x200u64 == held & !0x200u64,
{
}

pub proof fn lemma_all_bits(held: u64, value: u64)
    by (bit_vector)
    requires
        held & 0xffff_ffff_ffff_ffff == value & 0xffff_ffff_ffff_ffff,
    ensures
        held == value,
{
}

/// The controls of a guest programmed for 64-bit mode: the module's own choice of
/// processor-based controls stands, the virtual-APIC page is the requested one
/// with no priority threshold, exceptions exit if that was asked for and page
/// faults not by their error code, the guest owns its control registers and reads
/// them as they are in long mode, the entry declares long mode and changes no
/// other entry control, and no event is injected.
#[verifier::rlimit(40)]
pub proof fn law_configured_guest_controls(
    vmcs: Map<u32, u64>,
    state: GuestState,
    trap_exceptions: bool,
)
    ensures
        ({
            let after = after_commands(vmcs, configure_64bit_commands(state, trap_exceptions));
            &&& after[field::PROC_EXEC_CTLS] == vmcs[field::PROC_EXEC_CTLS]
            &&& after[field::PROC_EXEC_CTLS2] == vmcs[field::PROC_EXEC_CTLS2]
            &&& trap_exceptions ==> holds(
                after,
                field::EXCEPTION_BITMAP,
                0xffff_ffff_fffb_ffff,
                0xfffb_ffff,
            )
            &&& !trap_exceptions ==> holds(after, field::EXCEPTION_BITMAP, 0xffff_ffff_fffb_ffff, 0)
            &&& holds(after, field::ENTRY_CTLS, 0x200, 0x200)
            &&& after[field::ENTRY_CTLS] & !0x200u64 == vmcs[field::ENTRY_CTLS] & !0x200u64
            &&& holds(after, field::VIRTUAL_APIC_PAGE, 0xffff_ffff_ffff_f000, state.virtual_apic_gpa)
            &&& holds(after, field::TPR_THRESHOLD, 0xffff_ffff, 0)
            &&& holds(after, field::PF_EC_MASK, 0xffff_ffff, 0)
            &&& holds(after, field::PF_EC_MATCH, 0xffff_ffff, 0)
            &&& holds(after, field::CR3_TARGET_COUNT, 0xffff_ffff, 0)
            &&& after[field::CR0_MASK] == 0
            &&& after[field::CR4_MASK] == 0
            &&& after[field::CR0_SHADOW] == 0x8000_0031
            &&& after[field::CR4_SHADOW] == 0x20
            &&& holds(after, field::ENTRY_INTR_INFO, 0xffff_ffff, 0)
            &&& holds(after, field::ENTRY_EXCEPTION_EC, 0xffff_ffff, 0)
            &&& holds(after, field::ENTRY_INSTR_LEN, 0xffff_ffff, 0)
        }),
{
    let after = after_commands(vmcs, configure_64bit_commands(state, trap_exceptions));
    let bitmap: u64 = if trap_exceptions {
        0xfffb_ffff
    } else {
        0
    };
    lemma_configured_field(
        vmcs,
        state,
        trap_exceptions,
        0,
        field::PROC_EXEC_CTLS,
        rw32(field::PROC_EXEC_CTLS, 0, 0),
    );
    lemma_stored_bits(vmcs[field::PROC_EXEC_CTLS], 0, 0x48f9_9a04);
    lemma_configured_field(
        vmcs,
        state,
        trap_exceptions,
        0,
        field::PROC_EXEC_CTLS2,
        rw32(field::PROC_EXEC_CTLS2, 0, 0),
    );
    lemma_stored_bits(vmcs[field::PROC_EXEC_CTLS2], 0, 0x0c51_3f0c);
    lemma_configured_field(
        vmcs,
        state,
        trap_exceptions,
        1,
        field::EXCEPTION_BITMAP,
        w32(field::EXCEPTION_BITMAP, bitmap),
    );
    lemma_configured_field(
        vmcs,
        state,
        trap_exceptions,
        2,
        field::ENTRY_CTLS,
        rw32(field::ENTRY_CTLS, 0, 0x200),
    );
    lemma_declared(vmcs[field::ENTRY_CTLS]);
    lemma_configured_field(
        vmcs,
        state,
        trap_exceptions,
        0,
        field::VIRTUAL_APIC_PAGE,
        w64(field::VIRTUAL_APIC_PAGE, state.virtual_apic_gpa),
    );
    lemma_configured_field(
        vmcs,
        state,
        trap_exceptions,
        0,
        field::TPR_THRESHOLD,
        w32(field::TPR_THRESHOLD, 0),
    );
    lemma_configured_field(
        vmcs,
        state,
        trap_exceptions,
        1,
        field::PF_EC_MASK,
        w32(field::PF_EC_MASK, 0),
    );
    lemma_configured_field(
        vmcs,
        state,
        trap_exceptions,
        1,
        field::PF_EC_MATCH,
        w32(field::PF_EC_MATCH, 0),
    );
    lemma_configured_field(
        vmcs,
        state,
        trap_exceptions,
        1,
        field::CR3_TARGET_COUNT,
        w32(field::CR3_TARGET_COUNT, 0),
    );
    lemma_configured_field(
        vmcs,
        state,
        trap_exceptions,
        1,
        field::CR0_MASK,
        w64(field::CR0_MASK, 0),
    );
    lemma_all_bits(after[field::CR0_MASK], 0);
    lemma_configured_field(
        vmcs,
        state,
        trap_exceptions,
        1,
        field::CR4_MASK,
        w64(field::CR4_MASK, 0),
    );
    lemma_all_bits(after[field::CR4_MASK], 0);
    lemma_configured_field(
        vmcs,
        state,
        trap_exceptions,
        2,
        field::CR0_SHADOW,
        w64(field::CR0_SHADOW, 0x8000_0031),
    );
    lemma_all_bits(after[field::CR0_SHADOW], 0x8000_0031);
    lemma_configured_field(
        vmcs,
        state,
        trap_exceptions,
        2,
        field::CR4_SHADOW,
        w64(field::CR4_SHADOW, 0x20),
    );
    lemma_all_bits(after[field::CR4_SHADOW], 0x20);
    lemma_configured_field(
        vmcs,
        state,
        trap_exceptions,
        3,
        field::ENTRY_INTR_INFO,
        w32(field::ENTRY_INTR_INFO, 0),
    );
    lemma_configured_field(
        vmcs,
        state,
        trap_exceptions,
        3,
        field::ENTRY_EXCEPTION_EC,
        w32(field::ENTRY_EXCEPTION_EC, 0),
    );
    lemma_configured_field(
        vmcs,
        state,
        trap_exceptions,
        3,
        field::ENTRY_INSTR_LEN,
        w32(field::ENTRY_INSTR_LEN, 0),
    );
}

/// The registers of a guest programmed for 64-bit mode: paging, long mode and
/// physical-address extension are on, the page tables and the stack are the
/// requested ones, the descriptor tables are empty, and everything else has its
/// power-on value.
#[verifier::rlimit(40)]
pub proof fn law_configured_guest_registers(
    vmcs: Map<u32, u64>,
    state: GuestState,
    trap_exceptions: bool,
)
    ensures
        ({
            let after = after_commands(vmcs, configure_64bit_commands(state, trap_exceptions));
            &&& holds(after, field::GUEST_CR0, 0x8005_001f, 0x8000_0031)
            &&& holds(after, field::GUEST_CR4, 0x03ff_1fbf, 0x20)
            &&& after[field::GUEST_CR3] == state.cr3
            &&& holds(after, field::GUEST_IA32_EFER, 0x501, 0x500)
            &&& after[field::GUEST_GDTR_BASE] == 0
            &&& holds(after, field::GUEST_GDTR_LIMIT, 0xffff_ffff, 0xffff)
            &&& after[field::GUEST_IDTR_BASE] == 0
            &&& holds(after, field::GUEST_IDTR_LIMIT, 0xffff_ffff, 0xffff)
            &&& holds(after, field::GUEST_SYSENTER_CS, 0xffff_ffff, 0)
            &&& after[field::GUEST_SYSENTER_ESP] == 0
            &&& after[field::GUEST_SYSENTER_EIP] == 0
            &&& after[field::GUEST_PENDING_DBG] == 0
            &&& holds(after, field::GUEST_IA32_DEBUGCTL, 0xffc1, 0)
            &&& holds(after, field::GUEST_INTERRUPTIBILITY, 0xffff_ffff, 0)
            &&& after[field::GUEST_IA32_PAT] == 0x0007_0406_0007_0406
            &&& after[field::GUEST_DR7] == 0x400
            &&& after[field::GUEST_RSP] == state.rsp
        }),
{
    let after = after_commands(vmcs, configure_64bit_commands(state, trap_exceptions));
    lemma_configured_field(
        vmcs,
        state,
        trap_exceptions,
        4,
        field::GUEST_CR0,
        w64(field::GUEST_CR0, 0x8000_0031),
    );
    lemma_configured_field(
        vmcs,
        state,
        trap_exceptions,
        4,
        field::GUEST_CR4,
        w64(field::GUEST_CR4, 0x20),
    );
    lemma_configured_field(
        vmcs,
        state,
        trap_exceptions,
        4,
        field::GUEST_CR3,
        w64(field::GUEST_CR3, state.cr3),
    );
    lemma_all_bits(after[field::GUEST_CR3], state.cr3);
    lemma_configured_field(
        vmcs,
        state,
        trap_exceptions,
        4,
        field::GUEST_IA32_EFER,
        w64(field::GUEST_IA32_EFER, 0x500),
    );
    lemma_configured_field(
        vmcs,
        state,
        trap_exceptions,
        6,
        field::GUEST_GDTR_BASE,
        w64(field::GUEST_GDTR_BASE, 0),
    );
    lemma_all_bits(after[field::GUEST_GDTR_BASE], 0);
    lemma_configured_field(
        vmcs,
        state,
        trap_exceptions,
        6,
        field::GUEST_GDTR_LIMIT,
        w32(field::GUEST_GDTR_LIMIT, 0xffff),
    );
    lemma_configured_field(
        vmcs,
        state,
        trap_exceptions,
        6,
        field::GUEST_IDTR_BASE,
        w64(field::GUEST_IDTR_BASE, 0),
    );
    lemma_all_bits(after[field::GUEST_IDTR_BASE], 0);
    lemma_configured_field(
        vmcs,
        state,
        trap_exceptions,
        6,
        field::GUEST_IDTR_LIMIT,
        w32(field::GUEST_IDTR_LIMIT, 0xffff),
    );
    lemma_configured_field(
        vmcs,
        state,
        trap_exceptions,
        7,
        field::GUEST_SYSENTER_CS,
        w32(field::GUEST_SYSENTER_CS, 0),
    );
    lemma_configured_field(
        vmcs,
        state,
        trap_exceptions,
        7,
        field::GUEST_SYSENTER_ESP,
        w64(field::GUEST_SYSENTER_ESP, 0),
    );
    lemma_all_bits(after[field::GUEST_SYSENTER_ESP], 0);
    lemma_configured_field(
        vmcs,
        state,
        trap_exceptions,
        7,
        field::GUEST_SYSENTER_EIP,
        w64(field::GUEST_SYSENTER_EIP, 0),
    );
    lemma_all_bits(after[field::GUEST_SYSENTER_EIP], 0);
    lemma_configured_field(
        vmcs,
        state,
        trap_exceptions,
        7,
        field::GUEST_PENDING_DBG,
        w64(field::GUEST_PENDING_DBG, 0),
    );
    lemma_all_bits(after[field::GUEST_PENDING_DBG], 0);
    lemma_configured_field(
        vmcs,
        state,
        trap_exceptions,
        7,
        field::GUEST_IA32_DEBUGCTL,
        w64(field::GUEST_IA32_DEBUGCTL, 0),
    );
    lemma_configured_field(
        vmcs,
        state,
        trap_exceptions,
        7,
        field::GUEST_INTERRUPTIBILITY,
        w32(field::GUEST_INTERRUPTIBILITY, 0),
    );
    lemma_configured_field(
        vmcs,
        state,
        trap_exceptions,
        7,
        field::GUEST_IA32_PAT,
        w64(field::GUEST_IA32_PAT, 0x0007_0406_0007_0406),
    );
    lemma_all_bits(after[field::GUEST_IA32_PAT], 0x0007_0406_0007_0406);
    lemma_configured_field(
        vmcs,
        state,
        trap_exceptions,
        7,
        field::GUEST_DR7,
        w64(field::GUEST_DR7, 0x400),
    );
    lemma_all_bits(after[field::GUEST_DR7], 0x400);
    lemma_configured_field(
        vmcs,
        state,
        trap_exceptions,
        8,
        field::GUEST_RSP,
        w64(field::GUEST_RSP, state.rsp),
    );
    lemma_all_bits(after[field::GUEST_RSP], state.rsp);
}

/// Each segment register has the four fields that are named after it.
pub proof fn law_segment_fields_go_by_name(name: SegmentName)
    ensures
        name is Es ==> name.layout() == (SegmentFields {
            selector: field::GUEST_ES_SEL,
            base: field::GUEST_ES_BASE,
            limit: field::GUEST_ES_LIMIT,
            attributes: field::GUEST_ES_AR,
        }),
        name is Cs ==> name.layout() == (SegmentFields {
            selector: field::GUEST_CS_SEL,
            base: field::GUEST_CS_BASE,
            limit: field::GUEST_CS_LIMIT,
            attributes: field::GUEST_CS_AR,
        }),
        name is Ss ==> name.layout() == (SegmentFields {
            selector: field::GUEST_SS_SEL,
            base: field::GUEST_SS_BASE,
            limit: field::GUEST_SS_LIMIT,
            attributes: field::GUEST_SS_AR,
        }),
        name is Ds ==> name.layout() == (SegmentFields {
            selector: field::GUEST_DS_SEL,
            base: field::GUEST_DS_BASE,
            limit: field::GUEST_DS_LIMIT,
            attributes: field::GUEST_DS_AR,
        }),
        name is Fs ==> name.layout() == (SegmentFields {
            selector: field::GUEST_FS_SEL,
            base: field::GUEST_FS_BASE,
            limit: field::GUEST_FS_LIMIT,
            attributes: field::GUEST_FS_AR,
        }),
        name is Gs ==> name.layout() == (SegmentFields {
            selector: field::GUEST_GS_SEL,
            base: field::GUEST_GS_BASE,
            limit: field::GUEST_GS_LIMIT,
            attributes: field::GUEST_GS_AR,
        }),
        name is Ldtr ==> name.layout() == (SegmentFields {
            selector: field::GUEST_LDTR_SEL,
            base: field::GUEST_LDTR_BASE,
            limit: field::GUEST_LDTR_LIMIT,
            attributes: field::GUEST_LDTR_AR,
        }),
        name is Tr ==> name.layout() == (SegmentFields {
            selector: field::GUEST_TR_SEL,
            base: field::GUEST_TR_BASE,
            limit: field::GUEST_TR_LIMIT,
            attributes: field::GUEST_TR_AR,
        }),
{
}

spec fn flat_parts() -> Seq<Seq<Command>> {
    seq![
        segment_commands(SegmentName::Cs, 0x10, 0, 0xffff_ffff, CS_AR_LONG),
        flat_data(SegmentName::Ds),
        flat_data(SegmentName::Es),
        flat_data(SegmentName::Ss),
        flat_data(SegmentName::Fs),
        flat_data(SegmentName::Gs),
        segment_commands(SegmentName::Tr, 0x20, 0, 0xffff, TR_AR),
        segment_commands(SegmentName::Ldtr, 0, 0, 0xffff, LDTR_AR_UNUSABLE),
    ]
}

/// What the program for a 64-bit guest leaves in a field of a segment.
proof fn lemma_configured_segment_field(
    vmcs: Map<u32, u64>,
    state: GuestState,
    trap_exceptions: bool,
    part: int,
    f: u32,
    command: Command,
)
    requires
        0 <= part < 8,
        sets(flat_parts()[part], f, command),
        forall|k: int| 0 <= k < 8 && k != part ==> spares(#[trigger] flat_parts()[k], f),
        0x0800 <= f <= 0x080e || 0x4800 <= f <= 0x480e || 0x4814 <= f <= 0x4822 || 0x6806 <= f
            <= 0x6814,
    ensures
        ({
            let after = after_commands(vmcs, configure_64bit_commands(state, trap_exceptions));
            command matches Command::WriteVmcs { width, value, .. } ==> holds(
                after,
                f,
                crate::tdx::writable_bits(f, width),
                value,
            )
        }),
{
    let parts = configured_parts(state, trapped_bitmap(trap_exceptions));
    let flat = flat_parts();
    assert(joined(flat, 8) == flat_segments()) by {
        reveal_with_fuel(joined, 9);
        assert(Seq::<Command>::empty() + flat[0] =~= flat[0]);
    }
    lemma_joined_sets(flat, 8, f, command);
    assert(sets(flat[part], f, command));
    assert(sets(parts[5], f, command));
    assert(joined(parts, 9) == configure_64bit_commands(state, trap_exceptions)) by {
        reveal_with_fuel(joined, 10);
        assert(Seq::<Command>::empty() + parts[0] =~= parts[0]);
    }
    assert(spares(parts[0], f));
    assert(spares(parts[1], f));
    assert(spares(parts[2], f));
    assert(spares(parts[3], f));
    assert(spares(parts[4], f));
    assert(spares(parts[6], f));
    assert(spares(parts[7], f));
    assert(spares(parts[8], f));
    lemma_joined_sets(parts, 9, f, command);
    lemma_set_field(vmcs, joined(parts, 9), f, command);
    if let Command::WriteVmcs { width, value, .. } = command {
        lemma_stored_bits(vmcs[f], value, crate::tdx::writable_bits(f, width));
    }
}

/// One segment register of a guest programmed for 64-bit mode.
proof fn lemma_configured_segment(
    vmcs: Map<u32, u64>,
    state: GuestState,
    trap_exceptions: bool,
    part: int,
    name: SegmentName,
    sel: u64,
    base: u64,
    limit: u64,
    ar: u64,
)
    requires
        0 <= part < 8,
        flat_parts()[part] == segment_commands(name, sel, base, limit, ar),
    ensures
        ({
            let after = after_commands(vmcs, configure_64bit_commands(state, trap_exceptions));
            &&& holds(after, name.layout().selector, 0xffff, sel)
            &&& after[name.layout().base] == base
            &&& holds(after, name.layout().limit, 0xffff_ffff, limit)
            &&& holds(after, name.layout().attributes, 0xffff_ffff, ar)
        }),
{
    let fields = name.layout();
    let own = segment_commands(name, sel, base, limit, ar);
    let flat = flat_parts();
    assert forall|k: int| 0 <= k < 8 && k != part implies spares(#[trigger] flat[k], fields.selector)
        && spares(flat[k], fields.base) && spares(flat[k], fields.limit) && spares(
        flat[k],
        fields.attributes,
    ) by {
        assert(flat[k][0] == w16(flat_name(k).layout().selector, flat[k][0]->WriteVmcs_value));
        assert(flat[part][0] == w16(flat_name(part).layout().selector, sel));
    }
    assert(own[0] == w16(fields.selector, sel));
    assert(own[1] == w64(fields.base, base));
    assert(own[2] == w32(fields.limit, limit));
    assert(own[3] == w32(fields.attributes, ar));
    lemma_configured_segment_field(
        vmcs,
        state,
        trap_exceptions,
        part,
        fields.selector,
        w16(fields.selector, sel),
    );
    lemma_configured_segment_field(
        vmcs,
        state,
        trap_exceptions,
        part,
        fields.base,
        w64(fields.base, base),
    );
    lemma_configured_segment_field(
        vmcs,
        state,
        trap_exceptions,
        part,
        fields.limit,
        w32(fields.limit, limit),
    );
    lemma_configured_segment_field(
        vmcs,
        state,
        trap_exceptions,
        part,
        fields.attributes,
        w32(fields.attributes, ar),
    );
    lemma_all_bits(
        after_commands(vmcs, configure_64bit_commands(state, trap_exceptions))[fields.base],
        base,
    );
}

spec fn flat_name(k: int) -> SegmentName {
    if k == 0 {
        SegmentName::Cs
    } else if k == 1 {
        SegmentName::Ds
    } else if k == 2 {
        SegmentName::Es
    } else if k == 3 {
        SegmentName::Ss
    } else if k == 4 {
        SegmentName::Fs
    } else if k == 5 {
        SegmentName::Gs
    } else if k == 6 {
        SegmentName::Tr
    } else {
        SegmentName::Ldtr
    }
}

/// The segments of a guest programmed for 64-bit mode are flat: code is 64-bit
/// code, the data segments are present and writable, the task register holds a
/// busy task segment, and there is no local descriptor table.
#[verifier::rlimit(40)]
pub proof fn law_configured_guest_segments(
    vmcs: Map<u32, u64>,
    state: GuestState,
    trap_exceptions: bool,
)
    ensures
        ({
            let after = after_commands(vmcs, configure_64bit_commands(state, trap_exceptions));
            &&& holds(after, field::GUEST_CS_SEL, 0xffff, 0x10)
            &&& after[field::GUEST_CS_BASE] == 0
            &&& holds(after, field::GUEST_CS_LIMIT, 0xffff_ffff, 0xffff_ffff)
            &&& holds(after, field::GUEST_CS_AR, 0xffff_ffff, 0xa09b)
            &&& holds(after, field::GUEST_DS_SEL, 0xffff, 0x18)
            &&& after[field::GUEST_DS_BASE] == 0
            &&& holds(after, field::GUEST_DS_LIMIT, 0xffff_ffff, 0xffff_ffff)
            &&& holds(after, field::GUEST_DS_AR, 0xffff_ffff, 0xc093)
            &&& holds(after, field::GUEST_ES_SEL, 0xffff, 0x18)
            &&& after[field::GUEST_ES_BASE] == 0
            &&& holds(after, field::GUEST_ES_LIMIT, 0xffff_ffff, 0xffff_ffff)
            &&& holds(after, field::GUEST_ES_AR, 0xffff_ffff, 0xc093)
            &&& holds(after, field::GUEST_SS_SEL, 0xffff, 0x18)
            &&& after[field::GUEST_SS_BASE] == 0
            &&& holds(after, field::GUEST_SS_LIMIT, 0xffff_ffff, 0xffff_ffff)
            &&& holds(after, field::GUEST_SS_AR, 0xffff_ffff, 0xc093)
            &&& holds(after, field::GUEST_FS_SEL, 0xffff, 0x18)
            &&& after[field::GUEST_FS_BASE] == 0
            &&& holds(after, field::GUEST_FS_LIMIT, 0xffff_ffff, 0xffff_ffff)
            &&& holds(after, field::GUEST_FS_AR, 0xffff_ffff, 0xc093)
            &&& holds(after, field::GUEST_GS_SEL, 0xffff, 0x18)
            &&& after[field::GUEST_GS_BASE] == 0
            &&& holds(after, field::GUEST_GS_LIMIT, 0xffff_ffff, 0xffff_ffff)
            &&& holds(after, field::GUEST_GS_AR, 0xffff_ffff, 0xc093)
            &&& holds(after, field::GUEST_TR_SEL, 0xffff, 0x20)
            &&& after[field::GUEST_TR_BASE] == 0
            &&& holds(after, field::GUEST_TR_LIMIT, 0xffff_ffff, 0xffff)
            &&& holds(after, field::GUEST_TR_AR, 0xffff_ffff, 0x8b)
            &&& holds(after, field::GUEST_LDTR_SEL, 0xffff, 0)
            &&& after[field::GUEST_LDTR_BASE] == 0
            &&& holds(after, field::GUEST_LDTR_LIMIT, 0xffff_ffff, 0xffff)
            &&& holds(after, field::GUEST_LDTR_AR, 0xffff_ffff, 0x1_0000)
        }),
{
    lemma_configured_segment(
        vmcs,
        state,
        trap_exceptions,
        0,
        SegmentName::Cs,
        0x10,
        0,
        0xffff_ffff,
        0xa09b,
    );
    lemma_configured_segment(
        vmcs,
        state,
        trap_exceptions,
        1,
        SegmentName::Ds,
        0x18,
        0,
        0xffff_ffff,
        0xc093,
    );
    lemma_configured_segment(
        vmcs,
        state,
        trap_exceptions,
        2,
        SegmentName::Es,
        0x18,
        0,
        0xffff_ffff,
        0xc093,
    );
    lemma_configured_segment(
        vmcs,
        state,
        trap_exceptions,
        3,
        SegmentName::Ss,
        0x18,
        0,
        0xffff_ffff,
        0xc093,
    );
    lemma_configured_segment(
        vmcs,
        state,
        trap_exceptions,
        4,
        SegmentName::Fs,
        0x18,
        0,
        0xffff_ffff,
        0xc093,
    );
    lemma_configured_segment(
        vmcs,
        state,
        trap_exceptions,
        5,
        SegmentName::Gs,
        0x18,
        0,
        0xffff_ffff,
        0xc093,
    );
    lemma_configured_segment(
        vmcs,
        state,
        trap_exceptions,
        6,
        SegmentName::Tr,
        0x20,
        0,
        0xffff,
        0x8b,
    );
    lemma_configured_segment(
        vmcs,
        state,
        trap_exceptions,
        7,
        SegmentName::Ldtr,
        0,
        0,
        0xffff,
        0x1_0000,
    );
}

/// Programming a 64-bit guest changes no field but those it is about.
pub proof fn law_configuring_leaves_other_fields_alone(
    vmcs: Map<u32, u64>,
    state: GuestState,
    trap_exceptions: bool,
    f: u32,
)
    requires
        !(field::GUEST_ES_SEL <= f <= field::GUEST_TR_SEL),
        !(field::GUEST_ES_LIMIT <= f <= field::GUEST_TR_LIMIT),
        !(field::GUEST_ES_AR <= f <= field::GUEST_TR_AR),
        !(field::GUEST_ES_BASE <= f <= field::GUEST_TR_BASE),
        f != field::PROC_EXEC_CTLS,
        f != field::PROC_EXEC_CTLS2,
        f != field::VIRTUAL_APIC_PAGE,
        f != field::TPR_THRESHOLD,
        f != field::EXCEPTION_BITMAP,
        f != field::PF_EC_MASK,
        f != field::PF_EC_MATCH,
        f != field::CR3_TARGET_COUNT,
        f != field::CR0_MASK,
        f != field::CR4_MASK,
        f != field::ENTRY_INTR_INFO,
        f != field::ENTRY_EXCEPTION_EC,
        f != field::ENTRY_INSTR_LEN,
        f != field::GUEST_SYSENTER_CS,
        f != field::GUEST_SYSENTER_ESP,
        f != field::GUEST_SYSENTER_EIP,
        f != field::GUEST_PENDING_DBG,
        f != field::GUEST_IA32_DEBUGCTL,
        f != field::GUEST_INTERRUPTIBILITY,
        f != field::GUEST_IA32_PAT,
        f != field::GUEST_DR7,
        f != field::CR0_SHADOW,
        f != field::CR4_SHADOW,
        f != field::ENTRY_CTLS,
        f != field::GUEST_CR0,
        f != field::GUEST_CR3,
        f != field::GUEST_CR4,
        f != field::GUEST_IA32_EFER,
        f != field::GUEST_GDTR_BASE,
        f != field::GUEST_GDTR_LIMIT,
        f != field::GUEST_IDTR_BASE,
        f != field::GUEST_IDTR_LIMIT,
        f != field::GUEST_RSP,
    ensures
        after_commands(vmcs, configure_64bit_commands(state, trap_exceptions))[f] == vmcs[f],
{
    let parts = configured_parts(state, trapped_bitmap(trap_exceptions));
    lemma_flat_segments_spare(f);
    assert(joined(parts, 9) == configure_64bit_commands(state, trap_exceptions)) by {
        reveal_with_fuel(joined, 10);
        assert(Seq::<Command>::empty() + parts[0] =~= parts[0]);
    }
    assert forall|k: int| 0 <= k < 9 implies spares(#[trigger] parts[k], f) by {}
    lemma_joined_sets(parts, 9, f, w64(f, 0));
    law_spared_fields_keep_their_value(vmcs, joined(parts, 9), f);
}

spec fn initialization_parts(vm: L2Vm, virtual_apic_gpa: u64, exception_bitmap: u32) -> Seq<
    Seq<Command>,
> {
    seq![
        seq![features_off(vm)],
        seq![Command::SetApicBase { base: APIC_BASE_X2APIC }],
        module_controls(virtual_apic_gpa),
        no_event(),
        interception(exception_bitmap as u64),
        no_event(),
        power_on_state(),
        passthrough_commands(passthrough_msrs()),
        seq![Command::Invept],
    ]
}

#[verifier::rlimit(40)]
proof fn lemma_initialization_parts(vm: L2Vm, virtual_apic_gpa: u64, exception_bitmap: u32)
    ensures
        joined(initialization_parts(vm, virtual_apic_gpa, exception_bitmap), 9)
            == initialize_commands(vm, virtual_apic_gpa, exception_bitmap),
{
    let parts = initialization_parts(vm, virtual_apic_gpa, exception_bitmap);
    reveal_with_fuel(joined, 10);
    assert(joined(parts, 9) =~= initialize_commands(vm, virtual_apic_gpa, exception_bitmap));
}

/// What the program of a processor's initialization leaves in a field.
proof fn lemma_initialized_field(
    vmcs: Map<u32, u64>,
    vm: L2Vm,
    virtual_apic_gpa: u64,
    exception_bitmap: u32,
    part: int,
    f: u32,
    command: Command,
)
    requires
        ({
            let parts = initialization_parts(vm, virtual_apic_gpa, exception_bitmap);
            &&& 0 <= part < 9
            &&& sets(parts[part], f, command)
            &&& forall|k: int|
                0 <= k < 9 && k != 7 ==> spares(#[trigger] parts[k], f) || sets(
                    parts[k],
                    f,
                    command,
                )
        }),
    ensures
        ({
            let after = after_commands(
                vmcs,
                initialize_commands(vm, virtual_apic_gpa, exception_bitmap),
            );
            &&& after[f] == after_command(vmcs, command)[f]
            &&& command matches Command::WriteVmcs { width, value, .. } ==> holds(
                after,
                f,
                crate::tdx::writable_bits(f, width),
                value,
            )
        }),
{
    let parts = initialization_parts(vm, virtual_apic_gpa, exception_bitmap);
    lemma_initialization_parts(vm, virtual_apic_gpa, exception_bitmap);
    lemma_passthrough_spares(passthrough_msrs(), f);
    lemma_joined_sets(parts, 9, f, command);
    lemma_set_field(vmcs, joined(parts, 9), f, command);
    if let Command::WriteVmcs { width, value, .. } = command {
        lemma_stored_bits(vmcs[f], value, crate::tdx::writable_bits(f, width));
    }
}

/// What a processor's initialization leaves in the VMCS: the module's own choice
/// of processor-based controls stands, the virtual-APIC page is the processor's
/// with no priority threshold, the chosen exceptions exit and page faults not by
/// their error code, the guest owns its control registers, no event is injected,
/// and the state the guest has not set itself has its power-on value.
#[verifier::rlimit(40)]
pub proof fn law_initialized_vp_state(
    vmcs: Map<u32, u64>,
    vm: L2Vm,
    virtual_apic_gpa: u64,
    exception_bitmap: u32,
)
    ensures
        ({
            let after = after_commands(
                vmcs,
                initialize_commands(vm, virtual_apic_gpa, exception_bitmap),
            );
            &&& after[field::PROC_EXEC_CTLS] == vmcs[field::PROC_EXEC_CTLS]
            &&& after[field::PROC_EXEC_CTLS2] == vmcs[field::PROC_EXEC_CTLS2]
            &&& holds(after, field::VIRTUAL_APIC_PAGE, 0xffff_ffff_ffff_f000, virtual_apic_gpa)
            &&& holds(after, field::TPR_THRESHOLD, 0xffff_ffff, 0)
            &&& holds(after, field::EXCEPTION_BITMAP, 0xffff_ffff_fffb_ffff, exception_bitmap as u64)
            &&& holds(after, field::PF_EC_MASK, 0xffff_ffff, 0)
            &&& holds(after, field::PF_EC_MATCH, 0xffff_ffff, 0)
            &&& holds(after, field::CR3_TARGET_COUNT, 0xffff_ffff, 0)
            &&& after[field::CR0_MASK] == 0
            &&& after[field::CR4_MASK] == 0
            &&& holds(after, field::ENTRY_INTR_INFO, 0xffff_ffff, 0)
            &&& holds(after, field::ENTRY_EXCEPTION_EC, 0xffff_ffff, 0)
            &&& holds(after, field::ENTRY_INSTR_LEN, 0xffff_ffff, 0)
            &&& holds(after, field::GUEST_SYSENTER_CS, 0xffff_ffff, 0)
            &&& after[field::GUEST_SYSENTER_ESP] == 0
            &&& after[field::GUEST_SYSENTER_EIP] == 0
            &&& after[field::GUEST_PENDING_DBG] == 0
            &&& holds(after, field::GUEST_IA32_DEBUGCTL, 0xffc1, 0)
            &&& holds(after, field::GUEST_INTERRUPTIBILITY, 0xffff_ffff, 0)
            &&& after[field::GUEST_IA32_PAT] == 0x0007_0406_0007_0406
            &&& after[field::GUEST_DR7] == 0x400
        }),
{
    let after = after_commands(vmcs, initialize_commands(vm, virtual_apic_gpa, exception_bitmap));
    lemma_initialized_field(
        vmcs,
        vm,
        virtual_apic_gpa,
        exception_bitmap,
        2,
        field::PROC_EXEC_CTLS,
        rw32(field::PROC_EXEC_CTLS, 0, 0),
    );
    lemma_stored_bits(vmcs[field::PROC_EXEC_CTLS], 0, 0x48f9_9a04);
    lemma_initialized_field(
        vmcs,
        vm,
        virtual_apic_gpa,
        exception_bitmap,
        2,
        field::PROC_EXEC_CTLS2,
        rw32(field::PROC_EXEC_CTLS2, 0, 0),
    );
    lemma_stored_bits(vmcs[field::PROC_EXEC_CTLS2], 0, 0x0c51_3f0c);
    lemma_initialized_field(
        vmcs,
        vm,
        virtual_apic_gpa,
        exception_bitmap,
        2,
        field::VIRTUAL_APIC_PAGE,
        w64(field::VIRTUAL_APIC_PAGE, virtual_apic_gpa),
    );
    lemma_initialized_field(
        vmcs,
        vm,
        virtual_apic_gpa,
        exception_bitmap,
        2,
        field::TPR_THRESHOLD,
        w32(field::TPR_THRESHOLD, 0),
    );
    lemma_initialized_field(
        vmcs,
        vm,
        virtual_apic_gpa,
        exception_bitmap,
        4,
        field::EXCEPTION_BITMAP,
        w32(field::EXCEPTION_BITMAP, exception_bitmap as u64),
    );
    lemma_initialized_field(
        vmcs,
        vm,
        virtual_apic_gpa,
        exception_bitmap,
        4,
        field::PF_EC_MASK,
        w32(field::PF_EC_MASK, 0),
    );
    lemma_initialized_field(
        vmcs,
        vm,
        virtual_apic_gpa,
        exception_bitmap,
        4,
        field::PF_EC_MATCH,
        w32(field::PF_EC_MATCH, 0),
    );
    lemma_initialized_field(
        vmcs,
        vm,
        virtual_apic_gpa,
        exception_bitmap,
        4,
        field::CR3_TARGET_COUNT,
        w32(field::CR3_TARGET_COUNT, 0),
    );
    lemma_initialized_field(
        vmcs,
        vm,
        virtual_apic_gpa,
        exception_bitmap,
        4,
        field::CR0_MASK,
        w64(field::CR0_MASK, 0),
    );
    lemma_all_bits(after[field::CR0_MASK], 0);
    lemma_initialized_field(
        vmcs,
        vm,
        virtual_apic_gpa,
        exception_bitmap,
        4,
        field::CR4_MASK,
        w64(field::CR4_MASK, 0),
    );
    lemma_all_bits(after[field::CR4_MASK], 0);
    lemma_initialized_field(
        vmcs,
        vm,
        virtual_apic_gpa,
        exception_bitmap,
        3,
        field::ENTRY_INTR_INFO,
        w32(field::ENTRY_INTR_INFO, 0),
    );
    lemma_initialized_field(
        vmcs,
        vm,
        virtual_apic_gpa,
        exception_bitmap,
        3,
        field::ENTRY_EXCEPTION_EC,
        w32(field::ENTRY_EXCEPTION_EC, 0),
    );
    lemma_initialized_field(
        vmcs,
        vm,
        virtual_apic_gpa,
        exception_bitmap,
        3,
        field::ENTRY_INSTR_LEN,
        w32(field::ENTRY_INSTR_LEN, 0),
    );
    lemma_initialized_field(
        vmcs,
        vm,
        virtual_apic_gpa,
        exception_bitmap,
        6,
        field::GUEST_SYSENTER_CS,
        w32(field::GUEST_SYSENTER_CS, 0),
    );
    lemma_initialized_field(
        vmcs,
        vm,
        virtual_apic_gpa,
        exception_bitmap,
        6,
        field::GUEST_SYSENTER_ESP,
        w64(field::GUEST_SYSENTER_ESP, 0),
    );
    lemma_all_bits(after[field::GUEST_SYSENTER_ESP], 0);
    lemma_initialized_field(
        vmcs,
        vm,
        virtual_apic_gpa,
        exception_bitmap,
        6,
        field::GUEST_SYSENTER_EIP,
        w64(field::GUEST_SYSENTER_EIP, 0),
    );
    lemma_all_bits(after[field::GUEST_SYSENTER_EIP], 0);
    lemma_initialized_field(
        vmcs,
        vm,
        virtual_apic_gpa,
        exception_bitmap,
        6,
        field::GUEST_PENDING_DBG,
        w64(field::GUEST_PENDING_DBG, 0),
    );
    lemma_all_bits(after[field::GUEST_PENDING_DBG], 0);
    lemma_initialized_field(
        vmcs,
        vm,
        virtual_apic_gpa,
        exception_bitmap,
        6,
        field::GUEST_IA32_DEBUGCTL,
        w64(field::GUEST_IA32_DEBUGCTL, 0),
    );
    lemma_initialized_field(
        vmcs,
        vm,
        virtual_apic_gpa,
        exception_bitmap,
        6,
        field::GUEST_INTERRUPTIBILITY,
        w32(field::GUEST_INTERRUPTIBILITY, 0),
    );
    lemma_initialized_field(
        vmcs,
        vm,
        virtual_apic_gpa,
        exception_bitmap,
        6,
        field::GUEST_IA32_PAT,
        w64(field::GUEST_IA32_PAT, 0x0007_0406_0007_0406),
    );
    lemma_all_bits(after[field::GUEST_IA32_PAT], 0x0007_0406_0007_0406);
    lemma_initialized_field(
        vmcs,
        vm,
        virtual_apic_gpa,
        exception_bitmap,
        6,
        field::GUEST_DR7,
        w64(field::GUEST_DR7, 0x400),
    );
    lemma_all_bits(after[field::GUEST_DR7], 0x400);
}

/// Initializing a processor changes no field but those it is about.
pub proof fn law_initializing_leaves_other_fields_alone(
    vmcs: Map<u32, u64>,
    vm: L2Vm,
    virtual_apic_gpa: u64,
    exception_bitmap: u32,
    f: u32,
)
    requires
        f != field::PROC_EXEC_CTLS,
        f != field::PROC_EXEC_CTLS2,
        f != field::VIRTUAL_APIC_PAGE,
        f != field::TPR_THRESHOLD,
        f != field::EXCEPTION_BITMAP,
        f != field::PF_EC_MASK,
        f != field::PF_EC_MATCH,
        f != field::CR3_TARGET_COUNT,
        f != field::CR0_MASK,
        f != field::CR4_MASK,
        f != field::ENTRY_INTR_INFO,
        f != field::ENTRY_EXCEPTION_EC,
        f != field::ENTRY_INSTR_LEN,
        f != field::GUEST_SYSENTER_CS,
        f != field::GUEST_SYSENTER_ESP,
        f != field::GUEST_SYSENTER_EIP,
        f != field::GUEST_PENDING_DBG,
        f != field::GUEST_IA32_DEBUGCTL,
        f != field::GUEST_INTERRUPTIBILITY,
        f != field::GUEST_IA32_PAT,
        f != field::GUEST_DR7,
    ensures
        after_commands(vmcs, initialize_commands(vm, virtual_apic_gpa, exception_bitmap))[f]
            == vmcs[f],
{
    let parts = initialization_parts(vm, virtual_apic_gpa, exception_bitmap);
    lemma_initialization_parts(vm, virtual_apic_gpa, exception_bitmap);
    lemma_passthrough_spares(passthrough_msrs(), f);
    assert forall|k: int| 0 <= k < 9 implies spares(#[trigger] parts[k], f) by {}
    lemma_joined_sets(parts, 9, f, w64(f, 0));
    law_spared_fields_keep_their_value(vmcs, joined(parts, 9), f);
}

/// The x2APIC task priority.
pub const MSR_X2APIC_TPR: u32 = 0x808;

/// The x2APIC end of interrupt.
pub const MSR_X2APIC_EOI: u32 = 0x80b;

/// The x2APIC self-IPI.
pub const MSR_X2APIC_SELF_IPI: u32 = 0x83f;

pub const MSR_TSC: u32 = 0x10;

pub const MSR_SPEC_CTRL: u32 = 0x48;

pub const MSR_PRED_CMD: u32 = 0x49;

pub const MSR_SYSENTER_CS: u32 = 0x174;

pub const MSR_SYSENTER_ESP: u32 = 0x175;

pub const MSR_SYSENTER_EIP: u32 = 0x176;

pub const MSR_XSS: u32 = 0xda0;

pub const MSR_EFER: u32 = 0xc000_0080;

pub const MSR_STAR: u32 = 0xc000_0081;

pub const MSR_LSTAR: u32 = 0xc000_0082;

pub const MSR_SFMASK: u32 = 0xc000_0084;

pub const MSR_FS_BASE: u32 = 0xc000_0100;

pub const MSR_GS_BASE: u32 = 0xc000_0101;

pub const MSR_KERNEL_GS_BASE: u32 = 0xc000_0102;

pub const MSR_TSC_AUX: u32 = 0xc000_0103;

/// The MSRs that a guest reaches without an exit are the three x2APIC registers
/// that hardware serves itself and the state of its own thread: the time stamp
/// counter, the speculation controls, the registers of the fast system calls,
/// the extended feature enables, the segment bases and the rest of what the
/// driver swaps. Initializing a processor passes each of them through, and no
/// other.
#[verifier::rlimit(60)]
pub proof fn law_passed_through_msrs_by_name(
    vm: L2Vm,
    virtual_apic_gpa: u64,
    exception_bitmap: u32,
    msr: u32,
)
    ensures
        initialize_commands(vm, virtual_apic_gpa, exception_bitmap).contains(
            Command::PassthroughMsr { msr },
        ) <==> (msr == MSR_X2APIC_TPR || msr == MSR_X2APIC_EOI || msr == MSR_X2APIC_SELF_IPI ||
            msr == MSR_TSC || msr == MSR_SPEC_CTRL || msr == MSR_PRED_CMD || msr ==
            MSR_SYSENTER_CS || msr == MSR_SYSENTER_ESP || msr == MSR_SYSENTER_EIP || msr ==
            MSR_XSS || msr == MSR_EFER || msr == MSR_STAR || msr == MSR_LSTAR || msr == MSR_SFMASK
            || msr == MSR_FS_BASE || msr == MSR_GS_BASE || msr == MSR_KERNEL_GS_BASE || msr ==
            MSR_TSC_AUX),
        MSR_X2APIC_TPR == 0x808 && MSR_X2APIC_EOI == 0x80b && MSR_X2APIC_SELF_IPI == 0x83f,
        MSR_TSC == 0x10 && MSR_SPEC_CTRL == 0x48 && MSR_PRED_CMD == 0x49,
        MSR_SYSENTER_CS == 0x174 && MSR_SYSENTER_ESP == 0x175 && MSR_SYSENTER_EIP == 0x176,
        MSR_XSS == 0xda0,
        MSR_EFER == 0xc000_0080 && MSR_STAR == 0xc000_0081,
        MSR_LSTAR == 0xc000_0082 && MSR_SFMASK == 0xc000_0084,
        MSR_FS_BASE == 0xc000_0100 && MSR_GS_BASE == 0xc000_0101,
        MSR_KERNEL_GS_BASE == 0xc000_0102 && MSR_TSC_AUX == 0xc000_0103,
{
    let program = initialize_commands(vm, virtual_apic_gpa, exception_bitmap);
    let passthrough = passthrough_commands(passthrough_msrs());
    let before = seq![features_off(vm)] + apic_commands(virtual_apic_gpa) + interception(
        exception_bitmap as u64,
    ) + no_event() + power_on_state();
    assert(program =~= before + passthrough + seq![Command::Invept]);
    let wanted = Command::PassthroughMsr { msr };
    assert forall|i: int| 0 <= i < program.len() && program[i] == wanted implies
        passthrough_msrs().contains(msr) by {
        assert(before.len() <= i < before.len() + passthrough.len());
        assert(program[i] == passthrough[i - before.len()]);
        assert(passthrough_msrs()[i - before.len()] == msr);
    }
    assert forall|k: int| 0 <= k < passthrough_msrs().len() implies program.contains(
        Command::PassthroughMsr { msr: #[trigger] passthrough_msrs()[k] },
    ) by {
        assert(program[before.len() + k] == passthrough[k]);
    }
    assert(passthrough_msrs()[0] == 0x808);
    assert(passthrough_msrs()[1] == 0x80b);
    assert(passthrough_msrs()[2] == 0x83f);
    assert(passthrough_msrs()[3] == 0x10);
    assert(passthrough_msrs()[4] == 0x48);
    assert(passthrough_msrs()[5] == 0x49);
    assert(passthrough_msrs()[6] == 0x174);
    assert(passthrough_msrs()[7] == 0x175);
    assert(passthrough_msrs()[8] == 0x176);
    assert(passthrough_msrs()[9] == 0xda0);
    assert(passthrough_msrs()[10] == 0xc000_0080);
    assert(passthrough_msrs()[11] == 0xc000_0081);
    assert(passthrough_msrs()[12] == 0xc000_0082);
    assert(passthrough_msrs()[13] == 0xc000_0084);
    assert(passthrough_msrs()[14] == 0xc000_0100);
    assert(passthrough_msrs()[15] == 0xc000_0101);
    assert(passthrough_msrs()[16] == 0xc000_0102);
    assert(passthrough_msrs()[17] == 0xc000_0103);
}

/// Initializing a processor begins by turning off the three optional features of
/// its own L2 VM, then switches the APIC model to x2APIC mode at the address that
/// reads of the APIC base are answered with, and ends by invalidating
/// translations; it does each of these once.
#[verifier::rlimit(40)]
pub proof fn law_initialization_begins_and_ends(
    vm: L2Vm,
    virtual_apic_gpa: u64,
    exception_bitmap: u32,
    i: int,
)
    requires
        vm.wf(),
        0 <= i < initialize_commands(vm, virtual_apic_gpa, exception_bitmap).len(),
    ensures
        ({
            let program = initialize_commands(vm, virtual_apic_gpa, exception_bitmap);
            &&& program[i] is WriteTdvps <==> i == 0
            &&& program[0] == (Command::WriteTdvps {
                field_id: (0xa020_0003_0000_0050 + vm.vm_id) as u64,
                value: 0,
                mask: 7,
            })
            &&& program[i] is SetApicBase <==> i == 1
            &&& program[1] == (Command::SetApicBase {
                base: (0xfee0_0000 + 0x800 + 0x400 + 0x100) as u64,
            })
            &&& program[i] is Invept <==> i == program.len() - 1
        }),
{
    let program = initialize_commands(vm, virtual_apic_gpa, exception_bitmap);
    let head = seq![features_off(vm), Command::SetApicBase { base: APIC_BASE_X2APIC }];
    let writes = module_controls(virtual_apic_gpa) + no_event() + interception(
        exception_bitmap as u64,
    ) + no_event() + power_on_state();
    let passthrough = passthrough_commands(passthrough_msrs());
    assert(program =~= head + writes + passthrough + seq![Command::Invept]);
    assert forall|k: int| 0 <= k < writes.len() implies (#[trigger] writes[k] is WriteVmcs
        || writes[k] is UpdateVmcs) by {
        let controls = module_controls(virtual_apic_gpa);
        let trapped = interception(exception_bitmap as u64);
        if k < 4 {
            assert(writes[k] == controls[k]);
        } else if k < 7 {
            assert(writes[k] == no_event()[k - 4]);
        } else if k < 13 {
            assert(writes[k] == trapped[k - 7]);
        } else if k < 16 {
            assert(writes[k] == no_event()[k - 13]);
        } else {
            assert(writes[k] == power_on_state()[k - 16]);
        }
    }
    if 2 <= i < 2 + writes.len() {
        assert(program[i] == writes[i - 2]);
    } else if 2 + writes.len() <= i < program.len() - 1 {
        assert(program[i] == passthrough[i - 2 - writes.len()]);
    }
}

proof fn lemma_updated_bits(current: u64, clear: u64, set: u64, id: u64, other: u64)
    by (bit_vector)
    requires
        id < 64,
        other < 64,
    ensures
        ((current & !clear) | set) & set == set,
        ((current & !clear) | set) & clear & !set == 0,
        ((current & !clear) | set) & !clear & !set == current & !clear & !set,
        ((1u64 << id) >> other) & 1 == 1 <==> other == id,
{
}

/// An update sets the bits it is to set, clears the others that it is to clear,
/// and keeps the rest.
pub proof fn law_updates_change_only_their_bits(current: u64, clear: u64, set: u64)
    ensures
        updated(current, clear, set) & set == set,
        updated(current, clear, set) & clear & !set == 0,
        updated(current, clear, set) & !clear & !set == current & !clear & !set,
{
    lemma_updated_bits(current, clear, set, 0, 0);
}

/// A written field takes the bits of the value that are the L1's to set, keeps
/// its others, and no other field changes; a command that writes no field leaves
/// the VMCS as it is.
pub proof fn law_commands_store_owned_bits(
    vmcs: Map<u32, u64>,
    f: u32,
    width: Width,
    value: u64,
    clear: u64,
    set: u64,
    other: u32,
)
    requires
        f != other,
    ensures
        ({
            let owned = crate::tdx::writable_bits(f, width);
            let written = after_command(vmcs, Command::WriteVmcs { field: f, width, value });
            let changed = after_command(vmcs, Command::UpdateVmcs { field: f, width, clear, set });
            &&& holds(written, f, owned, value)
            &&& holds(written, f, !owned, vmcs[f])
            &&& written[other] == vmcs[other]
            &&& holds(changed, f, owned, updated(vmcs[f], clear, set))
            &&& holds(changed, f, !owned, vmcs[f])
            &&& changed[other] == vmcs[other]
        }),
        after_command(vmcs, Command::Invept) == vmcs,
        after_command(vmcs, Command::SetApicBase { base: value }) == vmcs,
        after_command(vmcs, Command::PassthroughMsr { msr: f }) == vmcs,
{
    let owned = crate::tdx::writable_bits(f, width);
    lemma_stored_bits(vmcs[f], value, owned);
    lemma_stored_bits(vmcs[f], updated(vmcs[f], clear, set), owned);
}

/// Which call a command begins with: a write of its field, a read of the field it
/// changes, a write of the named field with the named mask, the read intercept of
/// the MSR, or an invalidation for this L2 VM alone. Setting the APIC base takes
/// no call, and an MSR without an intercept bit fails at once.
pub proof fn law_commands_begin_with_their_call(vm: L2Vm, command: Command, other: u64)
    requires
        vm.wf(),
        other < 64,
    ensures
        ({
            let step = next_step(vm, command, Seq::empty());
            match command {
                Command::WriteVmcs { field, width, value } => step == CommandStep::Call(
                    vm.vmcs_write(field, width, value),
                ),
                Command::UpdateVmcs { field, width, .. } => step == CommandStep::Call(
                    vm.vmcs_read(field, width),
                ),
                Command::WriteTdvps { field_id, value, mask } => {
                    &&& step matches CommandStep::Call(call)
                    &&& call.rax == 10 && call.rcx == 0 && call.rdx == field_id && call.r8 == value
                        && call.r9 == mask
                },
                Command::SetApicBase { base } => step == CommandStep::SetApicBase(base),
                Command::PassthroughMsr { msr } => match L2Vm::msr_bitmap_bit(msr) {
                    Some(bit) => step == CommandStep::Call(vm.clear_intercept(bit, 0)),
                    None => step == CommandStep::Failed(TdxError::MsrOutsideBitmap { msr }),
                },
                Command::Invept => {
                    &&& step matches CommandStep::Call(call)
                    &&& call.rax == 26 && call.rdx == 0 && call.r8 == 0 && call.r9 == 0
                    &&& (call.rcx >> other) & 1 == 1 <==> other == vm.vm_id
                },
            }
        }),
{
    lemma_updated_bits(0, 0, 0, vm.vm_id as u64, other);
}

/// What the reply to a command's first call leads to. A status other than success
/// fails the command, and is reported with what was accessed; an invalidation
/// has no status. After success an update writes back what it read with its bits
/// changed, an MSR goes on with its write intercept, and everything else is done.
pub proof fn law_first_replies(vm: L2Vm, command: Command, reply: TdcallArgs)
    ensures
        ({
            let step = next_step(vm, command, seq![reply]);
            let failed = reply.rax != 0;
            match command {
                Command::WriteVmcs { field, value, .. } => step == (if failed {
                    CommandStep::Failed(TdxError::WriteVmcs { field, value, status: reply.rax })
                } else {
                    CommandStep::Done
                }),
                Command::UpdateVmcs { field, width, clear, set } => step == (if failed {
                    CommandStep::Failed(TdxError::ReadVmcs { field, status: reply.rax })
                } else {
                    CommandStep::Call(
                        vm.vmcs_write(field, width, updated(reply.r8, clear, set)),
                    )
                }),
                Command::WriteTdvps { field_id, .. } => step == (if failed {
                    CommandStep::Failed(TdxError::WriteTdvps { field_id, status: reply.rax })
                } else {
                    CommandStep::Done
                }),
                Command::SetApicBase { .. } => step == CommandStep::Done,
                Command::PassthroughMsr { msr } => L2Vm::msr_bitmap_bit(msr) matches Some(bit) ==> {
                    step == (if failed {
                        CommandStep::Failed(
                            TdxError::ClearMsrIntercept { msr, status: reply.rax },
                        )
                    } else {
                        CommandStep::Call(vm.clear_intercept(bit, 256))
                    })
                },
                Command::Invept => step == CommandStep::Done,
            }
        }),
{
}

/// What the reply to a command's second call leads to: it is done, unless the
/// write back or the clearing of the write intercept failed, which is reported
/// with what was written.
pub proof fn law_second_replies(vm: L2Vm, command: Command, first: TdcallArgs, reply: TdcallArgs)
    requires
        first.rax == 0,
    ensures
        ({
            let step = next_step(vm, command, seq![first, reply]);
            let failed = reply.rax != 0;
            match command {
                Command::UpdateVmcs { field, clear, set, .. } => step == (if failed {
                    CommandStep::Failed(
                        TdxError::WriteVmcs {
                            field,
                            value: updated(first.r8, clear, set),
                            status: reply.rax,
                        },
                    )
                } else {
                    CommandStep::Done
                }),
                Command::PassthroughMsr { msr } => L2Vm::msr_bitmap_bit(msr) is Some ==> step == (
                if failed {
                    CommandStep::Failed(TdxError::ClearMsrIntercept { msr, status: reply.rax })
                } else {
                    CommandStep::Done
                }),
                _ => step == CommandStep::Done,
            }
        }),
{
}

} // verus!
