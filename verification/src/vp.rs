//! Running an L2 processor.
//!
//! Three rules of the run loop were expensive to learn:
//!
//! **Not every `TDG.VP.ENTER` return is an exit.** A host-routed return means
//! the host saw the exit first and resumed the L1. The exit information is then
//! in the L2 VMCS rather than in the entry's return registers. A
//! pending-interrupt return means no entry happened at all. Advancing RIP on
//! either skips a guest instruction, and the guest fails much later somewhere
//! else.
//!
//! **The guest's APIC reads never exit.** The TDX module forces APIC
//! virtualization on for an L2, so hardware serves reads from the virtual-APIC
//! page. Anything the guest should see has to be written into that page before
//! entry, and interrupts are delivered by setting IRR and raising RVI rather
//! than through the VM-entry interruption field.
//!
//! **State with no VMCS field is swapped by the kernel driver**, not here.
use crate::apic_page;
use crate::control::CrAction;
use crate::driver::TdMemory;
use crate::driver::TdcallArgs;
use crate::error::ServiceError;
use crate::error::TdpError;
use crate::error::TdxError;
use crate::msr::MsrAction;
use crate::paging::FetchSource;
use crate::partition::TdpMemory;
use crate::regs::Gp;
use crate::regs::L2GprContext;
use crate::tdx::L2Vm;
use crate::tdx::VpEnterResult;
use crate::tdx::Width;
use crate::timer::ApicTimer;
use crate::timer::TimerState;
use crate::vmcs::field;
use crate::vmcs::Command;
use crate::vmcs::SegmentFields;
use crate::vmcs::SegmentName;
use crate::vmcs::VmcsRead;
use crate::vp_state::Activity;
use crate::vp_state::MpState;
use crate::vp_state::Registers;
use crate::vp_state::SegmentRegister;
use vstd::prelude::*;

verus! {

/// VMX basic exit reasons this backend acts on.
pub const EXIT_EXCEPTION_NMI: u16 = 0;

pub const EXIT_EXTERNAL_INTERRUPT: u16 = 1;

pub const EXIT_TRIPLE_FAULT: u16 = 2;

pub const EXIT_INTERRUPT_WINDOW: u16 = 7;

pub const EXIT_CPUID: u16 = 10;

pub const EXIT_HLT: u16 = 12;

pub const EXIT_CR_ACCESS: u16 = 28;

pub const EXIT_IO_INSTRUCTION: u16 = 30;

pub const EXIT_MSR_READ: u16 = 31;

pub const EXIT_MSR_WRITE: u16 = 32;

pub const EXIT_VIRTUALIZED_EOI: u16 = 45;

pub const EXIT_EPT_VIOLATION: u16 = 48;

pub const EXIT_WBINVD: u16 = 54;

pub const EXIT_XSETBV: u16 = 55;

pub const EXIT_APIC_WRITE: u16 = 56;

/// The bit of the exception bitmap that traps NMIs.
pub const NMI_TRAP: u32 = 4;

/// The size of the pages a processor shares with the TDX module.
pub const VP_PAGE: usize = 0x1000;

/// Guest state for the instruction emulator, refreshed when an exit needs it
/// because each field costs a TDCALL.
pub struct CachedState {
    /// ES, CS, SS, DS, FS and GS.
    pub segments: [SegmentRegister; 6],
    pub efer: u64,
    pub cr0: u64,
    pub cr3: u64,
}

/// Cached guest state as plain values.
#[verifier::ext_equal]
pub struct CachedView {
    pub segments: Seq<SegmentRegister>,
    pub efer: u64,
    pub cr0: u64,
    pub cr3: u64,
}

impl View for CachedState {
    type V = CachedView;

    open spec fn view(&self) -> CachedView {
        CachedView {
            segments: self.segments@,
            efer: self.efer,
            cr0: self.cr0,
            cr3: self.cr3,
        }
    }
}

/// A segment register before anything was read.
pub open spec fn no_segment() -> SegmentRegister {
    SegmentRegister { base: 0, limit: 0, attributes: 0, selector: 0 }
}

impl Default for CachedState {
    /// A placeholder before the first exit refreshes it.
    fn default() -> (r: Self)
        ensures
            r@ == (CachedView {
                segments: Seq::new(6, |i: int| no_segment()),
                efer: 0,
                cr0: 0,
                cr3: 0,
            }),
    {
        let none: SegmentRegister = SegmentRegister {
            base: 0,
            limit: 0,
            attributes: 0,
            selector: 0,
        };
        let segments: [SegmentRegister; 6] = [none, none, none, none, none, none];
        assert(segments@ =~= Seq::new(6, |i: int| no_segment()));
        CachedState { segments, efer: 0, cr0: 0, cr3: 0 }
    }
}

/// An exception that the instruction emulator asked for, because the guest's
/// own access would have faulted.
#[derive(Debug, Clone, Copy, PartialEq, Eq, Structural)]
pub struct EmulatorEvent {
    pub vector: u8,
    pub error_code: Option<u32>,
}

impl EmulatorEvent {
    /// The event as the VM-entry event field holds it: valid, hardware
    /// exception, with an error code if there is one.
    pub open spec fn spec_entry_info(self) -> u64 {
        (0x8000_0300 + self.vector + if self.error_code is Some {
            0x800int
        } else {
            0
        }) as u64
    }

    /// The program that queues the event for the next entry.
    pub open spec fn commands(self) -> Seq<Command> {
        seq![crate::vmcs::w32(field::ENTRY_INTR_INFO, self.spec_entry_info())] + match self.error_code {
            Some(code) => seq![crate::vmcs::w32(field::ENTRY_EXCEPTION_EC, code as u64)],
            None => Seq::empty(),
        }
    }

    /// The event as the VM-entry event field holds it.
    pub fn entry_info(&self) -> (r: u64)
        ensures
            r == self.spec_entry_info(),
    {
        let has_code: u64 = if self.error_code.is_some() {
            0x800
        } else {
            0
        };
        0x8000_0300 + self.vector as u64 + has_code
    }
}

/// One L2 processor.
///
/// An L2 vCPU lives in the TDVPS of the L1 vCPU that enters it, so this is
/// pinned to a thread and must not migrate.
pub struct TdpProcessor<'a> {
    pub vm: L2Vm,
    pub vp_index: u32,
    pub vp_count: u32,
    /// The register image the module loads on entry and writes back on exit.
    pub context: TdMemory<'a>,
    pub cached: CachedState,
    pub regs: L2GprContext,
    /// Instruction bytes fetched for the emulator.
    pub instruction: Vec<u8>,
    /// An event has been written into the entry field and not yet delivered.
    pub injection_pending: bool,
    /// An event was delivered by the last entry, so the field it was written
    /// into has to be cleared before the next one. The field is not
    /// self-clearing: left set, it injects the same event on every entry.
    /// Cleared too early, before the entry that carries it, the event is never
    /// delivered at all.
    pub injection_armed: bool,
    /// An NMI accepted by the APIC model but not yet published through the
    /// VM-entry event field.
    pub nmi_pending: bool,
    /// An NMI was written into the VM-entry event field. While this is set, the
    /// NMI trap is disabled for exactly one real entry.
    pub nmi_injection_pending: bool,
    /// Exception bitmap programmed for normal entries. Bit 2 is always set to
    /// contain external NMIs that TD Partitioning occasionally leaks to L2.
    pub exception_bitmap: u32,
    /// The last exit reason, and how many times it has repeated.
    pub last_reason: u16,
    pub same_reason: u64,
    /// Vectors the guest has finished with, waiting to be reported to the
    /// chipset.
    pub pending_eois: Vec<u8>,
    /// The guest physical address of the access being emulated.
    pub fault_gpa: Option<u64>,
    /// The exit being serviced interrupted the delivery of an event, so the
    /// faulting access came from the delivery itself, not from an instruction
    /// that can be emulated.
    pub exit_during_delivery: bool,
    /// An exception the emulator asked for, to be injected on the next entry.
    pub pending_event: Option<EmulatorEvent>,
    /// The virtual-APIC page.
    pub apic_page: TdMemory<'a>,
    /// Whether the L2's controls have been programmed.
    pub initialized: bool,
    /// How many exceptions have been reported.
    pub exceptions: u64,
    pub apic_timer: ApicTimer,
    pub mp_state: MpState,
}

/// A processor as plain values.
#[verifier::ext_equal]
pub struct VpView {
    pub vm: L2Vm,
    pub vp_index: u32,
    pub vp_count: u32,
    pub context: Seq<u8>,
    pub context_gpa: u64,
    pub cached: CachedView,
    pub regs: L2GprContext,
    pub instruction: Seq<u8>,
    pub injection_pending: bool,
    pub injection_armed: bool,
    pub nmi_pending: bool,
    pub nmi_injection_pending: bool,
    pub exception_bitmap: u32,
    pub last_reason: u16,
    pub same_reason: u64,
    pub pending_eois: Seq<u8>,
    pub fault_gpa: Option<u64>,
    pub exit_during_delivery: bool,
    pub pending_event: Option<EmulatorEvent>,
    pub apic_page: Seq<u8>,
    pub apic_gpa: u64,
    pub initialized: bool,
    pub exceptions: u64,
    pub apic_timer: TimerState,
    pub mp_state: MpState,
}

impl<'a> View for TdpProcessor<'a> {
    type V = VpView;

    open spec fn view(&self) -> VpView {
        VpView {
            vm: self.vm,
            vp_index: self.vp_index,
            vp_count: self.vp_count,
            context: self.context.bytes(),
            context_gpa: self.context.base(),
            cached: self.cached@,
            regs: self.regs,
            instruction: self.instruction@,
            injection_pending: self.injection_pending,
            injection_armed: self.injection_armed,
            nmi_pending: self.nmi_pending,
            nmi_injection_pending: self.nmi_injection_pending,
            exception_bitmap: self.exception_bitmap,
            last_reason: self.last_reason,
            same_reason: self.same_reason,
            pending_eois: self.pending_eois@,
            fault_gpa: self.fault_gpa,
            exit_during_delivery: self.exit_during_delivery,
            pending_event: self.pending_event,
            apic_page: self.apic_page.bytes(),
            apic_gpa: self.apic_page.base(),
            initialized: self.initialized,
            exceptions: self.exceptions,
            apic_timer: self.apic_timer.state(),
            mp_state: self.mp_state,
        }
    }
}

impl VpView {
    /// The VM is an L2, the processor is one of its own, the shared pages are
    /// pages, and NMIs are always trapped.
    pub open spec fn wf(self) -> bool {
        &&& self.vm.wf()
        &&& self.vp_index < self.vp_count
        &&& self.context.len() == VP_PAGE
        &&& self.apic_page.len() == VP_PAGE
        &&& self.exception_bitmap & NMI_TRAP != 0
    }

    /// The processor with its register image published for the next entry.
    pub open spec fn flushed(self) -> VpView {
        VpView { context: crate::regs::with_context(self.context, self.regs), ..self }
    }

    /// The processor with another interrupt status. Only that field changes:
    /// the register image belongs to the guest between exits, and writing back
    /// a copy taken at the last serviced exit would throw away everything it
    /// has done since.
    pub open spec fn with_status(self, status: u16) -> VpView {
        VpView {
            context: crate::regs::with_context(
                self.context,
                L2GprContext {
                    interrupt_status: status,
                    ..crate::regs::context_at(self.context)
                },
            ),
            regs: L2GprContext { interrupt_status: status, ..self.regs },
            ..self
        }
    }

    /// The processor after the instruction at RIP retired.
    pub open spec fn retired(self, instruction_length: u32) -> VpView {
        VpView {
            regs: L2GprContext {
                rip: (self.regs.rip + instruction_length) as u64,
                ..self.regs
            },
            ..self
        }
    }
}

/// A fresh processor: nothing pending, nothing programmed. The bootstrap
/// processor runs, the others wait for a startup IPI.
pub open spec fn fresh(
    vm: L2Vm,
    vp_index: u32,
    vp_count: u32,
    is_bsp: bool,
    context: (Seq<u8>, u64),
    apic_page: (Seq<u8>, u64),
) -> VpView {
    VpView {
        vm,
        vp_index,
        vp_count,
        context: context.0,
        context_gpa: context.1,
        cached: CachedView {
            segments: Seq::new(6, |i: int| no_segment()),
            efer: 0,
            cr0: 0,
            cr3: 0,
        },
        regs: L2GprContext::zeroed(),
        instruction: Seq::empty(),
        injection_pending: false,
        injection_armed: false,
        nmi_pending: false,
        nmi_injection_pending: false,
        exception_bitmap: NMI_TRAP,
        last_reason: 0xffff,
        same_reason: 0,
        pending_eois: Seq::empty(),
        fault_gpa: None,
        exit_during_delivery: false,
        pending_event: None,
        apic_page: apic_page.0,
        apic_gpa: apic_page.1,
        initialized: false,
        exceptions: 0,
        apic_timer: TimerState {
            armed: None,
            initial_count: 0,
            divide: 0,
            periodic: false,
            vector: 0,
        },
        mp_state: if is_bsp {
            MpState::Running
        } else {
            MpState::WaitForSipi
        },
    }
}

/// What has to be programmed before the first entry, in this order.
#[derive(Debug, Clone, Copy, PartialEq, Eq, Structural)]
pub enum InitPhase {
    /// Turn off the optional features that are not offered.
    Features,
    /// Give the virtual-APIC page its power-on values and put it to use.
    Apic,
    /// Choose the exceptions that exit, and program the rest.
    Guest,
}

/// The program of a phase of initialization.
pub open spec fn init_commands(vp: VpView, exceptions: u32, phase: InitPhase) -> Seq<Command> {
    match phase {
        InitPhase::Features => seq![crate::vmcs::features_off(vp.vm)],
        InitPhase::Apic => crate::vmcs::apic_commands(vp.apic_gpa),
        InitPhase::Guest => crate::vmcs::guest_commands(exceptions | NMI_TRAP),
    }
}

/// The processor once a phase of initialization has begun.
pub open spec fn init_begun(vp: VpView, exceptions: u32, phase: InitPhase) -> VpView {
    match phase {
        InitPhase::Features => vp,
        InitPhase::Apic => VpView { apic_page: apic_page::powered_on(vp.apic_page), ..vp },
        InitPhase::Guest => VpView { exception_bitmap: exceptions | NMI_TRAP, ..vp },
    }
}

/// The event-injection command that takes a delivered event back.
pub open spec fn clear_event() -> Command {
    crate::vmcs::w32(field::ENTRY_INTR_INFO, 0)
}

/// The command that programs which exceptions exit.
pub open spec fn program_bitmap(bitmap: u32) -> Command {
    crate::vmcs::w32(field::EXCEPTION_BITMAP, bitmap as u64)
}

/// What has to be written before an entry. An event that the last entry
/// delivered is taken back, unless a new one has been written over it; and an
/// NMI that the APIC model queued gets one entry with the NMI trap removed.
pub open spec fn before_entry(vp: VpView) -> Seq<Command> {
    (if vp.injection_armed && !vp.injection_pending {
        seq![clear_event()]
    } else {
        Seq::empty()
    }) + (if vp.nmi_injection_pending {
        seq![program_bitmap(vp.exception_bitmap & !NMI_TRAP)]
    } else {
        Seq::empty()
    })
}

/// The processor once an entry was prepared.
pub open spec fn entry_begun(vp: VpView) -> VpView {
    VpView { injection_armed: false, ..vp }
}

/// The processor after an entry returned. An event counts as delivered only if
/// the entry really happened: a kick may win before it, and the field then has
/// to remain armed for the next attempt.
pub open spec fn entry_finished(vp: VpView, result: VpEnterResult) -> VpView {
    if result is NoEntry {
        vp
    } else {
        VpView {
            injection_pending: false,
            injection_armed: vp.injection_armed || vp.injection_pending,
            nmi_injection_pending: false,
            ..vp
        }
    }
}

/// What has to be written after an entry: the NMI trap comes back once the
/// entry it was removed for has happened.
pub open spec fn after_entry(vp: VpView, result: VpEnterResult) -> Seq<Command> {
    if !(result is NoEntry) && vp.nmi_injection_pending {
        seq![program_bitmap(vp.exception_bitmap)]
    } else {
        Seq::empty()
    }
}

/// What one entry produced, once the return classes have been sorted out.
#[derive(Debug, Clone, Copy, PartialEq, Eq, Structural)]
pub enum Exit {
    /// The guest exited and the L1 has to service it.
    Serviced { reason: u16, qualification: u64, instruction_length: u32 },
    /// Nothing retired; enter again without touching guest state.
    Resume,
}

/// What an entry's result calls for.
#[derive(Debug, Clone, Copy, PartialEq, Eq, Structural)]
pub enum EntryExit {
    /// The exit is known.
    Known(Exit),
    /// The host took the exit. Read the qualification and the instruction
    /// length out of the VMCS and go on with [`host_routed_exit`].
    ReadExit { reason: u16 },
    /// The entry failed. Read the VM-instruction error and go on with
    /// [`entry_error`].
    ReadError { status: u64 },
}

/// What an entry's result calls for.
pub open spec fn sorted_exit(result: VpEnterResult) -> EntryExit {
    match result {
        VpEnterResult::NoEntry => EntryExit::Known(Exit::Resume),
        VpEnterResult::HostRouted { reason } => if reason == EXIT_EXTERNAL_INTERRUPT {
            EntryExit::Known(Exit::Resume)
        } else {
            EntryExit::ReadExit { reason }
        },
        VpEnterResult::Exit { reason, qualification, instruction_length } => EntryExit::Known(
            Exit::Serviced { reason, qualification, instruction_length },
        ),
        VpEnterResult::Error(status) => EntryExit::ReadError { status },
    }
}

/// Sort out an entry's result.
pub fn sort_exit(result: VpEnterResult) -> (r: EntryExit)
    ensures
        r == sorted_exit(result),
{
    match result {
        VpEnterResult::NoEntry => EntryExit::Known(Exit::Resume),
        VpEnterResult::HostRouted { reason } => {
            if reason == EXIT_EXTERNAL_INTERRUPT {
                EntryExit::Known(Exit::Resume)
            } else {
                EntryExit::ReadExit { reason }
            }
        },
        VpEnterResult::Exit { reason, qualification, instruction_length } => EntryExit::Known(
            Exit::Serviced { reason, qualification, instruction_length },
        ),
        VpEnterResult::Error(status) => EntryExit::ReadError { status },
    }
}

/// The VMCS fields that describe an exit the host took.
pub fn exit_reads() -> (r: [VmcsRead; 2])
    ensures
        r@ == seq![
            VmcsRead { field: field::EXIT_QUALIFICATION, width: Width::Bits64 },
            VmcsRead { field: field::EXIT_INSTRUCTION_LEN, width: Width::Bits32 },
        ],
{
    let reads: [VmcsRead; 2] = [
        VmcsRead { field: field::EXIT_QUALIFICATION, width: Width::Bits64 },
        VmcsRead { field: field::EXIT_INSTRUCTION_LEN, width: Width::Bits32 },
    ];
    assert(reads@ =~= seq![
        VmcsRead { field: field::EXIT_QUALIFICATION, width: Width::Bits64 },
        VmcsRead { field: field::EXIT_INSTRUCTION_LEN, width: Width::Bits32 },
    ]);
    reads
}

/// The exit that the host took and did not service, out of the values of
/// [`exit_reads`].
pub fn host_routed_exit(reason: u16, qualification: u64, length: u64) -> (r: Exit)
    ensures
        r == (Exit::Serviced {
            reason,
            qualification,
            instruction_length: (length % 0x1_0000_0000) as u32,
        }),
{
    Exit::Serviced { reason, qualification, instruction_length: (length % 0x1_0000_0000) as u32 }
}

/// Why an entry failed, given the VM-instruction error if it could be read.
pub fn entry_error(status: u64, instruction_error: Option<u64>) -> (r: TdxError)
    ensures
        r == (TdxError::Enter {
            status,
            instruction_error: match instruction_error {
                Some(error) => error,
                None => 0,
            },
        }),
{
    let instruction_error: u64 = match instruction_error {
        Some(error) => error,
        None => 0,
    };
    TdxError::Enter { status, instruction_error }
}

proof fn lemma_nmi_trap(bitmap: u32)
    by (bit_vector)
    ensures
        (bitmap | 4) & 4 != 0,
        4u32 & 4 != 0,
        (bitmap & !4u32) & 4 == 0,
        (bitmap & !4u32) | 4 == bitmap | 4,
        bitmap & 4 != 0 ==> bitmap | 4 == bitmap,
{
}

impl<'a> TdpProcessor<'a> {
    /// A processor bound to the calling thread, with the two pages the driver
    /// allocated for it.
    pub fn new(
        vm: L2Vm,
        vp_index: u32,
        vp_count: u32,
        is_bsp: bool,
        context: TdMemory<'a>,
        apic_page: TdMemory<'a>,
    ) -> (r: Self)
        requires
            vm.wf(),
            vp_index < vp_count,
            context.bytes().len() == VP_PAGE,
            apic_page.bytes().len() == VP_PAGE,
        ensures
            r@.wf(),
            r@ == fresh(
                vm,
                vp_index,
                vp_count,
                is_bsp,
                (context.bytes(), context.base()),
                (apic_page.bytes(), apic_page.base()),
            ),
    {
        proof {
            lemma_nmi_trap(0);
        }
        TdpProcessor {
            vm,
            vp_index,
            vp_count,
            context,
            cached: CachedState::default(),
            regs: L2GprContext::default(),
            instruction: Vec::new(),
            injection_pending: false,
            injection_armed: false,
            nmi_pending: false,
            nmi_injection_pending: false,
            exception_bitmap: NMI_TRAP,
            last_reason: 0xffff,
            same_reason: 0,
            pending_eois: Vec::new(),
            fault_gpa: None,
            exit_during_delivery: false,
            pending_event: None,
            apic_page,
            initialized: false,
            exceptions: 0,
            apic_timer: ApicTimer::default(),
            mp_state: if is_bsp {
                MpState::Running
            } else {
                MpState::WaitForSipi
            },
        }
    }

    /// Publish the register image the next entry will load.
    pub fn flush_registers(&mut self)
        requires
            old(self)@.wf(),
        ensures
            final(self)@ == old(self)@.flushed(),
            final(self)@.wf(),
    {
        let regs: L2GprContext = self.regs;
        crate::regs::write_context(self.context.as_mut_slice(), &regs);
    }

    /// The register image as the last exit left it.
    pub fn read_context(&self) -> (r: L2GprContext)
        requires
            self@.wf(),
        ensures
            r == crate::regs::context_at(self@.context),
    {
        crate::regs::read_context(self.context.as_slice())
    }

    /// Take over the register image that the last exit left.
    pub fn load_registers(&mut self)
        requires
            old(self)@.wf(),
        ensures
            final(self)@ == (VpView {
                regs: crate::regs::context_at(old(self)@.context),
                ..old(self)@
            }),
            final(self)@.wf(),
    {
        self.regs = self.read_context();
    }

    fn set_status(&mut self, status: u16)
        requires
            old(self)@.wf(),
        ensures
            final(self)@ == old(self)@.with_status(status),
            final(self)@.wf(),
    {
        let mut regs: L2GprContext = self.read_context();
        regs.interrupt_status = status;
        crate::regs::write_context(self.context.as_mut_slice(), &regs);
        self.regs.interrupt_status = status;
    }

    /// One phase of programming the controls the L2 needs before its first entry,
    /// trapping the given exceptions as well as NMIs. The program of a phase is
    /// carried out before the next phase begins, and
    /// [`TdpProcessor::initialization_done`] is called after the last.
    pub fn initialize(&mut self, exceptions: u32, phase: InitPhase) -> (r: Vec<Command>)
        requires
            old(self)@.wf(),
        ensures
            r@ == init_commands(old(self)@, exceptions, phase),
            final(self)@ == init_begun(old(self)@, exceptions, phase),
            final(self)@.wf(),
    {
        match phase {
            InitPhase::Features => {
                let mut program: Vec<Command> = Vec::new();
                program.push(crate::vmcs::disable_optional_l2_features(&self.vm));
                assert(program@ =~= init_commands(old(self)@, exceptions, phase));
                program
            },
            InitPhase::Apic => {
                apic_page::initialize_apic_page(self.apic_page.as_mut_slice());
                crate::vmcs::apic_program(self.apic_page.gpa())
            },
            InitPhase::Guest => {
                proof {
                    lemma_nmi_trap(exceptions);
                }
                self.exception_bitmap = exceptions | NMI_TRAP;
                crate::vmcs::guest_program(self.exception_bitmap)
            },
        }
    }

    /// The controls are programmed.
    pub fn initialization_done(&mut self)
        ensures
            final(self)@ == (VpView { initialized: true, ..old(self)@ }),
    {
        self.initialized = true;
    }

    /// Prepare an entry: what has to be written before it, and the call that
    /// makes it.
    pub fn begin_entry(&mut self) -> (r: (Vec<Command>, TdcallArgs))
        ensures
            r.0@ == before_entry(old(self)@),
            r.1 == TdcallArgs::leaf(
                crate::tdx::LEAF_VP_ENTER,
                (old(self)@.vm.vm_id as u64) << 52,
                old(self)@.context_gpa,
                0,
                0,
            ),
            final(self)@ == entry_begun(old(self)@),
    {
        let mut writes: Vec<Command> = Vec::new();
        let clear: bool = self.injection_armed;
        self.injection_armed = false;
        if clear && !self.injection_pending {
            crate::vmcs::push32(&mut writes, field::ENTRY_INTR_INFO, 0);
        }
        // Trap unexplained external NMIs. An NMI deliberately queued by the
        // APIC model gets one entry with the trap removed so the guest can
        // consume it normally.
        if self.nmi_injection_pending {
            let bitmap: u32 = self.exception_bitmap & !NMI_TRAP;
            crate::vmcs::push32(&mut writes, field::EXCEPTION_BITMAP, bitmap as u64);
        }
        assert(writes@ =~= before_entry(old(self)@));
        (writes, self.vm.enter(self.context.gpa()))
    }

    /// Account for an entry that returned: what has to be written after it, and
    /// what its result calls for.
    pub fn finish_entry(&mut self, result: VpEnterResult) -> (r: (Vec<Command>, EntryExit))
        ensures
            r.0@ == after_entry(old(self)@, result),
            r.1 == sorted_exit(result),
            final(self)@ == entry_finished(old(self)@, result),
    {
        let mut writes: Vec<Command> = Vec::new();
        let entered: bool = match result {
            VpEnterResult::NoEntry => false,
            _ => true,
        };
        if entered {
            if self.injection_pending {
                self.injection_pending = false;
                self.injection_armed = true;
            }
            if self.nmi_injection_pending {
                self.nmi_injection_pending = false;
                crate::vmcs::push32(
                    &mut writes,
                    field::EXCEPTION_BITMAP,
                    self.exception_bitmap as u64,
                );
            }
        }
        assert(writes@ =~= after_entry(old(self)@, result));
        (writes, sort_exit(result))
    }
}

/// The phases of initialization make up the program a processor runs before its
/// first entry, with its APIC page powered on and the chosen exceptions trapped;
/// and the phase that may find the features refused changes nothing.
pub proof fn law_initialization_phases_make_up_the_program(vp: VpView, exceptions: u32)
    ensures
        ({
            let features = init_begun(vp, exceptions, InitPhase::Features);
            let apic = init_begun(features, exceptions, InitPhase::Apic);
            let guest = init_begun(apic, exceptions, InitPhase::Guest);
            &&& features == vp
            &&& guest == (VpView {
                apic_page: apic_page::powered_on(vp.apic_page),
                exception_bitmap: exceptions | NMI_TRAP,
                ..vp
            })
            &&& init_commands(vp, exceptions, InitPhase::Features) + init_commands(
                features,
                exceptions,
                InitPhase::Apic,
            ) + init_commands(apic, exceptions, InitPhase::Guest)
                == crate::vmcs::initialize_commands(vp.vm, vp.apic_gpa, exceptions | NMI_TRAP)
        }),
{
}

/// An attempt that did not enter loses nothing: the queued event and the queued
/// NMI are there for the next attempt, and nothing is written on their account.
pub proof fn law_no_entry_keeps_events(vp: VpView)
    ensures
        entry_finished(vp, VpEnterResult::NoEntry) == vp,
        after_entry(vp, VpEnterResult::NoEntry) == Seq::<Command>::empty(),
{
}

/// An injected event is taken back after exactly the entry that delivered it:
/// not before that entry, before the next one unless a new event was queued,
/// and not a second time.
pub proof fn law_event_is_delivered_once(vp: VpView, result: VpEnterResult, next: VpEnterResult)
    requires
        vp.injection_pending,
        !(result is NoEntry),
    ensures
        !before_entry(vp).contains(clear_event()),
        ({
            let delivered = entry_finished(entry_begun(vp), result);
            &&& delivered.injection_armed && !delivered.injection_pending
            &&& before_entry(delivered).contains(clear_event())
            &&& !before_entry(VpView { injection_pending: true, ..delivered }).contains(clear_event())
            &&& !before_entry(entry_finished(entry_begun(delivered), next)).contains(clear_event())
        }),
{
    let delivered = entry_finished(entry_begun(vp), result);
    assert(before_entry(delivered)[0] == clear_event());
}

/// An NMI of the APIC model has the NMI trap out of its way for exactly one
/// real entry: the trap is removed before the entry, stays removed while no
/// entry happens, and is back before the entry after that.
pub proof fn law_nmi_trap_is_removed_for_one_entry(vp: VpView, result: VpEnterResult)
    requires
        vp.wf(),
        vp.nmi_injection_pending,
        !(result is NoEntry),
    ensures
        before_entry(vp).last() == program_bitmap(vp.exception_bitmap & !NMI_TRAP),
        (vp.exception_bitmap & !NMI_TRAP) & NMI_TRAP == 0,
        entry_finished(entry_begun(vp), VpEnterResult::NoEntry).nmi_injection_pending,
        after_entry(entry_begun(vp), result) == seq![program_bitmap(vp.exception_bitmap)],
        vp.exception_bitmap & NMI_TRAP != 0,
        !entry_finished(entry_begun(vp), result).nmi_injection_pending,
{
    lemma_nmi_trap(vp.exception_bitmap);
}

/// Only an exit of the guest is serviced: an attempt that did not enter, and an
/// interrupt that the host took, change no guest state.
pub proof fn law_only_exits_are_serviced(result: VpEnterResult)
    ensures
        result is NoEntry ==> sorted_exit(result) == EntryExit::Known(Exit::Resume),
        result == (VpEnterResult::HostRouted { reason: EXIT_EXTERNAL_INTERRUPT }) ==> sorted_exit(
            result,
        ) == EntryExit::Known(Exit::Resume),
        sorted_exit(result) matches EntryExit::Known(Exit::Serviced { .. }) ==> result is Exit,
{
}

/// The requesting and servicing vectors that the interrupt registers of a page
/// call for.
pub open spec fn page_status(page: Seq<u8>) -> u16 {
    (apic_page::highest_or_zero(apic_page::words(page, apic_page::IRR as int)) + 0x100
        * apic_page::highest_or_zero(apic_page::words(page, apic_page::ISR as int))) as u16
}

/// The commands that select the vectors whose end-of-interrupt exits.
pub open spec fn eoi_exit_commands(bitmap: Seq<u64>) -> Seq<Command> {
    seq![
        crate::vmcs::w64(field::EOI_EXIT_BITMAP_0, bitmap[0]),
        crate::vmcs::w64(field::EOI_EXIT_BITMAP_1, bitmap[1]),
        crate::vmcs::w64(field::EOI_EXIT_BITMAP_2, bitmap[2]),
        crate::vmcs::w64(field::EOI_EXIT_BITMAP_3, bitmap[3]),
    ]
}

/// The 64-bit words of a 256-bit register.
pub open spec fn doubled(words: Seq<u32>) -> Seq<u64> {
    Seq::new(4, |i: int| (words[2 * i] as u64) | ((words[2 * i + 1] as u64) << 32))
}

/// The processor after the APIC model's vectors were put into the page.
pub open spec fn page_published(vp: VpView, irr: Seq<u32>, isr: Seq<u32>) -> VpView {
    VpView { apic_page: apic_page::pushed(vp.apic_page, irr, isr), ..vp }
}

/// The processor after the entry state was brought in line with the page.
pub open spec fn status_published(vp: VpView) -> VpView {
    vp.with_status(page_status(vp.apic_page))
}

/// The processor after the APIC model's state was published.
pub open spec fn published(vp: VpView, irr: Seq<u32>, isr: Seq<u32>) -> VpView {
    status_published(page_published(vp, irr, isr))
}

/// The entry state and the virtual-APIC page say different things.
#[derive(Debug, Clone, Copy, PartialEq, Eq, Structural)]
pub struct ApicDisagreement {
    pub rvi: u8,
    pub svi: u8,
    pub page_irr: u8,
    pub page_isr: u8,
    pub rvi_backed: bool,
    pub svi_backed: bool,
}

/// Whether a vector named in the entry state has its bit in the page. Zero
/// names no vector.
pub open spec fn backed(words: Seq<u32>, vector: u8) -> bool {
    vector == 0 || apic_page::has_vector(words, vector as int)
}

/// What the entry state and the page say, side by side.
pub open spec fn apic_comparison(vp: VpView) -> ApicDisagreement {
    let status = crate::regs::context_at(vp.context).interrupt_status;
    let irr = apic_page::words(vp.apic_page, apic_page::IRR as int);
    let isr = apic_page::words(vp.apic_page, apic_page::ISR as int);
    let rvi = (status % 0x100) as u8;
    let svi = (status / 0x100) as u8;
    ApicDisagreement {
        rvi,
        svi,
        page_irr: apic_page::highest_or_zero(irr),
        page_isr: apic_page::highest_or_zero(isr),
        rvi_backed: backed(irr, rvi),
        svi_backed: backed(isr, svi),
    }
}

/// Whether hardware is about to act on state that agrees with itself.
pub open spec fn apic_agrees(vp: VpView) -> bool {
    let c = apic_comparison(vp);
    c.rvi == c.page_irr && c.svi == c.page_isr && c.rvi_backed && c.svi_backed
}

fn is_backed(words: &[u32; 8], vector: u8) -> (r: bool)
    ensures
        r == backed(words@, vector),
{
    if vector == 0 {
        return true;
    }
    let word: u32 = words[vector as usize / 32];
    let index: u32 = (vector % 32) as u32;
    assert((vector as int % 32) as u32 == index);
    proof {
        crate::bits::lemma_bit_ops(word, 0, 0, index);
    }
    (word >> index) & 1 == 1
}

/// Work that the APIC model found.
#[derive(Debug, Clone, Copy, PartialEq, Eq, Structural)]
pub struct ApicWork {
    pub init: bool,
    pub sipi: Option<u8>,
    pub nmi: bool,
    pub extint: bool,
    pub interrupt: Option<u8>,
}

/// How far the APIC model's work has been dealt with.
#[derive(Debug, Clone, Copy, PartialEq, Eq, Structural)]
pub enum WorkPhase {
    Start,
    /// An INIT was carried out, if there was one.
    Initialized,
    /// A startup IPI was carried out, if there was one to act on.
    Started,
}

/// What the APIC model's work calls for next.
#[derive(Debug, Clone, Copy, PartialEq, Eq, Structural)]
pub enum WorkStep {
    /// Reset the processor, and come back.
    Init,
    /// Start the processor at the page the vector names, and come back.
    Startup { vector: u8 },
    /// Read the interruptibility state and go on with
    /// [`TdpProcessor::nmi_command`].
    ReadInterruptibility { unusable: bool },
    /// Nothing more. An event that cannot use the L2's offload path may be left
    /// over, which is worth a report.
    Done { unusable: bool },
}

/// What the APIC model's work calls for, and the processor then.
pub open spec fn work_step(vp: VpView, work: ApicWork, phase: WorkPhase) -> (WorkStep, VpView) {
    if phase is Start && work.init {
        (WorkStep::Init, vp)
    } else if !(phase is Started) && work.sipi is Some && vp.mp_state == MpState::WaitForSipi {
        (WorkStep::Startup { vector: work.sipi->0 }, vp)
    } else {
        let vp = VpView { nmi_pending: vp.nmi_pending || work.nmi, ..vp };
        let unusable = work.extint || work.interrupt is Some;
        if vp.nmi_pending && !vp.injection_pending {
            (WorkStep::ReadInterruptibility { unusable }, vp)
        } else {
            (WorkStep::Done { unusable }, vp)
        }
    }
}

/// Whether the guest's interruptibility state allows an NMI to be injected by
/// an entry: not while the previous NMI handler has yet to execute IRET, and,
/// for VM entry's own reasons, not while STI or MOV SS block interrupts.
pub open spec fn nmi_can_enter(interruptibility: u64) -> bool {
    interruptibility & 0xb == 0
}

/// Valid, NMI delivery type, architectural NMI vector 2.
pub const NMI_EVENT: u64 = 0x8000_0202;

/// Valid, hardware exception with an error code, vector 13.
pub const GP_EVENT: u64 = 0x8000_0b0d;

/// The program that queues a general-protection fault.
pub open spec fn gp_commands() -> Seq<Command> {
    seq![
        crate::vmcs::w32(field::ENTRY_INTR_INFO, GP_EVENT),
        crate::vmcs::w32(field::ENTRY_EXCEPTION_EC, 0),
    ]
}

/// Where a local APIC appears in memory.
pub const LAPIC_BASE: u64 = 0xfee0_0000;

/// Offset of the end-of-interrupt register in the APIC page.
pub const LAPIC_EOI: usize = 0x0b0;

/// The processor after a vector was requested by hand. Both halves are needed:
/// the request register is what hardware evaluates, and the requesting virtual
/// interrupt is what tells it to look.
pub open spec fn vector_requested(vp: VpView, vector: u8) -> VpView {
    let status = crate::regs::context_at(vp.context).interrupt_status;
    (VpView { apic_page: apic_page::requested(vp.apic_page, vector), ..vp }).with_status(
        (status / 0x100 * 0x100 + vector) as u16,
    )
}

/// The processor after an end-of-interrupt by hand.
pub open spec fn interrupt_retired(vp: VpView) -> VpView {
    if !apic_page::in_service(vp.apic_page) {
        vp
    } else {
        let isr = apic_page::words(vp.apic_page, apic_page::ISR as int);
        let page = apic_page::retired(vp.apic_page, apic_page::highest_or_zero(isr));
        let svi = apic_page::highest_or_zero(apic_page::words(page, apic_page::ISR as int));
        let status = crate::regs::context_at(vp.context).interrupt_status;
        (VpView { apic_page: page, ..vp }).with_status((status % 0x100 + 0x100 * svi) as u16)
    }
}

/// The processor after a write to the memory-mapped APIC was carried out by
/// hand at time `at`.
pub open spec fn lapic_written(
    vp: VpView,
    offset: int,
    data: Seq<u8>,
    at: std::time::Instant,
) -> VpView {
    if offset == LAPIC_EOI {
        interrupt_retired(vp)
    } else {
        VpView {
            apic_page: if offset + data.len() <= vp.apic_page.len() {
                crate::bytes::overwrite(vp.apic_page, offset, data)
            } else {
                vp.apic_page
            },
            apic_timer: if data.len() == 4 {
                crate::timer::after_write(
                    vp.apic_timer,
                    offset as usize,
                    crate::bytes::le32(data, 0),
                    at,
                )
            } else {
                vp.apic_timer
            },
            ..vp
        }
    }
}

impl<'a> TdpProcessor<'a> {
    /// Publish what the APIC model decided: the requested and in-service
    /// vectors go into the virtual-APIC page, which is all that hardware looks
    /// at. The program selects the level-triggered vectors, whose
    /// end-of-interrupt must reach the IOAPIC; once it has been carried out,
    /// [`TdpProcessor::publish_status`] brings the entry state in line.
    ///
    /// Hardware owns the requesting and servicing vectors while the guest runs,
    /// so this is only for when the model pushed something: rewriting them on
    /// every entry races the delivery they describe.
    pub fn publish_apic(&mut self, irr: &[u32; 8], isr: &[u32; 8], tmr: &[u32; 8]) -> (r: Vec<
        Command,
    >)
        requires
            old(self)@.wf(),
        ensures
            r@ == eoi_exit_commands(doubled(tmr@)),
            final(self)@ == page_published(old(self)@, irr@, isr@),
            final(self)@.wf(),
    {
        proof {
            apic_page::lemma_with_registers(
                self@.apic_page,
                apic_page::merged(
                    apic_page::words(self@.apic_page, apic_page::IRR as int),
                    irr@,
                ),
                apic_page::merged(
                    apic_page::words(self@.apic_page, apic_page::ISR as int),
                    isr@,
                ),
            );
        }
        apic_page::push_offload(self.apic_page.as_mut_slice(), irr, isr);
        let bitmap: [u64; 4] = apic_page::eoi_exit_bitmap(tmr);
        assert(bitmap@ =~= doubled(tmr@));
        let mut writes: Vec<Command> = Vec::new();
        crate::vmcs::push64(&mut writes, field::EOI_EXIT_BITMAP_0, bitmap[0]);
        crate::vmcs::push64(&mut writes, field::EOI_EXIT_BITMAP_1, bitmap[1]);
        crate::vmcs::push64(&mut writes, field::EOI_EXIT_BITMAP_2, bitmap[2]);
        crate::vmcs::push64(&mut writes, field::EOI_EXIT_BITMAP_3, bitmap[3]);
        assert(writes@ =~= eoi_exit_commands(doubled(tmr@)));
        writes
    }

    /// Name the highest requested and the highest in-service vector of the page
    /// in the entry state.
    pub fn publish_status(&mut self)
        requires
            old(self)@.wf(),
        ensures
            final(self)@ == status_published(old(self)@),
            final(self)@.wf(),
    {
        let (page_irr, page_isr): ([u32; 8], [u32; 8]) = apic_page::read_apic_registers(
            self.apic_page.as_slice(),
        );
        let status: u16 = apic_page::top(&page_irr) as u16 + 0x100 * (apic_page::top(&page_isr)
            as u16);
        self.set_status(status);
    }

    /// Give the APIC model its state back: the requested and in-service
    /// vectors, which then no longer are in the page.
    pub fn pull_apic(&mut self) -> (r: ([u32; 8], [u32; 8]))
        requires
            old(self)@.wf(),
        ensures
            r.0@ == apic_page::words(old(self)@.apic_page, apic_page::IRR as int),
            r.1@ == apic_page::words(old(self)@.apic_page, apic_page::ISR as int),
            final(self)@ == (VpView {
                apic_page: apic_page::pulled(old(self)@.apic_page),
                ..old(self)@
            }),
            final(self)@.wf(),
    {
        apic_page::pull_offload(self.apic_page.as_mut_slice())
    }

    /// Does the state hardware is about to act on agree with itself? It reads
    /// the requesting and servicing vectors out of the entry state and
    /// everything else out of the virtual-APIC page.
    pub fn check_apic(&self) -> (r: Option<ApicDisagreement>)
        requires
            self@.wf(),
        ensures
            r == (if apic_agrees(self@) {
                None
            } else {
                Some(apic_comparison(self@))
            }),
    {
        let (irr, isr): ([u32; 8], [u32; 8]) = apic_page::read_apic_registers(
            self.apic_page.as_slice(),
        );
        let status: u16 = self.read_context().interrupt_status;
        let rvi: u8 = (status % 0x100) as u8;
        let svi: u8 = (status / 0x100) as u8;
        let page_irr: u8 = apic_page::top(&irr);
        let page_isr: u8 = apic_page::top(&isr);
        let rvi_backed: bool = is_backed(&irr, rvi);
        let svi_backed: bool = is_backed(&isr, svi);
        if rvi != page_irr || svi != page_isr || !rvi_backed || !svi_backed {
            return Some(
                ApicDisagreement { rvi, svi, page_irr, page_isr, rvi_backed, svi_backed },
            );
        }
        None
    }

    /// Deal with the APIC model's work, one step at a time.
    pub fn handle_apic_work(&mut self, work: ApicWork, phase: WorkPhase) -> (r: WorkStep)
        ensures
            (r, final(self)@) == work_step(old(self)@, work, phase),
    {
        if let WorkPhase::Start = phase {
            if work.init {
                return WorkStep::Init;
            }
        }
        let started: bool = match phase {
            WorkPhase::Started => true,
            _ => false,
        };
        if !started {
            if let Some(vector) = work.sipi {
                if self.mp_state == MpState::WaitForSipi {
                    return WorkStep::Startup { vector };
                }
            }
        }
        self.nmi_pending = self.nmi_pending || work.nmi;
        let unusable: bool = work.extint || work.interrupt.is_some();
        if self.nmi_pending && !self.injection_pending {
            return WorkStep::ReadInterruptibility { unusable };
        }
        WorkStep::Done { unusable }
    }

    /// The command that publishes the pending NMI, unless the interruptibility
    /// state keeps it waiting. Unlike fixed interrupts, an NMI is not
    /// represented in the virtual-APIC page.
    pub fn nmi_command(interruptibility: u64) -> (r: Option<Command>)
        ensures
            r == (if nmi_can_enter(interruptibility) {
                Some(crate::vmcs::w32(field::ENTRY_INTR_INFO, NMI_EVENT))
            } else {
                None
            }),
    {
        if interruptibility & 0xb == 0 {
            return Some(
                Command::WriteVmcs {
                    field: field::ENTRY_INTR_INFO,
                    width: Width::Bits32,
                    value: NMI_EVENT,
                },
            );
        }
        None
    }

    /// The pending NMI was published.
    pub fn nmi_published(&mut self)
        ensures
            final(self)@ == (VpView {
                injection_pending: true,
                nmi_injection_pending: true,
                nmi_pending: false,
                ..old(self)@
            }),
    {
        self.injection_pending = true;
        self.nmi_injection_pending = true;
        self.nmi_pending = false;
    }

    /// A startup IPI was carried out.
    pub fn started(&mut self)
        ensures
            final(self)@ == (VpView { mp_state: MpState::Running, ..old(self)@ }),
    {
        self.mp_state = MpState::Running;
    }

    /// Make a vector pending in the guest, without the APIC model.
    pub fn request_interrupt(&mut self, vector: u8)
        requires
            old(self)@.wf(),
        ensures
            final(self)@ == vector_requested(old(self)@, vector),
            final(self)@.wf(),
    {
        apic_page::request_vector(self.apic_page.as_mut_slice(), vector);
        let status: u16 = self.read_context().interrupt_status;
        self.set_status(status / 0x100 * 0x100 + vector as u16);
    }

    /// Retire the interrupt currently in service, as an EOI does: the highest
    /// vector leaves service, and the servicing virtual interrupt is whatever
    /// is left.
    pub fn retire_in_service_interrupt(&mut self)
        requires
            old(self)@.wf(),
        ensures
            final(self)@ == interrupt_retired(old(self)@),
            final(self)@.wf(),
    {
        let svi: u8 = match apic_page::retire_highest(self.apic_page.as_mut_slice()) {
            Some(svi) => svi,
            None => return,
        };
        let status: u16 = self.read_context().interrupt_status;
        self.set_status(status % 0x100 + 0x100 * (svi as u16));
    }

    /// Read from the memory-mapped APIC by hand, out of the page. A read that
    /// the page does not cover leaves `data` alone.
    pub fn lapic_read(&self, address: u64, data: &mut [u8])
        requires
            self@.wf(),
            address >= LAPIC_BASE,
            address - LAPIC_BASE + old(data)@.len() <= usize::MAX,
        ensures
            final(data)@ == (if address - LAPIC_BASE + old(data)@.len() <= VP_PAGE {
                self@.apic_page.subrange(
                    address - LAPIC_BASE,
                    address - LAPIC_BASE + old(data)@.len(),
                )
            } else {
                old(data)@
            }),
    {
        let offset: usize = (address - LAPIC_BASE) as usize;
        let size: usize = data.len();
        let page: &[u8] = self.apic_page.as_slice();
        if offset + size <= page.len() {
            let mut i: usize = 0;
            while i < size
                invariant
                    i <= size,
                    data@.len() == size,
                    offset + size <= page@.len(),
                    page@.len() == VP_PAGE,
                    forall|k: int| 0 <= k < i ==> data@[k] == page@[offset + k],
                decreases size - i,
            {
                data[i] = page[offset + i];
                i = i + 1;
            }
            assert(data@ =~= page@.subrange(offset as int, offset + size));
        }
    }

    /// Write to the memory-mapped APIC by hand. Hardware would retire the
    /// interrupt in service itself if it were virtualizing these accesses;
    /// forgetting leaves the highest priority interrupt in service forever, and
    /// every later one is blocked on priority. When a timer is started by the
    /// write is the clock's to say.
    pub fn lapic_write(&mut self, address: u64, data: &[u8])
        requires
            old(self)@.wf(),
            address >= LAPIC_BASE,
            address - LAPIC_BASE + data@.len() <= usize::MAX,
        ensures
            exists|at: std::time::Instant|
                (data@.len() == 4 && address - LAPIC_BASE != LAPIC_EOI ==> crate::timer::clock_read(
                    at,
                )) && final(self)@ == #[trigger] lapic_written(
                    old(self)@,
                    address - LAPIC_BASE,
                    data@,
                    at,
                ),
            final(self)@.wf(),
    {
        let offset: usize = (address - LAPIC_BASE) as usize;
        let ghost mut at: std::time::Instant = arbitrary();
        if offset == LAPIC_EOI {
            self.retire_in_service_interrupt();
            assert(self@ == lapic_written(old(self)@, offset as int, data@, at));
            return;
        }
        if offset + data.len() <= self.apic_page.len() {
            crate::bytes::copy_into(self.apic_page.as_mut_slice(), offset, data);
        }
        if data.len() == 4 {
            let value: u32 = crate::bytes::read32(data, 0);
            let ghost timer = self.apic_timer.state();
            self.apic_timer.on_write(offset, value);
            proof {
                at = choose|at: std::time::Instant|
                    crate::timer::clock_read(at) && self.apic_timer.state() == #[trigger] crate::timer::after_write(
                        timer,
                        offset,
                        value,
                        at,
                    );
            }
        }
        assert(self@ == lapic_written(old(self)@, offset as int, data@, at));
    }

    /// Queue vectors the guest has finished with, to be reported to the
    /// chipset. A level-triggered line stays in service in the IOAPIC until it
    /// hears of them.
    pub fn queue_eois(&mut self, vectors: &Vec<u8>)
        ensures
            final(self)@ == (VpView {
                pending_eois: old(self)@.pending_eois + vectors@,
                ..old(self)@
            }),
    {
        let mut i: usize = 0;
        let ghost before = self@;
        assert(before.pending_eois + vectors@.subrange(0, 0) =~= before.pending_eois);
        while i < vectors.len()
            invariant
                i <= vectors@.len(),
                before == old(self)@,
                self@ == (VpView {
                    pending_eois: before.pending_eois + vectors@.subrange(0, i as int),
                    ..before
                }),
            decreases vectors@.len() - i,
        {
            self.pending_eois.push(vectors[i]);
            i = i + 1;
            assert(self@.pending_eois =~= before.pending_eois + vectors@.subrange(0, i as int));
        }
        assert(vectors@.subrange(0, vectors@.len() as int) =~= vectors@);
    }

    /// Take the vectors to report to the chipset.
    pub fn take_eois(&mut self) -> (r: Vec<u8>)
        ensures
            r@ == old(self)@.pending_eois,
            final(self)@ == (VpView { pending_eois: Seq::empty(), ..old(self)@ }),
    {
        let mut taken: Vec<u8> = Vec::new();
        std::mem::swap(&mut taken, &mut self.pending_eois);
        taken
    }
}

/// Changing the interrupt status changes nothing else that the guest left in
/// its register image.
pub proof fn law_status_changes_nothing_else(vp: VpView, status: u16)
    requires
        vp.wf(),
    ensures
        crate::regs::context_at(vp.with_status(status).context) == (L2GprContext {
            interrupt_status: status,
            ..crate::regs::context_at(vp.context)
        }),
        vp.with_status(status).wf(),
{
    crate::regs::law_context_reads_back(
        vp.context,
        L2GprContext { interrupt_status: status, ..crate::regs::context_at(vp.context) },
    );
}

/// A register holds its highest vector.
proof fn lemma_highest_is_backed(words: Seq<u32>)
    ensures
        backed(words, apic_page::highest_or_zero(words)),
{
    if exists|v: int| apic_page::is_highest(words, v) {
        let v = choose|v: int| apic_page::is_highest(words, v);
        assert(apic_page::is_highest(words, v));
    }
}

/// A status computed from a page agrees with the page.
proof fn lemma_status_agrees(vp: VpView)
    requires
        vp.wf(),
    ensures
        apic_agrees(vp.with_status(page_status(vp.apic_page))),
{
    let irr = apic_page::words(vp.apic_page, apic_page::IRR as int);
    let isr = apic_page::words(vp.apic_page, apic_page::ISR as int);
    let requesting = apic_page::highest_or_zero(irr);
    let servicing = apic_page::highest_or_zero(isr);
    let status = page_status(vp.apic_page);
    assert(status == requesting + 0x100 * servicing);
    law_status_changes_nothing_else(vp, status);
    assert((status % 0x100) as u8 == requesting);
    assert((status / 0x100) as u8 == servicing);
    assert(backed(irr, requesting)) by {
        lemma_highest_is_backed(irr);
    }
    assert(backed(isr, servicing)) by {
        lemma_highest_is_backed(isr);
    }
}

/// What was published agrees with itself: the entry state names the highest
/// requested and the highest in-service vector of the page, and both are there.
pub proof fn law_published_state_agrees(vp: VpView, irr: Seq<u32>, isr: Seq<u32>)
    requires
        vp.wf(),
    ensures
        apic_agrees(published(vp, irr, isr)),
{
    let page = apic_page::pushed(vp.apic_page, irr, isr);
    assert(page.len() == vp.apic_page.len());
    lemma_status_agrees(VpView { apic_page: page, ..vp });
}

/// An NMI that the APIC model asked for stays pending until it is published,
/// whatever else is queued or blocks it, and it is never published over an
/// event that is still to be delivered.
pub proof fn law_nmi_waits_for_its_turn(vp: VpView, work: ApicWork, phase: WorkPhase)
    ensures
        vp.nmi_pending ==> work_step(vp, work, phase).1.nmi_pending,
        work.nmi && (phase is Started || !(work.init || work.sipi is Some)) ==> work_step(
            vp,
            work,
            phase,
        ).1.nmi_pending,
        work_step(vp, work, phase).0 is ReadInterruptibility ==> !vp.injection_pending,
        work_step(vp, work, phase).1.injection_pending == vp.injection_pending,
{
}

/// Only a processor that waits for a startup IPI is started by one.
pub proof fn law_only_waiting_processors_start(vp: VpView, work: ApicWork, phase: WorkPhase)
    ensures
        work_step(vp, work, phase).0 is Startup ==> vp.mp_state == MpState::WaitForSipi,
        work_step(vp, work, phase).1.mp_state == vp.mp_state,
{
}

/// What an exit calls for.
#[derive(Debug, Clone, Copy, PartialEq, Eq, Structural)]
pub enum ServiceAction {
    /// Nothing more.
    Done,
    /// Read a port and go on with [`TdpProcessor::finish_port_read`].
    ReadPort { port: u16, size: usize },
    /// Write the low `size` bytes of `value` to a port and go on with
    /// [`TdpProcessor::retire`].
    WritePort { port: u16, size: usize, value: u32 },
    /// Sleep until the APIC's next deadline or until a device raises an
    /// interrupt.
    AwaitInterrupt,
    /// Read what the exception was and go on with
    /// [`TdpProcessor::take_exception`].
    ReadException,
    /// Tell the chipset that a vector was retired.
    HandleEoi { vector: u32 },
    /// Access an MSR and go on as the access calls for.
    Msr(MsrAction),
    /// Access a control register and go on with [`TdpProcessor::retire`] or
    /// [`TdpProcessor::finish_cr_read`].
    Cr(CrAction),
    /// Queue a general-protection fault and go on with
    /// [`TdpProcessor::injected`].
    InjectGp,
    /// Read what the memory fault was and go on with
    /// [`TdpProcessor::take_memory_fault`].
    ReadMemoryFault,
    /// The guest is gone.
    TripleFault,
    /// The exit cannot be serviced.
    Fatal(ServiceError),
}

/// How many bytes a port access moves, out of its exit qualification.
pub open spec fn port_size(qualification: u64) -> int {
    qualification % 8 + 1
}

/// Whether servicing an exit retires the instruction at once.
pub open spec fn retires_at_once(vp: VpView, reason: u16) -> bool {
    reason == EXIT_CPUID || reason == EXIT_HLT || reason == EXIT_XSETBV || reason == EXIT_WBINVD
        || (reason == EXIT_MSR_READ && crate::msr::msr_action(vp.regs, false) is Answer) || (reason
        == EXIT_MSR_WRITE && crate::msr::msr_action(vp.regs, true) is Accept)
}

/// The processor after CPUID was answered.
pub open spec fn cpuid_answered(vp: VpView, answer: Seq<u32>, instruction_length: u32) -> VpView {
    (VpView {
        regs: L2GprContext {
            rax: answer[0] as u64,
            rbx: answer[1] as u64,
            rcx: answer[2] as u64,
            rdx: answer[3] as u64,
            ..vp.regs
        },
        ..vp
    }).retired(instruction_length)
}

/// What an MSR exit calls for, and the processor then.
pub open spec fn msr_serviced(vp: VpView, is_write: bool, instruction_length: u32) -> (
    ServiceAction,
    VpView,
) {
    match crate::msr::msr_action(vp.regs, is_write) {
        MsrAction::Answer { value } => (
            ServiceAction::Done,
            (VpView { regs: crate::msr::with_msr_value(vp.regs, value), ..vp }).retired(
                instruction_length,
            ),
        ),
        MsrAction::Accept => (ServiceAction::Done, vp.retired(instruction_length)),
        MsrAction::Unknown => (ServiceAction::InjectGp, vp),
        action => (ServiceAction::Msr(action), vp),
    }
}

/// What a port access calls for: the port in bits 16 to 31 of the
/// qualification, the direction in bit 3, one less than the size in bits 0 to
/// 2.
pub open spec fn port_action(vp: VpView, qualification: u64) -> ServiceAction {
    let port = (qualification / 0x1_0000 % 0x1_0000) as u16;
    let size = port_size(qualification) as usize;
    if qualification / 8 % 2 == 1 {
        ServiceAction::ReadPort { port, size }
    } else {
        ServiceAction::WritePort { port, size, value: (vp.regs.rax % 0x1_0000_0000) as u32 }
    }
}

/// What an exit other than CPUID calls for, and the processor then.
pub open spec fn serviced(
    vp: VpView,
    reason: u16,
    qualification: u64,
    instruction_length: u32,
) -> (ServiceAction, VpView) {
    if reason == EXIT_IO_INSTRUCTION {
        (port_action(vp, qualification), vp)
    } else if reason == EXIT_HLT {
        (ServiceAction::AwaitInterrupt, vp.retired(instruction_length).flushed())
    } else if reason == EXIT_EXCEPTION_NMI {
        (ServiceAction::ReadException, vp)
    } else if reason == EXIT_EXTERNAL_INTERRUPT || reason == EXIT_INTERRUPT_WINDOW || reason
        == EXIT_APIC_WRITE {
        (ServiceAction::Done, vp)
    } else if reason == EXIT_VIRTUALIZED_EOI {
        (ServiceAction::HandleEoi { vector: (qualification % 0x100) as u32 }, vp)
    } else if reason == EXIT_MSR_READ {
        msr_serviced(vp, false, instruction_length)
    } else if reason == EXIT_MSR_WRITE {
        msr_serviced(vp, true, instruction_length)
    } else if reason == EXIT_CR_ACCESS {
        match crate::control::cr_action(vp.regs, qualification) {
            Ok(action) => (ServiceAction::Cr(action), vp),
            Err(err) => (ServiceAction::Fatal(err), vp),
        }
    } else if reason == EXIT_XSETBV || reason == EXIT_WBINVD {
        (ServiceAction::Done, vp.retired(instruction_length))
    } else if reason == EXIT_EPT_VIOLATION {
        (ServiceAction::ReadMemoryFault, vp)
    } else if reason == EXIT_TRIPLE_FAULT {
        (ServiceAction::TripleFault, vp)
    } else {
        (
            ServiceAction::Fatal(
                ServiceError::UnknownExit { reason, qualification, rip: vp.regs.rip },
            ),
            vp,
        )
    }
}

/// RAX after a port was read: the bytes that were read replace as many low
/// bytes.
pub open spec fn port_value(rax: u64, size: int, value: u32) -> u64 {
    if size == 1 {
        (rax / 0x100 * 0x100 + value % 0x100) as u64
    } else if size == 2 {
        (rax / 0x1_0000 * 0x1_0000 + value % 0x1_0000) as u64
    } else {
        (rax / 0x1_0000_0000 * 0x1_0000_0000 + value) as u64
    }
}

proof fn lemma_port_bits(qualification: u64, rax: u64, value: u64)
    by (bit_vector)
    requires
        value <= 0xffff_ffff,
    ensures
        qualification & 7 == qualification % 8,
        (qualification & 8 != 0) == (qualification / 8 % 2 == 1),
        (qualification >> 16) as u16 == qualification / 0x1_0000 % 0x1_0000,
        (rax & !0xffu64) | (value & 0xff) == rax / 0x100 * 0x100 + value % 0x100,
        (rax & !0xffffu64) | (value & 0xffff) == rax / 0x1_0000 * 0x1_0000 + value % 0x1_0000,
        (rax & !0xffff_ffffu64) | (value & 0xffff_ffff) == rax / 0x1_0000_0000 * 0x1_0000_0000
            + value,
{
}

/// What happened to the step after an APIC register was accessed.
#[derive(Debug, Clone, Copy, PartialEq, Eq, Structural)]
pub enum MsrOutcome {
    /// The instruction retired.
    Retired,
    /// Queue a general-protection fault and go on with
    /// [`TdpProcessor::injected`].
    InjectGp,
}

/// What a trapped exception calls for.
#[derive(Debug, Clone, Copy, PartialEq, Eq, Structural)]
pub enum ExceptionStep {
    /// An external NMI that escaped TD Partitioning's NMI-exiting control. It
    /// is contained instead of injecting unexplained host state into the
    /// tenant.
    Contained,
    /// Give the guest its exception back, with `info` and `code`, and go on with
    /// [`TdpProcessor::injected`]. The first one is worth a report, with a page
    /// walk if it is a page fault.
    Reflect { info: u64, code: u64, first: bool, walk: bool },
}

/// What a trapped exception calls for.
pub open spec fn exception_step(vp: VpView, info: u64, code: u64) -> ExceptionStep {
    if info % 0x100 == 2 {
        ExceptionStep::Contained
    } else {
        let first = vp.exceptions == 0;
        ExceptionStep::Reflect { info, code, first, walk: first && info % 0x100 == 14 }
    }
}

/// The program that gives an exception back to the guest.
pub open spec fn reflect_commands(info: u64, code: u64) -> Seq<Command> {
    seq![
        crate::vmcs::w32(field::ENTRY_INTR_INFO, info),
        crate::vmcs::w32(field::ENTRY_EXCEPTION_EC, code),
    ]
}

/// The program that queues what the emulator asked for.
pub open spec fn event_commands(vp: VpView) -> Seq<Command> {
    match vp.pending_event {
        Some(event) => event.commands(),
        None => Seq::empty(),
    }
}

/// The processor once what the emulator asked for was queued.
pub open spec fn event_taken(vp: VpView) -> VpView {
    VpView {
        pending_event: None,
        injection_pending: vp.injection_pending || vp.pending_event is Some,
        ..vp
    }
}

/// The segment registers that the emulator knows, in its order.
pub open spec fn emulator_segment(k: int) -> SegmentName {
    if k == 0 {
        SegmentName::Es
    } else if k == 1 {
        SegmentName::Cs
    } else if k == 2 {
        SegmentName::Ss
    } else if k == 3 {
        SegmentName::Ds
    } else if k == 4 {
        SegmentName::Fs
    } else {
        SegmentName::Gs
    }
}

fn emulator_segment_name(k: usize) -> (r: SegmentName)
    requires
        k < 6,
    ensures
        r == emulator_segment(k as int),
{
    match k {
        0 => SegmentName::Es,
        1 => SegmentName::Cs,
        2 => SegmentName::Ss,
        3 => SegmentName::Ds,
        4 => SegmentName::Fs,
        _ => SegmentName::Gs,
    }
}

/// The reads that fetch the first `n` segment registers for the emulator.
pub open spec fn emulator_reads(n: int) -> Seq<VmcsRead>
    decreases n,
{
    if n <= 0 {
        Seq::empty()
    } else {
        emulator_reads(n - 1) + crate::vp_state::segment_reads(emulator_segment(n - 1))
    }
}

/// How many reads refresh the cached state.
pub const CACHE_READS: usize = 27;

/// The reads that refresh the cached state: six segment registers, EFER, CR0
/// and CR3.
pub open spec fn cache_reads() -> Seq<VmcsRead> {
    emulator_reads(6) + seq![
        VmcsRead { field: field::GUEST_IA32_EFER, width: Width::Bits64 },
        VmcsRead { field: field::GUEST_CR0, width: Width::Bits64 },
        VmcsRead { field: field::GUEST_CR3, width: Width::Bits64 },
    ]
}

/// The cached state, out of the values of its reads.
pub open spec fn cache_from(values: Seq<u64>) -> CachedView {
    CachedView {
        segments: Seq::new(6, |k: int| crate::vp_state::segment_at(values, 4 * k)),
        efer: values[24],
        cr0: values[25],
        cr3: values[26],
    }
}

/// The linear address of the next instruction: RIP relative to the code
/// segment.
pub open spec fn linear_rip(vp: VpView) -> u64 {
    let sum = vp.cached.segments[1].base + vp.regs.rip;
    if sum <= u64::MAX {
        sum as u64
    } else {
        (sum - 0x1_0000_0000_0000_0000) as u64
    }
}

impl<'a> TdpProcessor<'a> {
    /// Whether servicing an exit will retire the instruction at once.
    pub fn will_retire(&self, reason: u16) -> (r: bool)
        ensures
            r == retires_at_once(self@, reason),
    {
        if reason == EXIT_CPUID || reason == EXIT_HLT || reason == EXIT_XSETBV || reason
            == EXIT_WBINVD {
            return true;
        }
        if reason == EXIT_MSR_READ {
            return match crate::msr::emulate_msr(&self.regs, false) {
                MsrAction::Answer { .. } => true,
                _ => false,
            };
        }
        if reason == EXIT_MSR_WRITE {
            return match crate::msr::emulate_msr(&self.regs, true) {
                MsrAction::Accept => true,
                _ => false,
            };
        }
        false
    }

    /// Move RIP behind the instruction.
    pub fn retire(&mut self, instruction_length: u32)
        requires
            old(self)@.regs.rip + instruction_length <= u64::MAX,
        ensures
            final(self)@ == old(self)@.retired(instruction_length),
    {
        self.regs.rip = self.regs.rip + instruction_length as u64;
    }

    /// Answer CPUID, given the answer.
    pub fn answer_cpuid(&mut self, answer: &[u32; 4], instruction_length: u32)
        requires
            old(self)@.regs.rip + instruction_length <= u64::MAX,
        ensures
            final(self)@ == cpuid_answered(old(self)@, answer@, instruction_length),
    {
        self.regs.rax = answer[0] as u64;
        self.regs.rbx = answer[1] as u64;
        self.regs.rcx = answer[2] as u64;
        self.regs.rdx = answer[3] as u64;
        self.retire(instruction_length);
    }

    fn service_msr(&mut self, is_write: bool, instruction_length: u32) -> (r: ServiceAction)
        requires
            ({
                let action = crate::msr::msr_action(old(self)@.regs, is_write);
                action is Answer || action is Accept ==> old(self)@.regs.rip + instruction_length
                    <= u64::MAX
            }),
        ensures
            (r, final(self)@) == msr_serviced(old(self)@, is_write, instruction_length),
    {
        let action: MsrAction = crate::msr::emulate_msr(&self.regs, is_write);
        match action {
            MsrAction::Answer { value } => {
                crate::msr::load_msr_value(&mut self.regs, value);
                self.retire(instruction_length);
                ServiceAction::Done
            },
            MsrAction::Accept => {
                self.retire(instruction_length);
                ServiceAction::Done
            },
            // An unknown MSR is a #GP, which a guest's safe accessors expect
            // and handle. RIP stays where it is.
            MsrAction::Unknown => ServiceAction::InjectGp,
            _ => ServiceAction::Msr(action),
        }
    }

    /// Service an exit: what it calls for next.
    ///
    /// What CPUID answers depends on the machine; every other exit is decided by
    /// the processor's state and the exit alone.
    pub fn service(&mut self, reason: u16, qualification: u64, instruction_length: u32) -> (r:
        ServiceAction)
        requires
            old(self)@.wf(),
            retires_at_once(old(self)@, reason) ==> old(self)@.regs.rip + instruction_length
                <= u64::MAX,
            reason == EXIT_IO_INSTRUCTION ==> port_size(qualification) <= 4,
        ensures
            reason == EXIT_CPUID ==> r is Done && exists|host: crate::cpuid::CpuidResult|
                crate::cpuid::host_answered(
                    (old(self)@.regs.rax % 0x1_0000_0000) as u32,
                    (old(self)@.regs.rcx % 0x1_0000_0000) as u32,
                    host,
                ) && final(self)@ == cpuid_answered(
                    old(self)@,
                    #[trigger] crate::cpuid::l2_view(
                        (old(self)@.regs.rax % 0x1_0000_0000) as u32,
                        (old(self)@.regs.rcx % 0x1_0000_0000) as u32,
                        old(self)@.vp_index,
                        old(self)@.vp_count,
                        host,
                    ),
                    instruction_length,
                ),
            reason != EXIT_CPUID ==> (r, final(self)@) == serviced(
                old(self)@,
                reason,
                qualification,
                instruction_length,
            ),
            final(self)@.wf(),
    {
        proof {
            lemma_port_bits(qualification, 0, 0);
            crate::bits::lemma_split_u64(qualification);
        }
        if reason == EXIT_CPUID {
            let answer: [u32; 4] = crate::cpuid::for_l2(
                (self.regs.rax % 0x1_0000_0000) as u32,
                (self.regs.rcx % 0x1_0000_0000) as u32,
                self.vp_index,
                self.vp_count,
            );
            self.answer_cpuid(&answer, instruction_length);
            ServiceAction::Done
        } else if reason == EXIT_IO_INSTRUCTION {
            let size: usize = ((qualification & 7) + 1) as usize;
            let port: u16 = (qualification >> 16) as u16;
            if qualification & 8 != 0 {
                ServiceAction::ReadPort { port, size }
            } else {
                ServiceAction::WritePort {
                    port,
                    size,
                    value: (self.regs.rax % 0x1_0000_0000) as u32,
                }
            }
        } else if reason == EXIT_HLT {
            // The instruction retires, and then this waits. Re-entering
            // immediately would be a busy loop at the speed of a TDCALL round
            // trip, on a pinned thread, starving the very device that would
            // produce the interrupt the guest is waiting for.
            self.retire(instruction_length);
            self.flush_registers();
            ServiceAction::AwaitInterrupt
        } else if reason == EXIT_EXCEPTION_NMI {
            ServiceAction::ReadException
        } else if reason == EXIT_EXTERNAL_INTERRUPT || reason == EXIT_INTERRUPT_WINDOW || reason
            == EXIT_APIC_WRITE {
            ServiceAction::Done
        } else if reason == EXIT_VIRTUALIZED_EOI {
            // Hardware has already retired the vector from the virtual APIC.
            // Complete the level-triggered handshake in the chipset; otherwise
            // the IOAPIC's remote-IRR bit stays set.
            ServiceAction::HandleEoi { vector: (qualification & 0xff) as u32 }
        } else if reason == EXIT_MSR_READ {
            self.service_msr(false, instruction_length)
        } else if reason == EXIT_MSR_WRITE {
            self.service_msr(true, instruction_length)
        } else if reason == EXIT_CR_ACCESS {
            match crate::control::emulate_cr_access(&self.regs, qualification) {
                Ok(action) => ServiceAction::Cr(action),
                Err(err) => ServiceAction::Fatal(err),
            }
        } else if reason == EXIT_XSETBV || reason == EXIT_WBINVD {
            // XCR0 for an L2 is the TDX module's business, and the caches are
            // coherent with the memory the L1 maps for this L2.
            self.retire(instruction_length);
            ServiceAction::Done
        } else if reason == EXIT_EPT_VIOLATION {
            ServiceAction::ReadMemoryFault
        } else if reason == EXIT_TRIPLE_FAULT {
            ServiceAction::TripleFault
        } else {
            ServiceAction::Fatal(
                ServiceError::UnknownExit { reason, qualification, rip: self.regs.rip },
            )
        }
    }

    /// A port was read: `value` holds the bytes, least significant first.
    pub fn finish_port_read(&mut self, size: usize, value: u32, instruction_length: u32)
        requires
            old(self)@.regs.rip + instruction_length <= u64::MAX,
        ensures
            final(self)@ == (VpView {
                regs: L2GprContext {
                    rax: port_value(old(self)@.regs.rax, size as int, value),
                    ..old(self)@.regs
                },
                ..old(self)@
            }).retired(instruction_length),
    {
        proof {
            lemma_port_bits(0, self.regs.rax, value as u64);
        }
        let mask: u64 = match size {
            1 => 0xff,
            2 => 0xffff,
            _ => 0xffff_ffff,
        };
        self.regs.rax = (self.regs.rax & !mask) | (value as u64 & mask);
        self.retire(instruction_length);
    }

    /// An MSR was read, or `None` if there is no APIC model to ask.
    pub fn finish_msr_read(&mut self, value: Option<u64>, instruction_length: u32) -> (r: MsrOutcome)
        requires
            value is Some ==> old(self)@.regs.rip + instruction_length <= u64::MAX,
        ensures
            match value {
                Some(value) => {
                    &&& r == MsrOutcome::Retired
                    &&& final(self)@ == (VpView {
                        regs: crate::msr::with_msr_value(old(self)@.regs, value),
                        ..old(self)@
                    }).retired(instruction_length)
                },
                None => r == MsrOutcome::InjectGp && final(self)@ == old(self)@,
            },
    {
        match value {
            Some(value) => {
                crate::msr::load_msr_value(&mut self.regs, value);
                self.retire(instruction_length);
                MsrOutcome::Retired
            },
            None => MsrOutcome::InjectGp,
        }
    }

    /// An MSR was written, unless there is no APIC model to write it.
    pub fn finish_msr_write(&mut self, written: bool, instruction_length: u32) -> (r: MsrOutcome)
        requires
            written ==> old(self)@.regs.rip + instruction_length <= u64::MAX,
        ensures
            written ==> r == MsrOutcome::Retired && final(self)@ == old(self)@.retired(
                instruction_length,
            ),
            !written ==> r == MsrOutcome::InjectGp && final(self)@ == old(self)@,
    {
        if written {
            self.retire(instruction_length);
            MsrOutcome::Retired
        } else {
            MsrOutcome::InjectGp
        }
    }

    /// A control register was read.
    pub fn finish_cr_read(&mut self, gp: Gp, value: u64, instruction_length: u32)
        requires
            old(self)@.regs.rip + instruction_length <= u64::MAX,
        ensures
            final(self)@ == (VpView {
                regs: old(self)@.regs.with_gp(gp, value),
                ..old(self)@
            }).retired(instruction_length),
    {
        self.regs.set_gp(gp, value);
        self.retire(instruction_length);
    }

    /// The program that queues a general-protection fault.
    pub fn inject_gp() -> (r: Vec<Command>)
        ensures
            r@ == gp_commands(),
    {
        let mut writes: Vec<Command> = Vec::new();
        crate::vmcs::push32(&mut writes, field::ENTRY_INTR_INFO, GP_EVENT);
        crate::vmcs::push32(&mut writes, field::ENTRY_EXCEPTION_EC, 0);
        assert(writes@ =~= gp_commands());
        writes
    }

    /// An event was queued for the next entry.
    pub fn injected(&mut self)
        ensures
            final(self)@ == (VpView { injection_pending: true, ..old(self)@ }),
    {
        self.injection_pending = true;
    }

    /// The VMCS fields that describe a trapped exception. One that cannot be
    /// read counts as zero.
    pub fn exception_reads() -> (r: [VmcsRead; 3])
        ensures
            r@ == seq![
                VmcsRead { field: field::EXIT_INTR_INFO, width: Width::Bits32 },
                VmcsRead { field: field::EXIT_INTR_ERROR_CODE, width: Width::Bits32 },
                VmcsRead { field: field::GUEST_CR3, width: Width::Bits64 },
            ],
    {
        let reads: [VmcsRead; 3] = [
            VmcsRead { field: field::EXIT_INTR_INFO, width: Width::Bits32 },
            VmcsRead { field: field::EXIT_INTR_ERROR_CODE, width: Width::Bits32 },
            VmcsRead { field: field::GUEST_CR3, width: Width::Bits64 },
        ];
        assert(reads@ =~= seq![
            VmcsRead { field: field::EXIT_INTR_INFO, width: Width::Bits32 },
            VmcsRead { field: field::EXIT_INTR_ERROR_CODE, width: Width::Bits32 },
            VmcsRead { field: field::GUEST_CR3, width: Width::Bits64 },
        ]);
        reads
    }

    /// Deal with a trapped exception.
    ///
    /// Bit 2 of the exception bitmap is always set, and NMIs of the APIC model
    /// get one entry with it cleared, so an NMI that gets here is an external
    /// one that escaped.
    pub fn take_exception(&mut self, info: u64, code: u64) -> (r: ExceptionStep)
        requires
            info % 0x100 != 2 ==> old(self)@.exceptions < u64::MAX,
        ensures
            r == exception_step(old(self)@, info, code),
            final(self)@ == (if r is Contained {
                old(self)@
            } else {
                VpView { exceptions: (old(self)@.exceptions + 1) as u64, ..old(self)@ }
            }),
    {
        let vector: u64 = info % 0x100;
        if vector == 2 {
            return ExceptionStep::Contained;
        }
        let first: bool = self.exceptions == 0;
        self.exceptions = self.exceptions + 1;
        ExceptionStep::Reflect { info, code, first, walk: first && vector == 14 }
    }

    /// The program that gives an exception back to the guest.
    pub fn reflect_exception(info: u64, code: u64) -> (r: Vec<Command>)
        ensures
            r@ == reflect_commands(info, code),
    {
        let mut writes: Vec<Command> = Vec::new();
        crate::vmcs::push32(&mut writes, field::ENTRY_INTR_INFO, info);
        crate::vmcs::push32(&mut writes, field::ENTRY_EXCEPTION_EC, code);
        assert(writes@ =~= reflect_commands(info, code));
        writes
    }

    /// Deal with a memory fault at `gpa`, given the IDT-vectoring information:
    /// the fault is a device register or a piece of low memory, and both are
    /// answered by decoding the instruction. Reports whether the access was to
    /// the local APIC's page.
    pub fn take_memory_fault(&mut self, gpa: u64, vectoring: u64) -> (r: bool)
        ensures
            r == (gpa / 0x1000 == LAPIC_BASE / 0x1000),
            final(self)@ == (VpView {
                fault_gpa: Some(gpa),
                exit_during_delivery: vectoring / 0x8000_0000 % 2 == 1,
                ..old(self)@
            }),
    {
        self.fault_gpa = Some(gpa);
        self.exit_during_delivery = vectoring / 0x8000_0000 % 2 == 1;
        gpa / 0x1000 == LAPIC_BASE / 0x1000
    }

    /// The reads that refresh the state the emulator needs.
    pub fn cache_state_reads() -> (r: Vec<VmcsRead>)
        ensures
            r@ == cache_reads(),
            r@.len() == CACHE_READS,
    {
        let mut reads: Vec<VmcsRead> = Vec::new();
        let mut k: usize = 0;
        while k < 6
            invariant
                k <= 6,
                reads@ == emulator_reads(k as int),
                reads@.len() == 4 * k,
            decreases 6 - k,
        {
            let ghost before = reads@;
            let fields: SegmentFields = emulator_segment_name(k).fields();
            reads.push(VmcsRead { field: fields.base, width: Width::Bits64 });
            reads.push(VmcsRead { field: fields.limit, width: Width::Bits32 });
            reads.push(VmcsRead { field: fields.selector, width: Width::Bits16 });
            reads.push(VmcsRead { field: fields.attributes, width: Width::Bits32 });
            assert(reads@ =~= before + crate::vp_state::segment_reads(emulator_segment(k as int)));
            k = k + 1;
        }
        let ghost before = reads@;
        reads.push(VmcsRead { field: field::GUEST_IA32_EFER, width: Width::Bits64 });
        reads.push(VmcsRead { field: field::GUEST_CR0, width: Width::Bits64 });
        reads.push(VmcsRead { field: field::GUEST_CR3, width: Width::Bits64 });
        assert(reads@ =~= cache_reads());
        reads
    }

    /// Refresh the state the emulator needs, from the values of the reads.
    pub fn cache_state(&mut self, values: &Vec<u64>)
        requires
            values@.len() == CACHE_READS,
        ensures
            final(self)@ == (VpView { cached: cache_from(values@), ..old(self)@ }),
    {
        let segments: [SegmentRegister; 6] = [
            crate::vp_state::read_segment(values, 0),
            crate::vp_state::read_segment(values, 4),
            crate::vp_state::read_segment(values, 8),
            crate::vp_state::read_segment(values, 12),
            crate::vp_state::read_segment(values, 16),
            crate::vp_state::read_segment(values, 20),
        ];
        assert(segments@ =~= cache_from(values@).segments);
        self.cached = CachedState {
            segments,
            efer: values[24],
            cr0: values[25],
            cr3: values[26],
        };
    }

    /// Translate a guest virtual address with the cached control registers.
    pub fn translate(&self, memory: &TdpMemory<'_>, gva: u64) -> (r: Option<u64>)
        requires
            memory.wf(),
        ensures
            r == crate::paging::translation(
                memory.extents(),
                memory.bytes(),
                self@.cached.cr0,
                self@.cached.cr3,
                gva,
            ),
    {
        crate::paging::translate(memory, self.cached.cr0, self.cached.cr3, gva)
    }

    /// Where the bytes of the instruction at RIP come from, and whether the fetch
    /// ends only with the address space.
    pub fn instruction_sources(&self, memory: &TdpMemory<'_>) -> (r: (Vec<FetchSource>, bool))
        requires
            memory.wf(),
        ensures
            r.0@ == crate::paging::sources_from(
                memory.extents(),
                memory.bytes(),
                self@.cached.cr0,
                self@.cached.cr3,
                linear_rip(self@),
                0,
            ),
            r.1 == crate::paging::runs_off(linear_rip(self@), r.0@.len() as int),
    {
        let linear: u64 = self.cached.segments[1].base.wrapping_add(self.regs.rip);
        crate::paging::fetch_sources(memory, self.cached.cr0, self.cached.cr3, linear)
    }

    /// Put the fetched instruction together for the emulator. `low[k]` is what
    /// was read for `sources[k]`, if that is in low memory. With `runs_off` as
    /// [`TdpProcessor::instruction_sources`] gave it, reports whether the fetch
    /// did run off the address space: it does not if a byte before that could
    /// not be read.
    pub fn fetch_instruction(
        &mut self,
        sources: &Vec<FetchSource>,
        low: &Vec<Option<u8>>,
        runs_off: bool,
    ) -> (r: bool)
        requires
            low@.len() == sources@.len(),
        ensures
            final(self)@ == (VpView {
                instruction: crate::paging::assembled(sources@, low@, sources@.len() as int),
                ..old(self)@
            }),
            r == (runs_off && final(self)@.instruction.len() == sources@.len()),
    {
        self.instruction = crate::paging::assemble(sources, low);
        runs_off && self.instruction.len() == sources.len()
    }

    /// Record an exception that the emulator asked for. The run loop programs
    /// the entry field with [`TdpProcessor::take_pending_event`].
    pub fn inject_pending_event(&mut self, event: EmulatorEvent)
        ensures
            final(self)@ == (VpView { pending_event: Some(event), ..old(self)@ }),
    {
        self.pending_event = Some(event);
    }

    /// Queue the exception that the emulator asked for, if it asked for one:
    /// the program that writes the entry field. The field is not self-clearing,
    /// so the event is taken back after the entry that delivers it, as any
    /// other.
    pub fn take_pending_event(&mut self) -> (r: Vec<Command>)
        ensures
            r@ == event_commands(old(self)@),
            final(self)@ == event_taken(old(self)@),
    {
        let mut writes: Vec<Command> = Vec::new();
        if let Some(event) = self.pending_event {
            crate::vmcs::push32(&mut writes, field::ENTRY_INTR_INFO, event.entry_info());
            if let Some(code) = event.error_code {
                crate::vmcs::push32(&mut writes, field::ENTRY_EXCEPTION_EC, code as u64);
            }
            self.pending_event = None;
            self.injection_pending = true;
        }
        assert(writes@ =~= event_commands(old(self)@));
        writes
    }

    /// Set the registers: the program for those that are VMCS fields. The
    /// general-purpose registers are published at once.
    pub fn set_registers(&mut self, value: &Registers) -> (r: Vec<Command>)
        requires
            old(self)@.wf(),
        ensures
            r@ == crate::vp_state::register_commands(*value),
            final(self)@ == (VpView {
                regs: crate::vp_state::with_general(old(self)@.regs, *value),
                ..old(self)@
            }).flushed(),
            final(self)@.wf(),
    {
        self.regs = crate::vp_state::set_general(&self.regs, value);
        self.flush_registers();
        crate::vp_state::register_program(value)
    }

    /// The registers, out of the values of
    /// [`crate::vp_state::register_reads`].
    pub fn registers(&self, values: &Vec<u64>) -> (r: Registers)
        requires
            values@.len() == crate::vp_state::REGISTER_READS,
        ensures
            r == crate::vp_state::registers_from(self@.regs, values@),
    {
        crate::vp_state::registers(&self.regs, values)
    }

    pub fn activity(&self) -> (r: Activity)
        ensures
            r == Activity::plain(self@.mp_state),
    {
        crate::vp_state::activity(self.mp_state)
    }

    /// Adopt a run state, unless the activity holds something pending.
    pub fn set_activity(&mut self, value: &Activity) -> (r: Result<(), TdpError>)
        ensures
            r is Ok <==> *value == Activity::plain(value.mp_state),
            r matches Err(err) ==> err matches TdpError::Unsupported(what) && what@
                == "pending activity state"@,
            final(self)@ == (if r is Ok {
                VpView { mp_state: value.mp_state, ..old(self)@ }
            } else {
                old(self)@
            }),
    {
        match crate::vp_state::accept_activity(value) {
            Ok(mp_state) => {
                self.mp_state = mp_state;
                Ok(())
            },
            Err(err) => Err(err),
        }
    }
}

/// RIP moves only when the instruction retires, and then by its length:
/// everything that has to be carried out first, and everything that faults,
/// leaves it where it is.
pub proof fn law_rip_moves_only_by_retiring(
    vp: VpView,
    reason: u16,
    qualification: u64,
    instruction_length: u32,
)
    requires
        reason != EXIT_CPUID,
        retires_at_once(vp, reason) ==> vp.regs.rip + instruction_length <= u64::MAX,
    ensures
        serviced(vp, reason, qualification, instruction_length).1.regs.rip == (if retires_at_once(
            vp,
            reason,
        ) {
            vp.regs.rip + instruction_length
        } else {
            vp.regs.rip as int
        }),
{
}

/// Every exit reason this backend knows is dealt with: an exit is fatal only
/// for an unknown reason or a control-register access that is not emulated.
pub proof fn law_known_exits_are_serviced(
    vp: VpView,
    reason: u16,
    qualification: u64,
    instruction_length: u32,
)
    ensures
        serviced(vp, reason, qualification, instruction_length).0 is Fatal ==> reason
            == EXIT_CR_ACCESS || !(reason == EXIT_EXCEPTION_NMI || reason
            == EXIT_EXTERNAL_INTERRUPT || reason == EXIT_TRIPLE_FAULT || reason
            == EXIT_INTERRUPT_WINDOW || reason == EXIT_HLT || reason == EXIT_IO_INSTRUCTION
            || reason == EXIT_MSR_READ || reason == EXIT_MSR_WRITE || reason
            == EXIT_VIRTUALIZED_EOI || reason == EXIT_EPT_VIOLATION || reason == EXIT_WBINVD
            || reason == EXIT_XSETBV || reason == EXIT_APIC_WRITE),
        serviced(vp, reason, qualification, instruction_length).0 is TripleFault <==> reason
            == EXIT_TRIPLE_FAULT,
{
}

/// An external NMI never reaches the guest, and every other trapped exception
/// does, with the information it exited with.
pub proof fn law_only_external_nmis_are_contained(vp: VpView, info: u64, code: u64)
    ensures
        exception_step(vp, info, code) is Contained <==> info % 0x100 == 2,
        exception_step(vp, info, code) matches ExceptionStep::Reflect { info: i, code: c, .. } ==> i
            == info && c == code,
{
}

/// An exception that the emulator asked for is injected by the next entry and
/// only by that one: it is written into the entry field, it is not taken back
/// before an entry has delivered it, an NMI waits for it, and nothing of it is
/// left for a second time.
pub proof fn law_emulator_event_is_injected(vp: VpView, work: ApicWork, event: EmulatorEvent)
    requires
        vp.pending_event == Some(event),
    ensures
        event_commands(vp)[0] == crate::vmcs::w32(field::ENTRY_INTR_INFO, event.spec_entry_info()),
        event_taken(vp).injection_pending,
        !before_entry(event_taken(vp)).contains(clear_event()),
        work_step(event_taken(vp), work, WorkPhase::Started).0 is Done,
        event_commands(event_taken(vp)) == Seq::<Command>::empty(),
        event_taken(event_taken(vp)) == event_taken(vp),
{
}

/// What the run loop is doing.
#[derive(Debug, Clone, Copy, PartialEq, Eq, Structural)]
pub enum LoopPhase {
    /// See whether the VP is to stop.
    CheckStop,
    /// Tell the chipset what the guest has finished with, before asking it what
    /// is pending. A level-triggered line is held in service by the IOAPIC until
    /// this arrives and is not delivered again in between, so skipping it loses
    /// every interrupt that device will ever raise.
    ReportEois,
    /// Take the vectors that were queued for this processor.
    Drain,
    /// Give the APIC model a turn, publish what it decides, and deal with its
    /// work.
    Scan,
    /// Deliver the queued vectors by hand, without the APIC model.
    Deliver,
    /// Wait for an interrupt: the processor has not been started.
    Wait,
    /// Enter the guest.
    Enter,
    /// Service the exit.
    Service,
    /// Queue the exception that the emulator asked for, if it asked for one.
    Inject,
    /// Publish the register image for the next entry.
    WriteBack,
}

/// What the run loop does after a phase. `hand_apic` selects delivery without
/// the APIC model, and `exit` is what the last entry produced.
pub open spec fn next_phase(
    phase: LoopPhase,
    hand_apic: bool,
    mp_state: MpState,
    exit: Exit,
) -> LoopPhase {
    match phase {
        LoopPhase::CheckStop => if hand_apic {
            LoopPhase::Drain
        } else {
            LoopPhase::ReportEois
        },
        LoopPhase::ReportEois => LoopPhase::Drain,
        LoopPhase::Drain => if hand_apic {
            LoopPhase::Deliver
        } else {
            LoopPhase::Scan
        },
        LoopPhase::Scan | LoopPhase::Deliver => if mp_state == MpState::WaitForSipi {
            LoopPhase::Wait
        } else {
            LoopPhase::Enter
        },
        LoopPhase::Enter => if exit == Exit::Resume {
            LoopPhase::CheckStop
        } else {
            LoopPhase::Service
        },
        LoopPhase::Service => LoopPhase::Inject,
        LoopPhase::Inject => LoopPhase::WriteBack,
        LoopPhase::Wait | LoopPhase::WriteBack => LoopPhase::CheckStop,
    }
}

/// How far a round of the run loop has come.
pub open spec fn phase_rank(phase: LoopPhase) -> nat {
    match phase {
        LoopPhase::CheckStop => 0,
        LoopPhase::ReportEois => 1,
        LoopPhase::Drain => 2,
        LoopPhase::Scan | LoopPhase::Deliver => 3,
        LoopPhase::Wait | LoopPhase::Enter => 4,
        LoopPhase::Service => 5,
        LoopPhase::Inject => 6,
        LoopPhase::WriteBack => 7,
    }
}

/// Every round of the run loop goes forward until it starts over by checking
/// whether to stop, so a stop request is seen after at most one entry.
pub proof fn law_every_round_checks_for_a_stop(
    phase: LoopPhase,
    hand_apic: bool,
    mp_state: MpState,
    exit: Exit,
)
    ensures
        next_phase(phase, hand_apic, mp_state, exit) == LoopPhase::CheckStop || phase_rank(
            next_phase(phase, hand_apic, mp_state, exit),
        ) > phase_rank(phase),
{
}

/// A processor that was not started never enters, only an exit is serviced, and
/// what servicing it left behind is queued and written back before the next
/// round.
pub proof fn law_phases_follow_the_processor(
    phase: LoopPhase,
    hand_apic: bool,
    mp_state: MpState,
    exit: Exit,
)
    ensures
        next_phase(phase, hand_apic, mp_state, exit) == LoopPhase::Enter ==> mp_state
            != MpState::WaitForSipi && (phase == LoopPhase::Scan || phase == LoopPhase::Deliver),
        next_phase(phase, hand_apic, mp_state, exit) == LoopPhase::Service ==> exit is Serviced
            && phase == LoopPhase::Enter,
        next_phase(LoopPhase::Service, hand_apic, mp_state, exit) == LoopPhase::Inject,
        next_phase(LoopPhase::Inject, hand_apic, mp_state, exit) == LoopPhase::WriteBack,
{
}

/// How often the same exit reason repeats before it is worth a report.
pub const REPEAT_REPORT: u64 = 50_000;

/// Count an entry that did not produce an exit, and say whether the run of them
/// is worth a report. A guest that stops exiting is either working or spinning,
/// and the only way to tell is where it is.
pub fn count_resumes(resumes: u64, exit: Exit, sample: u64) -> (r: (u64, bool))
    requires
        exit is Resume ==> resumes < u64::MAX,
        sample != 0,
    ensures
        r.0 == (if exit == Exit::Resume {
            resumes + 1
        } else {
            0
        }),
        r.1 == (r.0 % sample == sample - 1),
{
    let count: u64 = match exit {
        Exit::Resume => resumes + 1,
        _ => 0,
    };
    (count, count % sample == sample - 1)
}

impl<'a> TdpProcessor<'a> {
    /// What the run loop does after a phase.
    pub fn advance(&self, phase: LoopPhase, hand_apic: bool, exit: Exit) -> (r: LoopPhase)
        ensures
            r == next_phase(phase, hand_apic, self@.mp_state, exit),
    {
        match phase {
            LoopPhase::CheckStop => {
                if hand_apic {
                    LoopPhase::Drain
                } else {
                    LoopPhase::ReportEois
                }
            },
            LoopPhase::ReportEois => LoopPhase::Drain,
            LoopPhase::Drain => {
                if hand_apic {
                    LoopPhase::Deliver
                } else {
                    LoopPhase::Scan
                }
            },
            LoopPhase::Scan | LoopPhase::Deliver => {
                if self.mp_state == MpState::WaitForSipi {
                    LoopPhase::Wait
                } else {
                    LoopPhase::Enter
                }
            },
            LoopPhase::Enter => {
                match exit {
                    Exit::Resume => LoopPhase::CheckStop,
                    _ => LoopPhase::Service,
                }
            },
            LoopPhase::Service => LoopPhase::Inject,
            LoopPhase::Inject => LoopPhase::WriteBack,
            LoopPhase::Wait | LoopPhase::WriteBack => LoopPhase::CheckStop,
        }
    }

    /// Note an exit, and report how often its reason has repeated when that is
    /// worth a report. An exit reason that repeats without the guest advancing
    /// is a loop the VMM is failing to break: it is handled, so nothing is
    /// logged, and re-entering reproduces it immediately.
    pub fn note_exit(&mut self, reason: u16) -> (r: Option<u64>)
        requires
            reason == old(self)@.last_reason ==> old(self)@.same_reason < u64::MAX,
        ensures
            ({
                let repeated = reason == old(self)@.last_reason;
                let count = if repeated {
                    old(self)@.same_reason + 1
                } else {
                    0
                };
                &&& final(self)@ == (VpView {
                    last_reason: reason,
                    same_reason: count as u64,
                    ..old(self)@
                })
                &&& r == (if repeated && count % (REPEAT_REPORT as int) == REPEAT_REPORT - 1 {
                    Some(count as u64)
                } else {
                    None
                })
            }),
    {
        if reason == self.last_reason {
            self.same_reason = self.same_reason + 1;
            if self.same_reason % REPEAT_REPORT == REPEAT_REPORT - 1 {
                return Some(self.same_reason);
            }
            None
        } else {
            self.last_reason = reason;
            self.same_reason = 0;
            None
        }
    }
}

/// The exit reasons are the architecture's.
pub proof fn law_exit_reasons_are_architectural()
    ensures
        EXIT_EXCEPTION_NMI == 0,
        EXIT_EXTERNAL_INTERRUPT == 1,
        EXIT_TRIPLE_FAULT == 2,
        EXIT_INTERRUPT_WINDOW == 7,
        EXIT_CPUID == 10,
        EXIT_HLT == 12,
        EXIT_CR_ACCESS == 28,
        EXIT_IO_INSTRUCTION == 30,
        EXIT_MSR_READ == 31,
        EXIT_MSR_WRITE == 32,
        EXIT_VIRTUALIZED_EOI == 45,
        EXIT_EPT_VIOLATION == 48,
        EXIT_WBINVD == 54,
        EXIT_XSETBV == 55,
        EXIT_APIC_WRITE == 56,
{
}

/// What each exit calls for, by the number of its reason: an exception is read,
/// an interrupt, an interrupt window and an APIC write need nothing, a triple
/// fault is the end, a halt waits, a virtualized end-of-interrupt is reported
/// with the vector in the low byte of the qualification, a memory fault is read,
/// cache and extended-state instructions are skipped, port, MSR and control
/// register accesses are emulated, and anything else is fatal, with all that is
/// known of it.
pub proof fn law_exits_by_number(
    vp: VpView,
    reason: u16,
    qualification: u64,
    instruction_length: u32,
)
    requires
        reason != 10,
    ensures
        ({
            let action = serviced(vp, reason, qualification, instruction_length).0;
            &&& reason == 0 <==> action is ReadException
            &&& reason == 1 || reason == 7 || reason == 54 || reason == 55 || reason == 56
                ==> action is Done
            &&& reason == 2 <==> action is TripleFault
            &&& reason == 12 <==> action is AwaitInterrupt
            &&& reason == 28 ==> action == (match crate::control::cr_action(
                vp.regs,
                qualification,
            ) {
                Ok(access) => ServiceAction::Cr(access),
                Err(err) => ServiceAction::Fatal(err),
            })
            &&& reason == 30 <==> action is ReadPort || action is WritePort
            &&& reason == 31 ==> action == msr_serviced(vp, false, instruction_length).0
            &&& reason == 32 ==> action == msr_serviced(vp, true, instruction_length).0
            &&& reason == 45 <==> action is HandleEoi
            &&& reason == 45 ==> action->HandleEoi_vector == qualification % 0x100
            &&& reason == 48 <==> action is ReadMemoryFault
            &&& !(reason == 0 || reason == 1 || reason == 2 || reason == 7 || reason == 12 || reason
                == 28 || reason == 30 || reason == 31 || reason == 32 || reason == 45 || reason
                == 48 || reason == 54 || reason == 55 || reason == 56) ==> action
                == ServiceAction::Fatal(
                ServiceError::UnknownExit { reason, qualification, rip: vp.regs.rip },
            )
        }),
{
}

/// What servicing an exit changes: a halt, a cache and an extended-state
/// instruction move RIP behind themselves, a halt also publishes the register
/// image, an MSR access changes what it is about, and every other exit changes
/// nothing of the processor.
pub proof fn law_servicing_changes_only_what_it_must(
    vp: VpView,
    reason: u16,
    qualification: u64,
    instruction_length: u32,
)
    requires
        reason != 10,
        vp.regs.rip + instruction_length <= u64::MAX,
    ensures
        ({
            let after = serviced(vp, reason, qualification, instruction_length).1;
            let moved = L2GprContext {
                rip: (vp.regs.rip + instruction_length) as u64,
                ..vp.regs
            };
            &&& reason == 12 ==> after == (VpView {
                regs: moved,
                context: crate::regs::with_context(vp.context, moved),
                ..vp
            })
            &&& reason == 54 || reason == 55 ==> after == (VpView { regs: moved, ..vp })
            &&& reason == 31 ==> after == msr_serviced(vp, false, instruction_length).1
            &&& reason == 32 ==> after == msr_serviced(vp, true, instruction_length).1
            &&& !(reason == 12 || reason == 31 || reason == 32 || reason == 54 || reason == 55)
                ==> after == vp
        }),
{
}

/// What an MSR exit does: a read that has an answer loads it into EDX and EAX and
/// retires, a write with nothing to store retires, an MSR that is not implemented
/// faults, and everything else is left to whoever can carry it out. Only what
/// retires changes the processor, and no more than RIP and what was read.
pub proof fn law_msr_exits(vp: VpView, is_write: bool, instruction_length: u32)
    requires
        vp.regs.rip + instruction_length <= u64::MAX,
    ensures
        ({
            let access = crate::msr::msr_action(vp.regs, is_write);
            let (action, after) = msr_serviced(vp, is_write, instruction_length);
            let rip = (vp.regs.rip + instruction_length) as u64;
            &&& access matches MsrAction::Answer { value } ==> action == ServiceAction::Done
                && after == (VpView {
                regs: L2GprContext {
                    rax: value % 0x1_0000_0000,
                    rdx: value / 0x1_0000_0000,
                    rip,
                    ..vp.regs
                },
                ..vp
            })
            &&& access is Accept ==> action == ServiceAction::Done && after == (VpView {
                regs: L2GprContext { rip, ..vp.regs },
                ..vp
            })
            &&& access is Unknown ==> action == ServiceAction::InjectGp && after == vp
            &&& !(access is Answer || access is Accept || access is Unknown) ==> action
                == ServiceAction::Msr(access) && after == vp
        }),
{
}

/// CPUID is answered in EAX, EBX, ECX and EDX, in this order, whose upper halves
/// it clears, and RIP moves behind it; nothing else changes.
pub proof fn law_cpuid_answers_stand_in_their_registers(
    vp: VpView,
    answer: Seq<u32>,
    instruction_length: u32,
)
    requires
        vp.regs.rip + instruction_length <= u64::MAX,
    ensures
        ({
            let after = cpuid_answered(vp, answer, instruction_length);
            &&& after.regs.rax == answer[0]
            &&& after.regs.rbx == answer[1]
            &&& after.regs.rcx == answer[2]
            &&& after.regs.rdx == answer[3]
            &&& after.regs.rip == vp.regs.rip + instruction_length
            &&& after.regs == (L2GprContext {
                rax: after.regs.rax,
                rbx: after.regs.rbx,
                rcx: after.regs.rcx,
                rdx: after.regs.rdx,
                rip: after.regs.rip,
                ..vp.regs
            })
            &&& after == (VpView { regs: after.regs, ..vp })
        }),
{
}

proof fn lemma_port_parts(rax: u64, value: u64)
    by (bit_vector)
    requires
        value <= 0xffff_ffff,
    ensures
        ((rax / 0x100 * 0x100 + value % 0x100) as u64) % 0x100 == value % 0x100,
        ((rax / 0x100 * 0x100 + value % 0x100) as u64) / 0x100 == rax / 0x100,
        ((rax / 0x1_0000 * 0x1_0000 + value % 0x1_0000) as u64) % 0x1_0000 == value % 0x1_0000,
        ((rax / 0x1_0000 * 0x1_0000 + value % 0x1_0000) as u64) / 0x1_0000 == rax / 0x1_0000,
        ((rax / 0x1_0000_0000 * 0x1_0000_0000 + value) as u64) % 0x1_0000_0000 == value,
        ((rax / 0x1_0000_0000 * 0x1_0000_0000 + value) as u64) / 0x1_0000_0000 == rax
            / 0x1_0000_0000,
        (rax % 0x1_0000_0000) % 0x100 == rax % 0x100,
        (rax % 0x1_0000_0000) % 0x1_0000 == rax % 0x1_0000,
{
}

/// A port access is of the port, the size and the direction that the
/// qualification says. What is written has as its low bytes, as many as the
/// access moves, those of RAX.
pub proof fn law_port_writes_carry_rax(
    vp: VpView,
    qualification: u64,
    instruction_length: u32,
)
    requires
        port_size(qualification) == 1 || port_size(qualification) == 2 || port_size(qualification)
            == 4,
    ensures
        ({
            let action = serviced(vp, 30, qualification, instruction_length).0;
            &&& qualification / 8 % 2 == 1 ==> (action matches ServiceAction::ReadPort {
                port,
                size,
            } && port == qualification / 0x1_0000 % 0x1_0000 && size == qualification % 8 + 1)
            &&& qualification / 8 % 2 == 0 ==> (action matches ServiceAction::WritePort {
                port,
                size,
                value,
            } && {
                &&& port == qualification / 0x1_0000 % 0x1_0000
                &&& size == qualification % 8 + 1
                &&& size == 1 ==> value % 0x100 == vp.regs.rax % 0x100
                &&& size == 2 ==> value % 0x1_0000 == vp.regs.rax % 0x1_0000
                &&& size == 4 ==> value == vp.regs.rax % 0x1_0000_0000
            })
        }),
{
    lemma_port_parts(vp.regs.rax, 0);
}

/// What a port read gives stands in as many low bytes of RAX as were read, and
/// the bytes above them stay.
pub proof fn law_port_reads_fill_the_low_bytes(rax: u64, value: u32)
    ensures
        port_value(rax, 1, value) % 0x100 == value % 0x100,
        port_value(rax, 1, value) / 0x100 == rax / 0x100,
        port_value(rax, 2, value) % 0x1_0000 == value % 0x1_0000,
        port_value(rax, 2, value) / 0x1_0000 == rax / 0x1_0000,
        port_value(rax, 4, value) % 0x1_0000_0000 == value,
        port_value(rax, 4, value) / 0x1_0000_0000 == rax / 0x1_0000_0000,
{
    lemma_port_parts(rax, value as u64);
}

/// Writing RAX to a port and reading the same bytes back leaves RAX as it was.
pub proof fn law_port_round_trip(vp: VpView, qualification: u64, instruction_length: u32)
    requires
        port_size(qualification) == 1 || port_size(qualification) == 2 || port_size(qualification)
            == 4,
        qualification / 8 % 2 == 0,
    ensures
        serviced(vp, 30, qualification, instruction_length).0 matches ServiceAction::WritePort {
            size,
            value,
            ..
        } && port_value(vp.regs.rax, size as int, value) == vp.regs.rax,
{
    let rax = vp.regs.rax;
    let value = (rax % 0x1_0000_0000) as u32;
    lemma_port_parts(rax, value as u64);
}

/// An event field says what it injects: the vector in its low byte, the type
/// above it, whether an error code goes with it, that it is valid, and nothing
/// else. What the emulator asks for and a general-protection fault are hardware
/// exceptions, and a non-maskable interrupt is one.
pub proof fn law_event_fields_say_what_they_inject(event: EmulatorEvent)
    ensures
        ({
            let info = event.spec_entry_info();
            &&& info % 0x100 == event.vector
            &&& info / 0x100 % 8 == 3
            &&& info / 0x800 % 2 == 1 <==> event.error_code is Some
            &&& info / 0x1000 == 0x8_0000
        }),
        NMI_EVENT % 0x100 == 2,
        NMI_EVENT / 0x100 % 8 == 2,
        NMI_EVENT / 0x800 % 2 == 0,
        NMI_EVENT / 0x1000 == 0x8_0000,
        GP_EVENT % 0x100 == 13,
        GP_EVENT / 0x100 % 8 == 3,
        GP_EVENT / 0x800 % 2 == 1,
        GP_EVENT / 0x1000 == 0x8_0000,
        (EmulatorEvent { vector: 13, error_code: Some(0) }).spec_entry_info() == GP_EVENT,
{
}

/// A program of up to two commands, carried out.
proof fn lemma_short_programs(vmcs: Map<u32, u64>, a: Command, b: Command)
    ensures
        crate::vmcs::after_commands(vmcs, Seq::<Command>::empty()) == vmcs,
        crate::vmcs::after_commands(vmcs, seq![a]) == crate::vmcs::after_command(vmcs, a),
        crate::vmcs::after_commands(vmcs, seq![a, b]) == crate::vmcs::after_command(
            crate::vmcs::after_command(vmcs, a),
            b,
        ),
{
    reveal_with_fuel(crate::vmcs::after_commands, 3);
    assert(seq![a].drop_last() =~= Seq::<Command>::empty());
    assert(seq![a, b].drop_last() =~= seq![a]);
}

/// Two 32-bit fields that are written one after the other.
proof fn lemma_two_fields(vmcs: Map<u32, u64>, f: u32, value: u64, g: u32, other_value: u64)
    requires
        f != g,
    ensures
        ({
            let after = crate::vmcs::after_commands(
                vmcs,
                seq![crate::vmcs::w32(f, value), crate::vmcs::w32(g, other_value)],
            );
            let first = crate::vmcs::after_commands(vmcs, seq![crate::vmcs::w32(f, value)]);
            let bits = crate::tdx::writable_bits(f, Width::Bits32);
            &&& crate::vmcs::holds(after, f, bits, value)
            &&& crate::vmcs::holds(
                after,
                g,
                crate::tdx::writable_bits(g, Width::Bits32),
                other_value,
            )
            &&& crate::vmcs::holds(first, f, bits, value)
            &&& forall|h: u32| h != f && h != g ==> #[trigger] after[h] == vmcs[h]
            &&& forall|h: u32| h != f ==> #[trigger] first[h] == vmcs[h]
        }),
{
    lemma_short_programs(vmcs, crate::vmcs::w32(f, value), crate::vmcs::w32(g, other_value));
    crate::vmcs::lemma_stored_bits(
        vmcs[f],
        value,
        crate::tdx::writable_bits(f, Width::Bits32),
    );
    crate::vmcs::lemma_stored_bits(
        vmcs[g],
        other_value,
        crate::tdx::writable_bits(g, Width::Bits32),
    );
}

/// What is queued reaches the field that injects it, and the error code its own,
/// and no other field changes: an exception that is given back with what it
/// exited with, a general-protection fault with error code zero, and what the
/// emulator asked for with its error code if it has one. Taking an event back
/// clears the field.
pub proof fn law_queued_events_reach_the_entry_fields(
    vmcs: Map<u32, u64>,
    event: EmulatorEvent,
    info: u64,
    code: u64,
    other: u32,
)
    requires
        other != field::ENTRY_INTR_INFO,
        other != field::ENTRY_EXCEPTION_EC,
    ensures
        ({
            let reflected = crate::vmcs::after_commands(vmcs, reflect_commands(info, code));
            let faulted = crate::vmcs::after_commands(vmcs, gp_commands());
            let asked = crate::vmcs::after_commands(vmcs, event.commands());
            let cleared = crate::vmcs::after_commands(vmcs, seq![clear_event()]);
            &&& crate::vmcs::holds(reflected, field::ENTRY_INTR_INFO, 0xffff_ffff, info)
            &&& crate::vmcs::holds(reflected, field::ENTRY_EXCEPTION_EC, 0xffff_ffff, code)
            &&& reflected[other] == vmcs[other]
            &&& crate::vmcs::holds(faulted, field::ENTRY_INTR_INFO, 0xffff_ffff, 0x8000_0b0d)
            &&& crate::vmcs::holds(faulted, field::ENTRY_EXCEPTION_EC, 0xffff_ffff, 0)
            &&& faulted[other] == vmcs[other]
            &&& crate::vmcs::holds(
                asked,
                field::ENTRY_INTR_INFO,
                0xffff_ffff,
                event.spec_entry_info(),
            )
            &&& event.error_code matches Some(code) ==> crate::vmcs::holds(
                asked,
                field::ENTRY_EXCEPTION_EC,
                0xffff_ffff,
                code as u64,
            )
            &&& event.error_code is None ==> asked[field::ENTRY_EXCEPTION_EC]
                == vmcs[field::ENTRY_EXCEPTION_EC]
            &&& asked[other] == vmcs[other]
            &&& crate::vmcs::holds(cleared, field::ENTRY_INTR_INFO, 0xffff_ffff, 0)
            &&& cleared[other] == vmcs[other]
        }),
{
    let f = field::ENTRY_INTR_INFO;
    let g = field::ENTRY_EXCEPTION_EC;
    lemma_two_fields(vmcs, f, info, g, code);
    lemma_two_fields(vmcs, f, 0x8000_0b0d, g, 0);
    lemma_two_fields(vmcs, f, 0, g, 0);
    let written = crate::vmcs::w32(f, event.spec_entry_info());
    match event.error_code {
        Some(code) => {
            lemma_two_fields(vmcs, f, event.spec_entry_info(), g, code as u64);
            assert(event.commands() =~= seq![written, crate::vmcs::w32(g, code as u64)]);
        },
        None => {
            lemma_two_fields(vmcs, f, event.spec_entry_info(), g, 0);
            assert(event.commands() =~= seq![written]);
        },
    }
}

/// What is written before an entry: the event field is cleared exactly when the
/// last entry delivered an event and no new one is queued, the NMI bit, and only
/// that bit, is taken out of the exception bitmap exactly when an NMI is to be
/// delivered, and nothing else is touched. After the entry the exception bitmap
/// is the processor's again.
pub proof fn law_entry_writes(
    vmcs: Map<u32, u64>,
    vp: VpView,
    result: VpEnterResult,
    other: u32,
)
    requires
        other != field::ENTRY_INTR_INFO,
        other != field::EXCEPTION_BITMAP,
    ensures
        ({
            let before = crate::vmcs::after_commands(vmcs, before_entry(vp));
            let after = crate::vmcs::after_commands(vmcs, after_entry(vp, result));
            let delivered = vp.injection_armed && !vp.injection_pending;
            let restored = vp.nmi_injection_pending && !(result is NoEntry);
            &&& delivered ==> crate::vmcs::holds(before, field::ENTRY_INTR_INFO, 0xffff_ffff, 0)
            &&& !delivered ==> before[field::ENTRY_INTR_INFO] == vmcs[field::ENTRY_INTR_INFO]
            &&& vp.nmi_injection_pending ==> crate::vmcs::holds(
                before,
                field::EXCEPTION_BITMAP,
                0xffff_ffff_fffb_ffff,
                (vp.exception_bitmap & !4u32) as u64,
            )
            &&& !vp.nmi_injection_pending ==> before[field::EXCEPTION_BITMAP]
                == vmcs[field::EXCEPTION_BITMAP]
            &&& before[other] == vmcs[other]
            &&& restored ==> crate::vmcs::holds(
                after,
                field::EXCEPTION_BITMAP,
                0xffff_ffff_fffb_ffff,
                vp.exception_bitmap as u64,
            )
            &&& !restored ==> after == vmcs
            &&& after[field::ENTRY_INTR_INFO] == vmcs[field::ENTRY_INTR_INFO]
            &&& after[other] == vmcs[other]
        }),
{
    let f = field::ENTRY_INTR_INFO;
    let g = field::EXCEPTION_BITMAP;
    let trapless = (vp.exception_bitmap & !4u32) as u64;
    lemma_short_programs(vmcs, clear_event(), clear_event());
    lemma_two_fields(vmcs, f, 0, g, trapless);
    lemma_two_fields(vmcs, g, trapless, f, 0);
    lemma_two_fields(vmcs, g, vp.exception_bitmap as u64, f, 0);
    let clear = seq![clear_event()];
    let program = seq![program_bitmap(vp.exception_bitmap & !NMI_TRAP)];
    if vp.injection_armed && !vp.injection_pending {
        if vp.nmi_injection_pending {
            assert(before_entry(vp) =~= seq![
                crate::vmcs::w32(f, 0),
                crate::vmcs::w32(g, trapless),
            ]);
        } else {
            assert(before_entry(vp) =~= clear);
        }
    } else if vp.nmi_injection_pending {
        assert(before_entry(vp) =~= program);
    } else {
        assert(before_entry(vp) =~= Seq::<Command>::empty());
    }
}

/// After an entry that happened nothing is queued any more, and the event that it
/// delivered is marked for taking back; nothing else of the processor changes. An
/// attempt that did not enter changes nothing, and preparing an entry only drops
/// the mark.
pub proof fn law_entry_bookkeeping(vp: VpView, result: VpEnterResult)
    ensures
        ({
            let after = entry_finished(vp, result);
            &&& result is NoEntry ==> after == vp
            &&& !(result is NoEntry) ==> {
                &&& !after.injection_pending && !after.nmi_injection_pending
                &&& after.injection_armed <==> vp.injection_armed || vp.injection_pending
                &&& after == (VpView {
                    injection_pending: false,
                    nmi_injection_pending: false,
                    injection_armed: after.injection_armed,
                    ..vp
                })
            }
            &&& entry_begun(vp) == (VpView { injection_armed: false, ..vp })
        }),
{
}

/// What becomes of an entry's result: an exit of the guest is serviced as it was
/// reported; an exit that the host took is looked up in the VMCS under the same
/// reason, unless it is the host's own interrupt, after which the guest just goes
/// on, as it does after an attempt that did not enter; and a failure is kept with
/// its status.
pub proof fn law_entry_results_are_sorted(result: VpEnterResult)
    ensures
        match result {
            VpEnterResult::NoEntry => sorted_exit(result) == EntryExit::Known(Exit::Resume),
            VpEnterResult::HostRouted { reason } => sorted_exit(result) == (if reason == 1 {
                EntryExit::Known(Exit::Resume)
            } else {
                EntryExit::ReadExit { reason }
            }),
            VpEnterResult::Exit { reason, qualification, instruction_length } => sorted_exit(result)
                == EntryExit::Known(
                Exit::Serviced { reason, qualification, instruction_length },
            ),
            VpEnterResult::Error(status) => sorted_exit(result) == EntryExit::ReadError { status },
        },
{
}

proof fn lemma_state_bits(interruptibility: u64, exceptions: u32)
    by (bit_vector)
    ensures
        interruptibility & 0xb == 0 <==> interruptibility % 2 == 0 && interruptibility / 2 % 2 == 0
            && interruptibility / 8 % 2 == 0,
        (exceptions | 4) & 4 == 4,
        (exceptions | 4) & !4u32 == exceptions & !4u32,
{
}

/// An NMI enters exactly when nothing blocks it: neither STI nor MOV SS nor an
/// NMI that is still being handled. No other part of the state matters.
pub proof fn law_nmi_enters_unless_blocked(interruptibility: u64)
    ensures
        nmi_can_enter(interruptibility) <==> interruptibility % 2 == 0 && interruptibility / 2 % 2
            == 0 && interruptibility / 8 % 2 == 0,
{
    lemma_state_bits(interruptibility, 0);
}

/// The exceptions that exit are the chosen ones, and NMIs in any case; the phase
/// of initialization that chooses them is the only one that changes the choice,
/// the one that powers the APIC page on is the only one that changes the page,
/// and no phase changes anything else.
pub proof fn law_initialization_traps_what_was_asked_and_nmis(
    vp: VpView,
    exceptions: u32,
    phase: InitPhase,
)
    ensures
        ({
            let begun = init_begun(vp, exceptions, phase);
            &&& phase is Guest ==> begun.exception_bitmap & 4 == 4 && begun.exception_bitmap & !4u32
                == exceptions & !4u32
            &&& phase is Guest ==> init_commands(vp, exceptions, phase)
                == crate::vmcs::guest_commands(begun.exception_bitmap)
            &&& !(phase is Guest) ==> begun.exception_bitmap == vp.exception_bitmap
            &&& phase is Apic ==> begun.apic_page == apic_page::powered_on(vp.apic_page)
            &&& !(phase is Apic) ==> begun.apic_page == vp.apic_page
            &&& begun == (VpView {
                exception_bitmap: begun.exception_bitmap,
                apic_page: begun.apic_page,
                ..vp
            })
        }),
{
    lemma_state_bits(0, exceptions);
}

/// A fresh processor has nothing pending, nothing queued and nothing cached, its
/// registers are zero, its timer stands still, only NMIs are trapped, and it is
/// not initialized. It runs if it is the bootstrap processor and waits for a
/// startup IPI otherwise.
pub proof fn law_fresh_processors_have_nothing_pending(
    vm: L2Vm,
    vp_index: u32,
    vp_count: u32,
    is_bsp: bool,
    context: (Seq<u8>, u64),
    page: (Seq<u8>, u64),
)
    ensures
        ({
            let vp = fresh(vm, vp_index, vp_count, is_bsp, context, page);
            &&& vp.vm == vm && vp.vp_index == vp_index && vp.vp_count == vp_count
            &&& vp.context == context.0 && vp.context_gpa == context.1
            &&& vp.apic_page == page.0 && vp.apic_gpa == page.1
            &&& vp.regs == L2GprContext::zeroed()
            &&& vp.cached.segments.len() == 6 && vp.cached.efer == 0 && vp.cached.cr0 == 0
                && vp.cached.cr3 == 0
            &&& vp.instruction.len() == 0 && vp.pending_eois.len() == 0
            &&& !vp.injection_pending && !vp.injection_armed && !vp.nmi_pending
                && !vp.nmi_injection_pending
            &&& vp.exception_bitmap == 4
            &&& vp.fault_gpa is None && !vp.exit_during_delivery && vp.pending_event is None
            &&& !vp.initialized && vp.exceptions == 0
            &&& vp.last_reason == 0xffff && vp.same_reason == 0
            &&& vp.apic_timer.armed is None && vp.apic_timer.initial_count == 0
                && vp.apic_timer.divide == 0 && !vp.apic_timer.periodic && vp.apic_timer.vector == 0
            &&& vp.mp_state == (if is_bsp {
                MpState::Running
            } else {
                MpState::WaitForSipi
            })
        }),
{
}

/// The vectors whose end-of-interrupt exits are the level-triggered ones: each
/// vector has its own bit in the four bitmap fields, 64 vectors to a field in
/// ascending order, and no other field is written.
pub proof fn law_level_triggered_vectors_exit(
    vmcs: Map<u32, u64>,
    tmr: Seq<u32>,
    vector: int,
    other: u32,
)
    requires
        0 <= vector < 256,
        !(field::EOI_EXIT_BITMAP_0 <= other <= field::EOI_EXIT_BITMAP_3),
    ensures
        ({
            let after = crate::vmcs::after_commands(vmcs, eoi_exit_commands(doubled(tmr)));
            let word = after[(field::EOI_EXIT_BITMAP_0 + 2 * (vector / 64)) as u32];
            &&& (word >> ((vector % 64) as u64)) & 1 == 1 <==> apic_page::has_vector(tmr, vector)
            &&& after[other] == vmcs[other]
        }),
{
    let bitmap = doubled(tmr);
    let program = eoi_exit_commands(bitmap);
    let k = vector / 64;
    let f = (0x201c + 2 * k) as u32;
    let command = crate::vmcs::w64(f, bitmap[k]);
    assert(program[k] == command);
    assert(crate::vmcs::sets(program, f, command));
    crate::vmcs::lemma_set_field(vmcs, program, f, command);
    crate::vmcs::lemma_stored_bits(vmcs[f], bitmap[k], 0xffff_ffff_ffff_ffff);
    crate::vmcs::lemma_all_bits(
        crate::vmcs::after_commands(vmcs, program)[f],
        bitmap[k],
    );
    apic_page::law_eoi_exits_for_level_triggered(tmr, bitmap, vector);
    crate::vmcs::law_spared_fields_keep_their_value(vmcs, program, other);
}

/// The state that the emulator is given is the guest's, by name: the segment
/// registers in the emulator's order, ES, CS, SS, DS, FS and GS, each made of its
/// own four fields, and EFER, CR0 and CR3.
pub proof fn law_cached_state_is_read_by_name(vmcs: Map<u32, u64>, values: Seq<u64>)
    requires
        values.len() == CACHE_READS,
        forall|i: int|
            0 <= i < CACHE_READS ==> #[trigger] values[i] == vmcs[cache_reads()[i].field],
    ensures
        ({
            let cached = cache_from(values);
            let s = cached.segments;
            &&& s.len() == 6
            &&& s[0].base == vmcs[field::GUEST_ES_BASE]
            &&& s[0].limit == vmcs[field::GUEST_ES_LIMIT] % 0x1_0000_0000
            &&& s[0].selector == vmcs[field::GUEST_ES_SEL] % 0x1_0000
            &&& s[0].attributes == vmcs[field::GUEST_ES_AR] % 0x1_0000
            &&& s[1].base == vmcs[field::GUEST_CS_BASE]
            &&& s[1].limit == vmcs[field::GUEST_CS_LIMIT] % 0x1_0000_0000
            &&& s[1].selector == vmcs[field::GUEST_CS_SEL] % 0x1_0000
            &&& s[1].attributes == vmcs[field::GUEST_CS_AR] % 0x1_0000
            &&& s[2].base == vmcs[field::GUEST_SS_BASE]
            &&& s[2].limit == vmcs[field::GUEST_SS_LIMIT] % 0x1_0000_0000
            &&& s[2].selector == vmcs[field::GUEST_SS_SEL] % 0x1_0000
            &&& s[2].attributes == vmcs[field::GUEST_SS_AR] % 0x1_0000
            &&& s[3].base == vmcs[field::GUEST_DS_BASE]
            &&& s[3].limit == vmcs[field::GUEST_DS_LIMIT] % 0x1_0000_0000
            &&& s[3].selector == vmcs[field::GUEST_DS_SEL] % 0x1_0000
            &&& s[3].attributes == vmcs[field::GUEST_DS_AR] % 0x1_0000
            &&& s[4].base == vmcs[field::GUEST_FS_BASE]
            &&& s[4].limit == vmcs[field::GUEST_FS_LIMIT] % 0x1_0000_0000
            &&& s[4].selector == vmcs[field::GUEST_FS_SEL] % 0x1_0000
            &&& s[4].attributes == vmcs[field::GUEST_FS_AR] % 0x1_0000
            &&& s[5].base == vmcs[field::GUEST_GS_BASE]
            &&& s[5].limit == vmcs[field::GUEST_GS_LIMIT] % 0x1_0000_0000
            &&& s[5].selector == vmcs[field::GUEST_GS_SEL] % 0x1_0000
            &&& s[5].attributes == vmcs[field::GUEST_GS_AR] % 0x1_0000
            &&& cached.efer == vmcs[field::GUEST_IA32_EFER]
            &&& cached.cr0 == vmcs[field::GUEST_CR0]
            &&& cached.cr3 == vmcs[field::GUEST_CR3]
        }),
{
    lemma_emulator_reads(6);
    let reads = cache_reads();
    assert forall|k: int| 0 <= k < 6 implies {
        let fields = (#[trigger] emulator_segment(k)).layout();
        &&& values[4 * k] == vmcs[fields.base]
        &&& values[4 * k + 1] == vmcs[fields.limit]
        &&& values[4 * k + 2] == vmcs[fields.selector]
        &&& values[4 * k + 3] == vmcs[fields.attributes]
    } by {
        assert(reads[4 * k] == emulator_reads(6)[4 * k]);
        assert(reads[4 * k + 1] == emulator_reads(6)[4 * k + 1]);
        assert(reads[4 * k + 2] == emulator_reads(6)[4 * k + 2]);
        assert(reads[4 * k + 3] == emulator_reads(6)[4 * k + 3]);
    }
    assert(emulator_segment(0) == SegmentName::Es);
    assert(emulator_segment(1) == SegmentName::Cs);
    assert(emulator_segment(2) == SegmentName::Ss);
    assert(emulator_segment(3) == SegmentName::Ds);
    assert(emulator_segment(4) == SegmentName::Fs);
    assert(emulator_segment(5) == SegmentName::Gs);
    assert(reads[24].field == field::GUEST_IA32_EFER);
    assert(reads[25].field == field::GUEST_CR0);
    assert(reads[26].field == field::GUEST_CR3);
}

proof fn lemma_emulator_reads(n: int)
    requires
        0 <= n <= 6,
    ensures
        emulator_reads(n).len() == 4 * n,
        forall|k: int|
            0 <= k < n ==> {
                let reads = crate::vp_state::segment_reads(#[trigger] emulator_segment(k));
                &&& emulator_reads(n)[4 * k] == reads[0]
                &&& emulator_reads(n)[4 * k + 1] == reads[1]
                &&& emulator_reads(n)[4 * k + 2] == reads[2]
                &&& emulator_reads(n)[4 * k + 3] == reads[3]
            },
    decreases n,
{
    if n > 0 {
        lemma_emulator_reads(n - 1);
    }
}

/// The next instruction is where the code segment and RIP say, in 64 bits.
pub proof fn law_instructions_are_relative_to_the_code_segment(vp: VpView)
    ensures
        linear_rip(vp) == (vp.cached.segments[1].base + vp.regs.rip) % 0x1_0000_0000_0000_0000,
{
}

/// The interrupt status that is published names the highest requested vector in
/// its low byte and the highest vector in service in its high byte.
pub proof fn law_status_names_both_vectors(page: Seq<u8>)
    ensures
        page_status(page) % 0x100 == apic_page::highest_or_zero(apic_page::words(page, 0x200)),
        page_status(page) / 0x100 == apic_page::highest_or_zero(apic_page::words(page, 0x100)),
{
}

/// Requesting a vector by hand puts it into the request register, names it in the
/// low byte of the interrupt status and changes nothing else: neither what is in
/// service nor any register of the guest.
pub proof fn law_request_by_hand(vp: VpView, vector: u8, other: int)
    requires
        vp.wf(),
    ensures
        ({
            let after = vector_requested(vp, vector);
            let image = crate::regs::context_at(vp.context);
            let status = crate::regs::context_at(after.context).interrupt_status;
            &&& status % 0x100 == vector
            &&& status / 0x100 == image.interrupt_status / 0x100
            &&& apic_page::has_vector(apic_page::words(after.apic_page, 0x200), other) <==> other
                == vector || apic_page::has_vector(apic_page::words(vp.apic_page, 0x200), other)
            &&& apic_page::words(after.apic_page, 0x100) == apic_page::words(vp.apic_page, 0x100)
            &&& crate::regs::context_at(after.context) == (L2GprContext {
                interrupt_status: status,
                ..image
            })
            &&& after == (VpView {
                apic_page: after.apic_page,
                context: after.context,
                regs: L2GprContext { interrupt_status: status, ..vp.regs },
                ..vp
            })
        }),
{
    let page = apic_page::requested(vp.apic_page, vector);
    let status = (crate::regs::context_at(vp.context).interrupt_status / 0x100 * 0x100 + vector)
        as u16;
    law_status_changes_nothing_else(VpView { apic_page: page, ..vp }, status);
    apic_page::law_request_adds_one_vector(vp.apic_page, vector, other);
}

/// An end of interrupt by hand takes the highest vector out of service, names the
/// highest that is left in the high byte of the interrupt status and changes
/// nothing else; with nothing in service it changes nothing at all.
pub proof fn law_retire_by_hand(vp: VpView, other: int)
    requires
        vp.wf(),
    ensures
        ({
            let after = interrupt_retired(vp);
            let isr = apic_page::words(vp.apic_page, 0x100);
            let left = apic_page::words(after.apic_page, 0x100);
            let image = crate::regs::context_at(vp.context);
            let status = crate::regs::context_at(after.context).interrupt_status;
            &&& !apic_page::in_service(vp.apic_page) ==> after == vp
            &&& apic_page::in_service(vp.apic_page) ==> {
                &&& apic_page::has_vector(left, other) <==> apic_page::has_vector(isr, other)
                    && other != apic_page::highest_or_zero(isr)
                &&& apic_page::words(after.apic_page, 0x200) == apic_page::words(
                    vp.apic_page,
                    0x200,
                )
                &&& status % 0x100 == image.interrupt_status % 0x100
                &&& status / 0x100 == apic_page::highest_or_zero(left)
                &&& crate::regs::context_at(after.context) == (L2GprContext {
                    interrupt_status: status,
                    ..image
                })
                &&& after == (VpView {
                    apic_page: after.apic_page,
                    context: after.context,
                    regs: L2GprContext { interrupt_status: status, ..vp.regs },
                    ..vp
                })
            }
        }),
{
    if apic_page::in_service(vp.apic_page) {
        let isr = apic_page::words(vp.apic_page, apic_page::ISR as int);
        let page = apic_page::retired(vp.apic_page, apic_page::highest_or_zero(isr));
        let svi = apic_page::highest_or_zero(apic_page::words(page, apic_page::ISR as int));
        let status = (crate::regs::context_at(vp.context).interrupt_status % 0x100 + 0x100 * svi)
            as u16;
        law_status_changes_nothing_else(VpView { apic_page: page, ..vp }, status);
        apic_page::law_retire_removes_the_highest(vp.apic_page, other);
    }
}

/// A write to the memory-mapped APIC stands in the page where it was written, if
/// the page has that place, and four bytes of it are also the timer's to see, as
/// a number with the least significant byte first; only the end-of-interrupt
/// register at 0xb0 retires an interrupt instead.
pub proof fn law_lapic_writes_stand_in_the_page(
    vp: VpView,
    offset: int,
    data: Seq<u8>,
    at: std::time::Instant,
    k: int,
)
    requires
        vp.wf(),
        0 <= offset <= usize::MAX,
        0 <= k < 0x1000,
    ensures
        ({
            let after = lapic_written(vp, offset, data, at);
            &&& offset == 0xb0 ==> after == interrupt_retired(vp)
            &&& offset != 0xb0 ==> {
                &&& after.apic_page.len() == 0x1000
                &&& after.apic_page[k] == (if offset <= k < offset + data.len() && offset
                    + data.len() <= 0x1000 {
                    data[k - offset]
                } else {
                    vp.apic_page[k]
                })
                &&& data.len() == 4 ==> after.apic_timer == crate::timer::after_write(
                    vp.apic_timer,
                    offset as usize,
                    crate::bytes::le32(data, 0),
                    at,
                )
                &&& data.len() != 4 ==> after.apic_timer == vp.apic_timer
                &&& after == (VpView {
                    apic_page: after.apic_page,
                    apic_timer: after.apic_timer,
                    ..vp
                })
            }
        }),
{
}

/// Where a local APIC appears, and how large the shared pages are.
pub proof fn law_apic_is_at_its_architectural_place()
    ensures
        LAPIC_BASE == 0xfee0_0000,
        LAPIC_EOI == 0xb0,
        VP_PAGE == 0x1000,
        NMI_TRAP == 4,
{
}

/// How the APIC model's work is dealt with: an INIT first and only once, then a
/// startup IPI if the processor waits for one, and then NMIs, which are queued and
/// looked at unless an event is already queued. Whether an event is left over that
/// cannot be delivered is reported in the end. Nothing but the queued NMI changes.
pub proof fn law_apic_work_comes_in_order(vp: VpView, work: ApicWork, phase: WorkPhase)
    ensures
        ({
            let (step, after) = work_step(vp, work, phase);
            let waits = vp.mp_state == MpState::WaitForSipi;
            let init = work.init && phase is Start;
            let startup = !init && !(phase is Started) && work.sipi is Some && waits;
            let unusable = work.extint || work.interrupt is Some;
            &&& init <==> step is Init
            &&& startup <==> step is Startup
            &&& startup ==> step == (WorkStep::Startup { vector: work.sipi->0 })
            &&& init || startup ==> after == vp
            &&& !init && !startup ==> {
                &&& after.nmi_pending <==> vp.nmi_pending || work.nmi
                &&& after == (VpView { nmi_pending: after.nmi_pending, ..vp })
                &&& after.nmi_pending && !vp.injection_pending ==> step == (
                WorkStep::ReadInterruptibility { unusable })
                &&& !(after.nmi_pending && !vp.injection_pending) ==> step == (WorkStep::Done {
                    unusable,
                })
            }
        }),
{
}

/// One round of the run loop. With the APIC model, the chipset hears what the
/// guest has finished with before vectors are drained and the model has its turn;
/// without it, vectors are drained and delivered by hand. Then a processor that
/// was not started waits, and any other enters; an exit is serviced, what the
/// emulator asked for is queued, the registers are written back, and the round
/// starts over, as it does at once when there is nothing to service.
pub proof fn law_run_loop_rounds(hand_apic: bool, mp_state: MpState, exit: Exit)
    ensures
        next_phase(LoopPhase::CheckStop, false, mp_state, exit) == LoopPhase::ReportEois,
        next_phase(LoopPhase::CheckStop, true, mp_state, exit) == LoopPhase::Drain,
        next_phase(LoopPhase::ReportEois, hand_apic, mp_state, exit) == LoopPhase::Drain,
        next_phase(LoopPhase::Drain, false, mp_state, exit) == LoopPhase::Scan,
        next_phase(LoopPhase::Drain, true, mp_state, exit) == LoopPhase::Deliver,
        next_phase(LoopPhase::Scan, hand_apic, MpState::WaitForSipi, exit) == LoopPhase::Wait,
        next_phase(LoopPhase::Deliver, hand_apic, MpState::WaitForSipi, exit) == LoopPhase::Wait,
        mp_state != MpState::WaitForSipi ==> next_phase(
            LoopPhase::Scan,
            hand_apic,
            mp_state,
            exit,
        ) == LoopPhase::Enter,
        mp_state != MpState::WaitForSipi ==> next_phase(
            LoopPhase::Deliver,
            hand_apic,
            mp_state,
            exit,
        ) == LoopPhase::Enter,
        next_phase(LoopPhase::Enter, hand_apic, mp_state, Exit::Resume) == LoopPhase::CheckStop,
        exit is Serviced ==> next_phase(LoopPhase::Enter, hand_apic, mp_state, exit)
            == LoopPhase::Service,
        next_phase(LoopPhase::Service, hand_apic, mp_state, exit) == LoopPhase::Inject,
        next_phase(LoopPhase::Inject, hand_apic, mp_state, exit) == LoopPhase::WriteBack,
        next_phase(LoopPhase::WriteBack, hand_apic, mp_state, exit) == LoopPhase::CheckStop,
        next_phase(LoopPhase::Wait, hand_apic, mp_state, exit) == LoopPhase::CheckStop,
{
}

/// A trapped exception is given back with what it exited with, the first one is
/// reported, and a page walk goes with the report exactly if that is a page
/// fault.
pub proof fn law_first_exceptions_are_reported(vp: VpView, info: u64, code: u64)
    requires
        info % 0x100 != 2,
    ensures
        exception_step(vp, info, code) matches ExceptionStep::Reflect {
            info: i,
            code: c,
            first,
            walk,
        } && {
            &&& i == info && c == code
            &&& first <==> vp.exceptions == 0
            &&& walk <==> vp.exceptions == 0 && info % 0x100 == 14
        },
{
}

/// Queueing what the emulator asked for uses the request up, marks that an event
/// is queued, and changes nothing else; without a request nothing changes.
pub proof fn law_taken_events_are_used_up(vp: VpView)
    ensures
        vp.pending_event is None ==> event_taken(vp) == vp && event_commands(vp) == Seq::<
            Command,
        >::empty(),
        vp.pending_event matches Some(event) ==> event_taken(vp) == (VpView {
            pending_event: None,
            injection_pending: true,
            ..vp
        }) && event_commands(vp) == event.commands(),
{
}

/// Publishing the register image stores every register of the guest in its page,
/// and a page that was just published reads back as the registers.
pub proof fn law_flushed_registers_read_back(vp: VpView)
    requires
        vp.wf(),
    ensures
        crate::regs::context_at(vp.flushed().context) == vp.regs,
        vp.flushed() == (VpView { context: vp.flushed().context, ..vp }),
{
    crate::regs::law_context_reads_back(vp.context, vp.regs);
}

/// Putting the APIC model's vectors into the page adds them to what is there and
/// changes nothing but the page.
pub proof fn law_publishing_adds_to_the_page(
    vp: VpView,
    irr: Seq<u32>,
    isr: Seq<u32>,
    vector: int,
)
    requires
        vp.wf(),
        irr.len() == 8,
        isr.len() == 8,
    ensures
        ({
            let after = page_published(vp, irr, isr);
            &&& apic_page::has_vector(apic_page::words(after.apic_page, 0x200), vector)
                <==> apic_page::has_vector(apic_page::words(vp.apic_page, 0x200), vector)
                || apic_page::has_vector(irr, vector)
            &&& apic_page::has_vector(apic_page::words(after.apic_page, 0x100), vector)
                <==> apic_page::has_vector(apic_page::words(vp.apic_page, 0x100), vector)
                || apic_page::has_vector(isr, vector)
            &&& after == (VpView { apic_page: after.apic_page, ..vp })
        }),
{
    apic_page::law_push_is_union(vp.apic_page, irr, isr, vector);
}

/// The comparison of the entry state with the page reads both as hardware does:
/// the requesting vector in the low byte and the servicing vector in the high
/// byte of the status, and the highest vector of each register of the page. They
/// agree exactly when both name the same vectors and the page has them.
pub proof fn law_comparison_reads_both_sides(vp: VpView)
    ensures
        ({
            let c = apic_comparison(vp);
            let status = crate::regs::context_at(vp.context).interrupt_status;
            let irr = apic_page::words(vp.apic_page, 0x200);
            let isr = apic_page::words(vp.apic_page, 0x100);
            &&& c.rvi == status % 0x100
            &&& c.svi == status / 0x100
            &&& c.page_irr == apic_page::highest_or_zero(irr)
            &&& c.page_isr == apic_page::highest_or_zero(isr)
            &&& c.rvi_backed <==> c.rvi == 0 || apic_page::has_vector(irr, c.rvi as int)
            &&& c.svi_backed <==> c.svi == 0 || apic_page::has_vector(isr, c.svi as int)
            &&& apic_agrees(vp) <==> c.rvi == c.page_irr && c.svi == c.page_isr && c.rvi_backed
                && c.svi_backed
        }),
{
}

/// A finished port read fills as many low bytes of RAX as the access moves, keeps
/// the rest of RAX and moves RIP behind the instruction; nothing else changes.
pub proof fn law_finished_port_reads<'a>(
    vp: &mut TdpProcessor<'a>,
    size: usize,
    value: u32,
    instruction_length: u32,
)
    requires
        size == 1 || size == 2 || size == 4,
        old(vp)@.regs.rip + instruction_length <= u64::MAX,
        call_ensures(
            TdpProcessor::<'a>::finish_port_read,
            (vp, size, value, instruction_length),
            (),
        ),
    ensures
        ({
            let before = old(vp)@.regs.rax;
            let after = final(vp)@.regs.rax;
            &&& size == 1 ==> after % 0x100 == value % 0x100 && after / 0x100 == before / 0x100
            &&& size == 2 ==> after % 0x1_0000 == value % 0x1_0000 && after / 0x1_0000 == before
                / 0x1_0000
            &&& size == 4 ==> after % 0x1_0000_0000 == value && after / 0x1_0000_0000 == before
                / 0x1_0000_0000
            &&& final(vp)@ == (VpView {
                regs: L2GprContext {
                    rax: after,
                    rip: (old(vp)@.regs.rip + instruction_length) as u64,
                    ..old(vp)@.regs
                },
                ..old(vp)@
            })
        }),
{
    law_port_reads_fill_the_low_bytes(old(vp)@.regs.rax, value);
}

/// A finished read of a control register loads the named register, a finished
/// read of an MSR loads EDX and EAX, and each moves RIP behind the instruction;
/// without an APIC model to ask, an MSR access faults and changes nothing.
pub proof fn law_finished_register_reads<'a>(
    cr: &mut TdpProcessor<'a>,
    msr: &mut TdpProcessor<'a>,
    gp: Gp,
    value: u64,
    answer: Option<u64>,
    instruction_length: u32,
    outcome: MsrOutcome,
)
    requires
        old(cr)@.regs.rip + instruction_length <= u64::MAX,
        old(msr)@.regs.rip + instruction_length <= u64::MAX,
        call_ensures(TdpProcessor::<'a>::finish_cr_read, (cr, gp, value, instruction_length), ()),
        call_ensures(
            TdpProcessor::<'a>::finish_msr_read,
            (msr, answer, instruction_length),
            outcome,
        ),
    ensures
        final(cr)@.regs.value(gp) == value,
        final(cr)@.regs.rip == old(cr)@.regs.rip + instruction_length,
        final(cr)@ == (VpView {
            regs: L2GprContext {
                rip: (old(cr)@.regs.rip + instruction_length) as u64,
                ..old(cr)@.regs.with_gp(gp, value)
            },
            ..old(cr)@
        }),
        answer is None ==> outcome == MsrOutcome::InjectGp && final(msr)@ == old(msr)@,
        answer matches Some(read) ==> outcome == MsrOutcome::Retired && final(msr)@ == (VpView {
            regs: L2GprContext {
                rax: read % 0x1_0000_0000,
                rdx: read / 0x1_0000_0000,
                rip: (old(msr)@.regs.rip + instruction_length) as u64,
                ..old(msr)@.regs
            },
            ..old(msr)@
        }),
{
    crate::regs::law_gp_reads_back(old(cr)@.regs, gp, value, gp);
}

/// A finished write of an MSR moves RIP behind the instruction if the model took
/// it, and faults without changing anything if there is no model; retiring an
/// instruction moves RIP by its length and changes nothing else.
pub proof fn law_finished_writes_retire<'a>(
    msr: &mut TdpProcessor<'a>,
    other: &mut TdpProcessor<'a>,
    written: bool,
    instruction_length: u32,
    outcome: MsrOutcome,
)
    requires
        old(msr)@.regs.rip + instruction_length <= u64::MAX,
        old(other)@.regs.rip + instruction_length <= u64::MAX,
        call_ensures(
            TdpProcessor::<'a>::finish_msr_write,
            (msr, written, instruction_length),
            outcome,
        ),
        call_ensures(TdpProcessor::<'a>::retire, (other, instruction_length), ()),
    ensures
        written ==> outcome == MsrOutcome::Retired && final(msr)@.regs.rip == old(msr)@.regs.rip
            + instruction_length,
        !written ==> outcome == MsrOutcome::InjectGp && final(msr)@.regs.rip == old(msr)@.regs.rip,
        final(msr)@ == (VpView {
            regs: L2GprContext { rip: final(msr)@.regs.rip, ..old(msr)@.regs },
            ..old(msr)@
        }),
        final(other)@.regs.rip == old(other)@.regs.rip + instruction_length,
        final(other)@ == (VpView {
            regs: L2GprContext { rip: final(other)@.regs.rip, ..old(other)@.regs },
            ..old(other)@
        }),
{
}

/// A memory fault is recorded with its address, and as one during the delivery of
/// an event exactly when the vectoring information is valid; the access is to the
/// local APIC exactly when its address is in the page at 0xfee0_0000. A trapped
/// exception is counted unless it is an NMI.
pub proof fn law_faults_are_recorded<'a>(
    memory: &mut TdpProcessor<'a>,
    trapped: &mut TdpProcessor<'a>,
    gpa: u64,
    vectoring: u64,
    lapic: bool,
    info: u64,
    code: u64,
    step: ExceptionStep,
)
    requires
        old(trapped)@.exceptions < u64::MAX,
        call_ensures(TdpProcessor::<'a>::take_memory_fault, (memory, gpa, vectoring), lapic),
        call_ensures(TdpProcessor::<'a>::take_exception, (trapped, info, code), step),
    ensures
        lapic <==> 0xfee0_0000 <= gpa < 0xfee0_1000,
        final(memory)@.fault_gpa == Some(gpa),
        final(memory)@.exit_during_delivery <==> vectoring / 0x8000_0000 % 2 == 1,
        final(memory)@ == (VpView {
            fault_gpa: Some(gpa),
            exit_during_delivery: final(memory)@.exit_during_delivery,
            ..old(memory)@
        }),
        final(trapped)@.exceptions == old(trapped)@.exceptions + (if info % 0x100 == 2 {
            0int
        } else {
            1
        }),
        final(trapped)@ == (VpView { exceptions: final(trapped)@.exceptions, ..old(trapped)@ }),
        step == exception_step(old(trapped)@, info, code),
{
}

/// What the guest has finished with is reported once and in order: what is queued
/// comes behind what was there, and taking it leaves nothing.
pub proof fn law_eois_are_reported_in_order<'a>(
    queued: &mut TdpProcessor<'a>,
    emptied: &mut TdpProcessor<'a>,
    vectors: &Vec<u8>,
    taken: Vec<u8>,
)
    requires
        call_ensures(TdpProcessor::<'a>::queue_eois, (queued, vectors), ()),
        old(emptied)@ == final(queued)@,
        call_ensures(TdpProcessor::<'a>::take_eois, (emptied,), taken),
    ensures
        taken@ == old(queued)@.pending_eois + vectors@,
        final(emptied)@ == (VpView { pending_eois: Seq::empty(), ..old(queued)@ }),
{
}

/// An entry is made with the call that enters this processor's L2 VM on its own
/// register image.
pub proof fn law_entries_use_the_processors_image<'a>(
    vp: &mut TdpProcessor<'a>,
    begun: (Vec<Command>, TdcallArgs),
)
    requires
        old(vp)@.wf(),
        call_ensures(TdpProcessor::<'a>::begin_entry, (vp,), begun),
    ensures
        begun.1.rax == 25,
        begun.1.rcx >> 52 == old(vp)@.vm.vm_id,
        begun.1.rcx & 0xf_ffff_ffff_ffff == 0,
        begun.1.rdx == old(vp)@.context_gpa,
        begun.1.r8 == 0 && begun.1.r9 == 0,
        begun.0@ == before_entry(old(vp)@),
        final(vp)@ == entry_begun(old(vp)@),
{
    crate::tdx::lemma_entry_operands(old(vp)@.vm.vm_id as u64, 0, 0, 0);
}

/// An exit that the host took is serviced with the reason the entry gave and the
/// qualification and instruction length that the VMCS holds for it; a failed
/// entry is reported with its status and the instruction error, zero if that
/// could not be read.
pub proof fn law_host_exits_are_looked_up(
    vmcs: Map<u32, u64>,
    reads: [VmcsRead; 2],
    reason: u16,
    exit: Exit,
    status: u64,
    instruction_error: Option<u64>,
    error: TdxError,
)
    requires
        call_ensures(exit_reads, (), reads),
        call_ensures(
            host_routed_exit,
            (reason, vmcs[reads@[0].field], vmcs[reads@[1].field]),
            exit,
        ),
        call_ensures(entry_error, (status, instruction_error), error),
    ensures
        exit == (Exit::Serviced {
            reason,
            qualification: vmcs[field::EXIT_QUALIFICATION],
            instruction_length: (vmcs[field::EXIT_INSTRUCTION_LEN] % 0x1_0000_0000) as u32,
        }),
        reads@[0].width == Width::Bits64,
        reads@[1].width == Width::Bits32,
        error matches TdxError::Enter { status: s, instruction_error: e } && s == status && e == (
        match instruction_error {
            Some(read) => read,
            None => 0,
        }),
{
}

/// A trapped exception is described by the interruption information, the error
/// code and CR3, in this order.
pub proof fn law_exceptions_are_looked_up<'a>(reads: [VmcsRead; 3])
    requires
        call_ensures(TdpProcessor::<'a>::exception_reads, (), reads),
    ensures
        reads@[0] == (VmcsRead { field: field::EXIT_INTR_INFO, width: Width::Bits32 }),
        reads@[1] == (VmcsRead { field: field::EXIT_INTR_ERROR_CODE, width: Width::Bits32 }),
        reads@[2] == (VmcsRead { field: field::GUEST_CR3, width: Width::Bits64 }),
{
}

/// A pending NMI is published exactly when nothing blocks it, through the field
/// that injects events; it is then queued like any event, no longer pending, and
/// has the NMI trap out of its way for the next entry.
pub proof fn law_published_nmis_are_queued<'a>(
    vp: &mut TdpProcessor<'a>,
    vmcs: Map<u32, u64>,
    interruptibility: u64,
    command: Option<Command>,
)
    requires
        call_ensures(TdpProcessor::<'a>::nmi_command, (interruptibility,), command),
        call_ensures(TdpProcessor::<'a>::nmi_published, (vp,), ()),
    ensures
        command is Some <==> interruptibility % 2 == 0 && interruptibility / 2 % 2 == 0
            && interruptibility / 8 % 2 == 0,
        command matches Some(command) ==> crate::vmcs::holds(
            crate::vmcs::after_command(vmcs, command),
            field::ENTRY_INTR_INFO,
            0xffff_ffff,
            0x8000_0202,
        ),
        final(vp)@.injection_pending && final(vp)@.nmi_injection_pending && !final(vp)@.nmi_pending,
        final(vp)@ == (VpView {
            injection_pending: true,
            nmi_injection_pending: true,
            nmi_pending: false,
            ..old(vp)@
        }),
{
    law_nmi_enters_unless_blocked(interruptibility);
    crate::vmcs::lemma_stored_bits(vmcs[field::ENTRY_INTR_INFO], 0x8000_0202, 0xffff_ffff);
}

/// Repetitions are counted from zero and start over with every change: of an exit
/// reason, which is reported once in fifty thousand times, and of entries without
/// an exit, which are reported once in as many as the sample says.
pub proof fn law_repetitions_are_counted<'a>(
    vp: &mut TdpProcessor<'a>,
    reason: u16,
    report: Option<u64>,
    resumes: u64,
    exit: Exit,
    sample: u64,
    counted: (u64, bool),
)
    requires
        old(vp)@.same_reason < u64::MAX,
        resumes < u64::MAX,
        sample != 0,
        call_ensures(TdpProcessor::<'a>::note_exit, (vp, reason), report),
        call_ensures(count_resumes, (resumes, exit, sample), counted),
    ensures
        final(vp)@.last_reason == reason,
        reason == old(vp)@.last_reason ==> final(vp)@.same_reason == old(vp)@.same_reason + 1,
        reason != old(vp)@.last_reason ==> final(vp)@.same_reason == 0 && report is None,
        report is Some <==> reason == old(vp)@.last_reason && (final(vp)@.same_reason + 1) % 50_000
            == 0,
        report matches Some(count) ==> count == final(vp)@.same_reason,
        final(vp)@ == (VpView {
            last_reason: reason,
            same_reason: final(vp)@.same_reason,
            ..old(vp)@
        }),
        exit is Resume ==> counted.0 == resumes + 1,
        exit is Serviced ==> counted.0 == 0,
        counted.1 <==> counted.0 % sample == sample - 1,
{
    let count = final(vp)@.same_reason as int;
    assert(count % 50_000 == 49_999 <==> (count + 1) % 50_000 == 0);
}

/// A read of the memory-mapped APIC gives the bytes of the page at that place,
/// and nothing when the page does not have all of them.
pub proof fn law_lapic_reads_come_from_the_page<'a>(
    vp: &TdpProcessor<'a>,
    address: u64,
    data: &mut [u8],
    k: int,
)
    requires
        vp@.wf(),
        0xfee0_0000 <= address,
        address - 0xfee0_0000 + old(data)@.len() <= usize::MAX,
        call_ensures(TdpProcessor::<'a>::lapic_read, (vp, address, data), ()),
        0 <= k < old(data)@.len(),
    ensures
        final(data)@.len() == old(data)@.len(),
        final(data)@[k] == (if address - 0xfee0_0000 + old(data)@.len() <= 0x1000 {
            vp@.apic_page[address - 0xfee0_0000 + k]
        } else {
            old(data)@[k]
        }),
{
}

/// A fetched instruction runs off the address space exactly when its sources do
/// and every one of them supplied its byte.
pub proof fn law_fetched_instructions<'a>(
    vp: &mut TdpProcessor<'a>,
    sources: &Vec<FetchSource>,
    low: &Vec<Option<u8>>,
    runs_off: bool,
    ran_off: bool,
)
    requires
        low@.len() == sources@.len(),
        call_ensures(TdpProcessor::<'a>::fetch_instruction, (vp, sources, low, runs_off), ran_off),
    ensures
        final(vp)@.instruction.len() <= sources@.len(),
        ran_off <==> runs_off && final(vp)@.instruction.len() == sources@.len(),
        final(vp)@ == (VpView {
            instruction: crate::paging::assembled(sources@, low@, sources@.len() as int),
            ..old(vp)@
        }),
{
    crate::paging::law_instruction_is_what_the_sources_supply(
        sources@,
        low@,
        sources@.len() as int,
        0,
    );
}

/// A run state that was set is the one that is reported, with nothing pending; an
/// activity with something pending is refused and changes nothing.
pub proof fn law_run_state_reads_back<'a>(
    vp: &mut TdpProcessor<'a>,
    after: &TdpProcessor<'a>,
    value: &Activity,
    set: Result<(), TdpError>,
    reported: Activity,
)
    requires
        call_ensures(TdpProcessor::<'a>::set_activity, (vp, value), set),
        after@ == final(vp)@,
        call_ensures(TdpProcessor::<'a>::activity, (after,), reported),
    ensures
        ({
            let pending = value.nmi_pending || value.nmi_masked || value.interrupt_shadow
                || value.pending_event || value.pending_interruption;
            &&& set is Ok <==> !pending
            &&& set is Ok ==> reported == *value
            &&& set is Err ==> final(vp)@ == old(vp)@
            &&& reported.mp_state == after@.mp_state
            &&& final(vp)@ == (VpView { mp_state: final(vp)@.mp_state, ..old(vp)@ })
        }),
{
}

/// CPUID is asked of the machine with the leaf in EAX and the subleaf in ECX, and
/// answered with what an L2 of this partition sees of the answer; it is all that
/// the exit calls for.
pub proof fn law_cpuid_exits_ask_the_machine<'a>(
    vp: &mut TdpProcessor<'a>,
    qualification: u64,
    instruction_length: u32,
    action: ServiceAction,
)
    requires
        old(vp)@.wf(),
        old(vp)@.regs.rip + instruction_length <= u64::MAX,
        call_ensures(
            TdpProcessor::<'a>::service,
            (vp, 10u16, qualification, instruction_length),
            action,
        ),
    ensures
        action is Done,
        final(vp)@.regs.rip == old(vp)@.regs.rip + instruction_length,
        exists|host: crate::cpuid::CpuidResult|
            {
                let view = #[trigger] crate::cpuid::l2_view(
                    (old(vp)@.regs.rax % 0x1_0000_0000) as u32,
                    (old(vp)@.regs.rcx % 0x1_0000_0000) as u32,
                    old(vp)@.vp_index,
                    old(vp)@.vp_count,
                    host,
                );
                &&& crate::cpuid::host_answered(
                    (old(vp)@.regs.rax % 0x1_0000_0000) as u32,
                    (old(vp)@.regs.rcx % 0x1_0000_0000) as u32,
                    host,
                )
                &&& final(vp)@.regs.rax == view[0]
                &&& final(vp)@.regs.rbx == view[1]
                &&& final(vp)@.regs.rcx == view[2]
                &&& final(vp)@.regs.rdx == view[3]
            },
{
    let leaf = (old(vp)@.regs.rax % 0x1_0000_0000) as u32;
    let subleaf = (old(vp)@.regs.rcx % 0x1_0000_0000) as u32;
    let host = choose|host: crate::cpuid::CpuidResult|
        crate::cpuid::host_answered(leaf, subleaf, host) && final(vp)@ == cpuid_answered(
            old(vp)@,
            #[trigger] crate::cpuid::l2_view(
                leaf,
                subleaf,
                old(vp)@.vp_index,
                old(vp)@.vp_count,
                host,
            ),
            instruction_length,
        );
    let view = crate::cpuid::l2_view(
        leaf,
        subleaf,
        old(vp)@.vp_index,
        old(vp)@.vp_count,
        host,
    );
    law_cpuid_answers_stand_in_their_registers(old(vp)@, view, instruction_length);
}

/// Addresses are translated with the cached control registers: with paging off in
/// the cached CR0 an address is its own translation, and with paging on it lies
/// in the page that the walk from the cached CR3 ends at.
pub proof fn law_translations_use_the_cached_registers<'a>(
    vp: &TdpProcessor<'a>,
    memory: &TdpMemory<'_>,
    gva: u64,
    translated: Option<u64>,
)
    requires
        memory.wf(),
        call_ensures(TdpProcessor::<'a>::translate, (vp, memory, gva), translated),
    ensures
        vp@.cached.cr0 / 0x8000_0000 % 2 == 0 ==> translated == Some(gva),
        vp@.cached.cr0 / 0x8000_0000 % 2 == 1 ==> (translated matches Some(gpa) ==> {
            let table = (vp@.cached.cr3 % 0x10_0000_0000_0000 / 0x1000 * 0x1000) as u64;
            let last = crate::paging::walk_entries(
                memory.extents(),
                memory.bytes(),
                table,
                gva,
                3,
            ).last();
            let size = crate::paging::page_size(last.level);
            &&& gpa < 0x10_0000_0000_0000
            &&& last.entry matches Some(entry)
            &&& gpa / size == (entry % 0x10_0000_0000_0000) / size
            &&& gpa % size == gva % size
        }),
{
    crate::paging::law_translation_is_the_page_of_the_last_entry(
        memory.extents(),
        memory.bytes(),
        vp@.cached.cr0,
        vp@.cached.cr3,
        gva,
    );
}

/// Registers that were set are in the processor and in the image for its next
/// entry at once, and what an exit left in the image is what is loaded from it.
pub proof fn law_register_image_follows_the_registers<'a>(
    set: &mut TdpProcessor<'a>,
    loaded: &mut TdpProcessor<'a>,
    value: &Registers,
    program: Vec<Command>,
)
    requires
        old(set)@.wf(),
        old(loaded)@.wf(),
        call_ensures(TdpProcessor::<'a>::set_registers, (set, value), program),
        call_ensures(TdpProcessor::<'a>::load_registers, (loaded,), ()),
        old(loaded)@.context == final(set)@.context,
    ensures
        final(loaded)@.regs == final(set)@.regs,
        final(set)@.regs.rax == value.rax && final(set)@.regs.rip == value.rip
            && final(set)@.regs.rflags == value.rflags && final(set)@.regs.rsp == value.rsp,
        final(set)@.regs == crate::vp_state::with_general(old(set)@.regs, *value),
        program@ == crate::vp_state::register_commands(*value),
        final(loaded)@ == (VpView { regs: final(set)@.regs, ..old(loaded)@ }),
{
    let changed = VpView {
        regs: crate::vp_state::with_general(old(set)@.regs, *value),
        ..old(set)@
    };
    law_flushed_registers_read_back(changed);
}

/// What is pulled out of the page is what it held, requested and in service each
/// for itself, and the page has none of it left; what disagrees with the page is
/// reported exactly when something does.
pub proof fn law_pulled_vectors_are_the_pages<'a>(
    vp: &mut TdpProcessor<'a>,
    pulled: ([u32; 8], [u32; 8]),
    checked: &TdpProcessor<'a>,
    report: Option<ApicDisagreement>,
    vector: int,
)
    requires
        old(vp)@.wf(),
        checked@.wf(),
        call_ensures(TdpProcessor::<'a>::pull_apic, (vp,), pulled),
        call_ensures(TdpProcessor::<'a>::check_apic, (checked,), report),
    ensures
        apic_page::has_vector(pulled.0@, vector) <==> apic_page::has_vector(
            apic_page::words(old(vp)@.apic_page, 0x200),
            vector,
        ),
        apic_page::has_vector(pulled.1@, vector) <==> apic_page::has_vector(
            apic_page::words(old(vp)@.apic_page, 0x100),
            vector,
        ),
        !apic_page::has_vector(apic_page::words(final(vp)@.apic_page, 0x200), vector),
        !apic_page::has_vector(apic_page::words(final(vp)@.apic_page, 0x100), vector),
        final(vp)@ == (VpView { apic_page: final(vp)@.apic_page, ..old(vp)@ }),
        report is None <==> apic_agrees(checked@),
        report matches Some(found) ==> found == apic_comparison(checked@),
{
    apic_page::law_pull_leaves_nothing_behind(old(vp)@.apic_page, vector);
}

/// What happened to a processor is noted where it belongs and nowhere else: an
/// event that was queued, an exception that the emulator asked for, that it was
/// initialized, and that it was started.
pub proof fn law_notes_stand_where_they_belong<'a>(
    queued: &mut TdpProcessor<'a>,
    asked: &mut TdpProcessor<'a>,
    programmed: &mut TdpProcessor<'a>,
    running: &mut TdpProcessor<'a>,
    event: EmulatorEvent,
)
    requires
        call_ensures(TdpProcessor::<'a>::injected, (queued,), ()),
        call_ensures(TdpProcessor::<'a>::inject_pending_event, (asked, event), ()),
        call_ensures(TdpProcessor::<'a>::initialization_done, (programmed,), ()),
        call_ensures(TdpProcessor::<'a>::started, (running,), ()),
    ensures
        final(queued)@.injection_pending,
        final(queued)@ == (VpView { injection_pending: true, ..old(queued)@ }),
        final(asked)@.pending_event == Some(event),
        final(asked)@ == (VpView { pending_event: Some(event), ..old(asked)@ }),
        final(programmed)@.initialized,
        final(programmed)@ == (VpView { initialized: true, ..old(programmed)@ }),
        final(running)@.mp_state == MpState::Running,
        final(running)@ == (VpView { mp_state: MpState::Running, ..old(running)@ }),
{
}

} // verus!
