use virt_tdp::apic_page::read_apic_registers;
use virt_tdp::control::CrAction;
use virt_tdp::driver::TdMemory;
use virt_tdp::error::ServiceError;
use virt_tdp::error::TdpError;
use virt_tdp::error::TdxError;
use virt_tdp::hugemem::Segment;
use virt_tdp::msr::MsrAction;
use virt_tdp::paging::FetchSource;
use virt_tdp::regs::write_context;
use virt_tdp::regs::Gp;
use virt_tdp::tdx::Width;
use virt_tdp::timer::TMICT;
use virt_tdp::vmcs::field;
use virt_tdp::vmcs::Command;
use virt_tdp::vp::count_resumes;
use virt_tdp::vp::entry_error;
use virt_tdp::vp::exit_reads;
use virt_tdp::vp::host_routed_exit;
use virt_tdp::vp::sort_exit;
use virt_tdp::vp::ApicDisagreement;
use virt_tdp::vp::ApicWork;
use virt_tdp::vp::EntryExit;
use virt_tdp::vp::ExceptionStep;
use virt_tdp::vp::Exit;
use virt_tdp::vp::EmulatorEvent;
use virt_tdp::vp::InitPhase;
use virt_tdp::vp::LoopPhase;
use virt_tdp::vp::MsrOutcome;
use virt_tdp::vp::ServiceAction;
use virt_tdp::vp::WorkPhase;
use virt_tdp::vp::WorkStep;
use virt_tdp::vp_state::register_reads;
use virt_tdp::vp_state::Activity;
use virt_tdp::vp_state::MpState;
use virt_tdp::HugeRegion;
use virt_tdp::L2GprContext;
use virt_tdp::L2Vm;
use virt_tdp::TdpMemory;
use virt_tdp::TdpProcessor;
use virt_tdp::VpEnterResult;

struct Pages {
    context: Vec<u8>,
    apic: Vec<u8>,
}

fn pages() -> Pages {
    Pages { context: vec![0; 4096], apic: vec![0; 4096] }
}

fn processor(pages: &mut Pages) -> TdpProcessor<'_> {
    TdpProcessor::new(
        L2Vm::new(1),
        1,
        4,
        true,
        TdMemory::new(&mut pages.context, 0x7000),
        TdMemory::new(&mut pages.apic, 0x8000),
    )
}

fn write32(field: u32, value: u64) -> Command {
    Command::WriteVmcs { field, width: Width::Bits32, value }
}

fn entered() -> VpEnterResult {
    VpEnterResult::Exit { reason: 12, qualification: 0, instruction_length: 1 }
}

#[test]
fn only_the_bootstrap_processor_runs_at_once() {
    let mut pages = pages();
    assert_eq!(processor(&mut pages).mp_state, MpState::Running);
    let mut context = vec![0; 4096];
    let mut apic = vec![0; 4096];
    let vp = TdpProcessor::new(
        L2Vm::new(1),
        1,
        2,
        false,
        TdMemory::new(&mut context, 0),
        TdMemory::new(&mut apic, 0),
    );
    assert_eq!(vp.mp_state, MpState::WaitForSipi);
    assert_eq!(vp.exception_bitmap, 4);
    assert!(!vp.initialized);
    let resume = Exit::Resume;
    assert_eq!(vp.advance(LoopPhase::Scan, false, resume), LoopPhase::Wait);
    assert_eq!(vp.advance(LoopPhase::Deliver, true, resume), LoopPhase::Wait);
}

#[test]
fn initialization_prepares_the_page_and_the_trap() {
    let mut pages = pages();
    let mut vp = processor(&mut pages);
    let features = vp.initialize(0x4000, InitPhase::Features);
    assert_eq!(features.len(), 1);
    assert_eq!((vp.apic_page.as_slice()[0x30], vp.exception_bitmap), (0, 4));
    let apic = vp.initialize(0x4000, InitPhase::Apic);
    assert_eq!((vp.apic_page.as_slice()[0x30], vp.exception_bitmap), (0x14, 4));
    let guest = vp.initialize(0x4000, InitPhase::Guest);
    assert_eq!(vp.exception_bitmap, 0x4004);
    assert!(guest.contains(&write32(field::EXCEPTION_BITMAP, 0x4004)));
    assert!(apic.contains(&Command::WriteVmcs {
        field: field::VIRTUAL_APIC_PAGE,
        width: Width::Bits64,
        value: 0x8000,
    }));
    assert!(!vp.initialized);
    vp.initialization_done();
    assert!(vp.initialized);
}

#[test]
fn entries_name_the_register_image() {
    let mut pages = pages();
    let mut vp = processor(&mut pages);
    let (writes, call) = vp.begin_entry();
    assert!(writes.is_empty());
    assert_eq!((call.rax, call.rcx, call.rdx), (25, 1 << 52, 0x7000));
}

#[test]
fn an_event_is_taken_back_after_its_entry() {
    let mut pages = pages();
    let mut vp = processor(&mut pages);
    assert_eq!(
        TdpProcessor::inject_gp(),
        vec![write32(field::ENTRY_INTR_INFO, 0x8000_0b0d), write32(field::ENTRY_EXCEPTION_EC, 0)]
    );
    vp.injected();
    // A kick wins: the event stays.
    assert!(vp.begin_entry().0.is_empty());
    assert!(vp.finish_entry(VpEnterResult::NoEntry).0.is_empty());
    assert!(vp.injection_pending);
    // The entry delivers it.
    assert!(vp.begin_entry().0.is_empty());
    vp.finish_entry(entered());
    assert!(!vp.injection_pending && vp.injection_armed);
    // The next one is preceded by taking it back, once.
    assert_eq!(vp.begin_entry().0, vec![write32(field::ENTRY_INTR_INFO, 0)]);
    vp.finish_entry(entered());
    assert!(vp.begin_entry().0.is_empty());
}

#[test]
fn a_new_event_replaces_the_delivered_one() {
    let mut pages = pages();
    let mut vp = processor(&mut pages);
    vp.injected();
    vp.begin_entry();
    vp.finish_entry(entered());
    vp.injected();
    assert!(vp.begin_entry().0.is_empty());
}

#[test]
fn an_nmi_gets_one_entry_without_the_trap() {
    let mut pages = pages();
    let mut vp = processor(&mut pages);
    vp.exception_bitmap = 0x4004;
    vp.nmi_published();
    assert!(vp.injection_pending && vp.nmi_injection_pending && !vp.nmi_pending);
    let (writes, _) = vp.begin_entry();
    assert_eq!(writes, vec![write32(field::EXCEPTION_BITMAP, 0x4000)]);
    assert!(vp.finish_entry(VpEnterResult::NoEntry).0.is_empty());
    assert_eq!(vp.begin_entry().0, vec![write32(field::EXCEPTION_BITMAP, 0x4000)]);
    let (writes, _) = vp.finish_entry(entered());
    assert_eq!(writes, vec![write32(field::EXCEPTION_BITMAP, 0x4004)]);
    assert_eq!(vp.begin_entry().0, vec![write32(field::ENTRY_INTR_INFO, 0)]);
}

#[test]
fn entry_results_call_for_different_things() {
    assert_eq!(sort_exit(VpEnterResult::NoEntry), EntryExit::Known(Exit::Resume));
    assert_eq!(
        sort_exit(VpEnterResult::HostRouted { reason: 1 }),
        EntryExit::Known(Exit::Resume)
    );
    assert_eq!(
        sort_exit(VpEnterResult::HostRouted { reason: 48 }),
        EntryExit::ReadExit { reason: 48 }
    );
    assert_eq!(
        sort_exit(entered()),
        EntryExit::Known(Exit::Serviced { reason: 12, qualification: 0, instruction_length: 1 })
    );
    assert_eq!(sort_exit(VpEnterResult::Error(3)), EntryExit::ReadError { status: 3 });
    assert_eq!(exit_reads()[0].field, field::EXIT_QUALIFICATION);
    assert_eq!(exit_reads()[1].field, field::EXIT_INSTRUCTION_LEN);
    assert_eq!(
        host_routed_exit(48, 0x181, 0x1_0000_0003),
        Exit::Serviced { reason: 48, qualification: 0x181, instruction_length: 3 }
    );
    assert_eq!(
        entry_error(3, Some(7)),
        TdxError::Enter { status: 3, instruction_error: 7 }
    );
    assert_eq!(entry_error(3, None), TdxError::Enter { status: 3, instruction_error: 0 });
}

#[test]
fn publishing_agrees_with_the_page() {
    let mut pages = pages();
    let mut vp = processor(&mut pages);
    vp.regs.rax = 5;
    vp.flush_registers();
    let mut irr = [0u32; 8];
    irr[1] = 0x11;
    let mut isr = [0u32; 8];
    isr[2] = 1;
    let mut tmr = [0u32; 8];
    tmr[1] = 0x10;
    let writes = vp.publish_apic(&irr, &isr, &tmr);
    assert_eq!(writes.len(), 4);
    assert_eq!(
        writes[0],
        Command::WriteVmcs {
            field: field::EOI_EXIT_BITMAP_0,
            width: Width::Bits64,
            value: 0x10_0000_0000,
        }
    );
    assert_eq!(vp.regs.interrupt_status, 0);
    vp.publish_status();
    assert_eq!(vp.regs.interrupt_status, 0x4024);
    assert_eq!(vp.read_context().interrupt_status, 0x4024);
    assert_eq!(vp.read_context().rax, 5);
    assert_eq!(vp.check_apic(), None);
    assert_eq!(vp.pull_apic(), (irr, isr));
    assert_eq!(
        vp.check_apic(),
        Some(ApicDisagreement {
            rvi: 0x24,
            svi: 0x40,
            page_irr: 0,
            page_isr: 0,
            rvi_backed: false,
            svi_backed: false,
        })
    );
}

#[test]
fn interrupts_are_requested_and_retired_by_hand() {
    let mut pages = pages();
    let mut vp = processor(&mut pages);
    vp.request_interrupt(0x31);
    assert_eq!(vp.regs.interrupt_status, 0x31);
    let (irr, _) = read_apic_registers(vp.apic_page.as_slice());
    assert_eq!(irr[1], 1 << 17);
    let mut isr = [0u32; 8];
    isr[1] = 1;
    isr[2] = 1;
    vp.publish_apic(&[0; 8], &isr, &[0; 8]);
    vp.publish_status();
    assert_eq!(vp.regs.interrupt_status, 0x4031);
    vp.retire_in_service_interrupt();
    assert_eq!(vp.regs.interrupt_status, 0x2031);
    vp.retire_in_service_interrupt();
    vp.retire_in_service_interrupt();
    assert_eq!(vp.read_context().interrupt_status, 0x0031);
}

#[test]
fn the_memory_mapped_apic_is_the_page() {
    let mut pages = pages();
    let mut vp = processor(&mut pages);
    vp.lapic_write(0xfee0_0080, &[0x20, 0, 0, 0]);
    let mut data = [0xffu8; 4];
    vp.lapic_read(0xfee0_0080, &mut data);
    assert_eq!(data, [0x20, 0, 0, 0]);
    let mut outside = [0xffu8; 4];
    vp.lapic_read(0xfee0_0ffe, &mut outside);
    assert_eq!(outside, [0xff; 4]);
    vp.lapic_write(0xfee0_0000 + TMICT as u64, &[100, 0, 0, 0]);
    assert!(vp.apic_timer.is_armed());
    // An end-of-interrupt retires what is in service and is not stored.
    let mut isr = [0u32; 8];
    isr[1] = 1;
    vp.publish_apic(&[0; 8], &isr, &[0; 8]);
    vp.publish_status();
    vp.lapic_write(0xfee0_00b0, &[1, 0, 0, 0]);
    assert_eq!(vp.regs.interrupt_status, 0);
    assert_eq!(vp.apic_page.as_slice()[0xb0], 0);
}

const NO_WORK: ApicWork =
    ApicWork { init: false, sipi: None, nmi: false, extint: false, interrupt: None };

#[test]
fn apic_work_is_dealt_with_in_order() {
    let mut pages = pages();
    let mut vp = processor(&mut pages);
    let work = ApicWork { init: true, sipi: Some(0x9a), nmi: true, extint: true, ..NO_WORK };
    assert_eq!(vp.handle_apic_work(work, WorkPhase::Start), WorkStep::Init);
    assert!(vp
        .set_activity(&Activity {
            mp_state: MpState::WaitForSipi,
            nmi_pending: false,
            nmi_masked: false,
            interrupt_shadow: false,
            pending_event: false,
            pending_interruption: false,
        })
        .is_ok());
    assert_eq!(
        vp.handle_apic_work(work, WorkPhase::Initialized),
        WorkStep::Startup { vector: 0x9a }
    );
    vp.started();
    assert_eq!(vp.activity().mp_state, MpState::Running);
    assert_eq!(
        vp.handle_apic_work(work, WorkPhase::Started),
        WorkStep::ReadInterruptibility { unusable: true }
    );
    assert!(vp.nmi_pending);
}

#[test]
fn a_running_processor_ignores_a_startup_ipi() {
    let mut pages = pages();
    let mut vp = processor(&mut pages);
    let work = ApicWork { sipi: Some(0x9a), interrupt: Some(3), ..NO_WORK };
    assert_eq!(
        vp.handle_apic_work(work, WorkPhase::Start),
        WorkStep::Done { unusable: true }
    );
}

#[test]
fn an_nmi_waits_for_the_guest_and_for_other_events() {
    let mut pages = pages();
    let mut vp = processor(&mut pages);
    vp.injected();
    let nmi = ApicWork { nmi: true, ..NO_WORK };
    assert_eq!(vp.handle_apic_work(nmi, WorkPhase::Start), WorkStep::Done { unusable: false });
    assert!(vp.nmi_pending);
    vp.begin_entry();
    vp.finish_entry(entered());
    assert_eq!(
        vp.handle_apic_work(NO_WORK, WorkPhase::Start),
        WorkStep::ReadInterruptibility { unusable: false }
    );
    for blocked in [1, 2, 8, 0xb] {
        assert_eq!(TdpProcessor::nmi_command(blocked), None);
    }
    for free in [0, 4, 0x10] {
        assert_eq!(
            TdpProcessor::nmi_command(free),
            Some(write32(field::ENTRY_INTR_INFO, 0x8000_0202))
        );
    }
}

#[test]
fn finished_vectors_are_reported_once() {
    let mut pages = pages();
    let mut vp = processor(&mut pages);
    vp.queue_eois(&vec![0x30, 0x31]);
    vp.queue_eois(&vec![0x32]);
    assert_eq!(vp.take_eois(), vec![0x30, 0x31, 0x32]);
    assert_eq!(vp.take_eois(), vec![]);
}

#[test]
fn cpuid_is_answered_and_retired() {
    let mut pages = pages();
    let mut vp = processor(&mut pages);
    vp.regs = L2GprContext { rax: 0xdead_0000_000b, rcx: 1, rip: 100, ..L2GprContext::default() };
    assert_eq!(vp.service(10, 0, 2), ServiceAction::Done);
    assert_eq!((vp.regs.rax, vp.regs.rbx, vp.regs.rcx, vp.regs.rdx), (2, 4, 0x201, 1));
    assert_eq!(vp.regs.rip, 102);
    vp.answer_cpuid(&[1, 2, 3, 4], 2);
    assert_eq!((vp.regs.rax, vp.regs.rdx, vp.regs.rip), (1, 4, 104));
}

#[test]
fn ports_are_read_and_written() {
    let mut pages = pages();
    let mut vp = processor(&mut pages);
    vp.regs = L2GprContext { rax: 0x1122_3344_5566_7788, rip: 100, ..L2GprContext::default() };
    assert_eq!(
        vp.service(30, 0x03f8_0000, 1),
        ServiceAction::WritePort { port: 0x3f8, size: 1, value: 0x5566_7788 }
    );
    assert_eq!(
        vp.service(30, 0x03fd_0008, 1),
        ServiceAction::ReadPort { port: 0x3fd, size: 1 }
    );
    assert_eq!(vp.regs.rip, 100);
    vp.finish_port_read(1, 0xffff_ff60, 1);
    assert_eq!((vp.regs.rax, vp.regs.rip), (0x1122_3344_5566_7760, 101));
    vp.finish_port_read(2, 0xffff_abcd, 1);
    assert_eq!(vp.regs.rax, 0x1122_3344_5566_abcd);
    vp.finish_port_read(4, 0x0102_0304, 1);
    assert_eq!(vp.regs.rax, 0x1122_3344_0102_0304);
    vp.retire(5);
    assert_eq!(vp.regs.rip, 108);
}

#[test]
fn a_halt_retires_and_is_published() {
    let mut pages = pages();
    let mut vp = processor(&mut pages);
    vp.regs.rip = 100;
    assert!(vp.will_retire(12));
    assert_eq!(vp.service(12, 0, 1), ServiceAction::AwaitInterrupt);
    assert_eq!(vp.read_context().rip, 101);
}

#[test]
fn simple_exits_need_nothing_more() {
    let mut pages = pages();
    let mut vp = processor(&mut pages);
    for reason in [1, 7, 56] {
        assert_eq!(vp.service(reason, 0, 3), ServiceAction::Done);
        assert_eq!(vp.regs.rip, 0);
    }
    for (reason, rip) in [(54, 3), (55, 6)] {
        assert_eq!(vp.service(reason, 0, 3), ServiceAction::Done);
        assert_eq!(vp.regs.rip, rip);
    }
    assert_eq!(vp.service(45, 0x131, 3), ServiceAction::HandleEoi { vector: 0x31 });
    assert_eq!(vp.service(2, 0, 0), ServiceAction::TripleFault);
    assert_eq!(vp.service(0, 0, 0), ServiceAction::ReadException);
    assert_eq!(vp.service(48, 0, 0), ServiceAction::ReadMemoryFault);
    assert_eq!(
        vp.service(14, 9, 0),
        ServiceAction::Fatal(ServiceError::UnknownExit { reason: 14, qualification: 9, rip: 6 })
    );
}

#[test]
fn msr_exits_retire_or_fault() {
    let mut pages = pages();
    let mut vp = processor(&mut pages);
    vp.regs.rcx = 0x1b;
    assert!(vp.will_retire(31));
    assert_eq!(vp.service(31, 0, 2), ServiceAction::Done);
    assert_eq!((vp.regs.rax, vp.regs.rdx, vp.regs.rip), (0xfee0_0d00, 0, 2));
    assert_eq!(vp.service(32, 0, 2), ServiceAction::Done);
    assert_eq!(vp.regs.rip, 4);
    vp.regs.rcx = 0x999;
    assert!(!vp.will_retire(31));
    assert_eq!(vp.service(31, 0, 2), ServiceAction::InjectGp);
    vp.regs.rcx = 0x277;
    assert_eq!(vp.service(31, 0, 2), ServiceAction::Msr(MsrAction::ReadPat));
    vp.regs.rcx = 0x80f;
    vp.regs.rax = 0x1ff;
    assert_eq!(
        vp.service(32, 0, 2),
        ServiceAction::Msr(MsrAction::ApicWrite { index: 0x80f, value: 0x1ff })
    );
    assert_eq!(vp.regs.rip, 4);
    assert_eq!(vp.finish_msr_write(true, 2), MsrOutcome::Retired);
    assert_eq!(vp.regs.rip, 6);
    assert_eq!(vp.finish_msr_write(false, 2), MsrOutcome::InjectGp);
    assert_eq!(vp.finish_msr_read(Some(0x5_0000_0006), 2), MsrOutcome::Retired);
    assert_eq!((vp.regs.rax, vp.regs.rdx, vp.regs.rip), (6, 5, 8));
    assert_eq!(vp.finish_msr_read(None, 2), MsrOutcome::InjectGp);
    assert_eq!(vp.regs.rip, 8);
}

#[test]
fn control_register_exits_are_carried_out_first() {
    let mut pages = pages();
    let mut vp = processor(&mut pages);
    vp.regs.rdi = 0x55;
    assert_eq!(
        vp.service(28, 0x703, 3),
        ServiceAction::Cr(CrAction::Write {
            register: field::GUEST_CR3,
            shadow: None,
            value: 0x55,
        })
    );
    assert_eq!(vp.regs.rip, 0);
    assert_eq!(
        vp.service(28, 0x702, 3),
        ServiceAction::Fatal(ServiceError::ControlRegister { cr: 2 })
    );
    vp.finish_cr_read(Gp::R9, 0x77, 3);
    assert_eq!((vp.regs.r9, vp.regs.rip), (0x77, 3));
}

#[test]
fn exceptions_go_back_to_the_guest_and_nmis_do_not() {
    let mut pages = pages();
    let mut vp = processor(&mut pages);
    let reads = TdpProcessor::exception_reads();
    assert_eq!(reads[0].field, field::EXIT_INTR_INFO);
    assert_eq!(reads[1].field, field::EXIT_INTR_ERROR_CODE);
    assert_eq!(reads[2].field, field::GUEST_CR3);
    assert_eq!(vp.take_exception(0x8000_0202, 0), ExceptionStep::Contained);
    assert_eq!(vp.exceptions, 0);
    assert_eq!(
        vp.take_exception(0x8000_0b0e, 2),
        ExceptionStep::Reflect { info: 0x8000_0b0e, code: 2, first: true, walk: true }
    );
    assert_eq!(
        vp.take_exception(0x8000_0b0e, 2),
        ExceptionStep::Reflect { info: 0x8000_0b0e, code: 2, first: false, walk: false }
    );
    assert_eq!(vp.exceptions, 2);
    assert_eq!(
        TdpProcessor::reflect_exception(0x8000_0b0e, 2),
        vec![write32(field::ENTRY_INTR_INFO, 0x8000_0b0e), write32(field::ENTRY_EXCEPTION_EC, 2)]
    );
}

#[test]
fn memory_faults_are_recorded() {
    let mut pages = pages();
    let mut vp = processor(&mut pages);
    assert!(vp.take_memory_fault(0xfee0_0b0c, 0x8000_0000));
    assert_eq!(vp.fault_gpa, Some(0xfee0_0b0c));
    assert!(vp.exit_during_delivery);
    assert!(!vp.take_memory_fault(0xd000_0000, 0x7fff_ffff));
    assert!(!vp.exit_during_delivery);
}

#[test]
fn cached_state_has_the_emulators_order() {
    let mut pages = pages();
    let mut vp = processor(&mut pages);
    let reads = TdpProcessor::cache_state_reads();
    assert_eq!(reads.len(), 27);
    assert_eq!(reads[0].field, field::GUEST_ES_BASE);
    assert_eq!(reads[4].field, field::GUEST_CS_BASE);
    assert_eq!(reads[26].field, field::GUEST_CR3);
    let values: Vec<u64> = (0..27).collect();
    vp.cache_state(&values);
    assert_eq!(vp.cached.segments[1].base, 4);
    assert_eq!(vp.cached.segments[1].limit, 5);
    assert_eq!(vp.cached.segments[5].attributes, 23);
    assert_eq!((vp.cached.efer, vp.cached.cr0, vp.cached.cr3), (24, 25, 26));
}

#[test]
fn instructions_are_fetched_relative_to_the_code_segment() {
    let mut pages = pages();
    let mut vp = processor(&mut pages);
    let mut bytes = vec![0u8; 0x1000];
    bytes[0xff0] = 0x8b;
    bytes[0xfff] = 0x07;
    let region = HugeRegion::new(&mut bytes, vec![Segment { gpa: 0x10_0000, len: 0x1000 }]);
    let memory = TdpMemory::new(region.unwrap());
    let mut values = vec![0u64; 27];
    values[4] = u64::MAX - 0xf;
    vp.cache_state(&values);
    vp.regs.rip = 0x10_0ff0 + 0x10;
    assert_eq!(vp.translate(&memory, 0x1234), Some(0x1234));
    let (sources, runs_off) = vp.instruction_sources(&memory);
    assert_eq!((sources.len(), runs_off), (16, false));
    assert_eq!(sources[15], FetchSource::Ram(7));
    let low = vec![None; 16];
    assert!(!vp.fetch_instruction(&sources, &low, runs_off));
    assert_eq!(vp.instruction.len(), 16);
    assert_eq!(vp.instruction[0], 0x8b);
}

#[test]
fn an_unreadable_byte_ends_the_fetch_before_the_address_space_does() {
    let mut pages = pages();
    let mut vp = processor(&mut pages);
    let sources = vec![FetchSource::Low(0x500), FetchSource::Low(0x501)];
    assert!(!vp.fetch_instruction(&sources, &vec![Some(0xf4), None], true));
    assert_eq!(vp.instruction, vec![0xf4]);
    assert!(vp.fetch_instruction(&sources, &vec![Some(0xf4), Some(0x90)], true));
    assert_eq!(vp.instruction, vec![0xf4, 0x90]);
    assert!(!vp.fetch_instruction(&sources, &vec![Some(0xf4), Some(0x90)], false));
}

#[test]
fn registers_are_set_and_published() {
    let mut pages = pages();
    let mut vp = processor(&mut pages);
    let values = vec![0u64; register_reads().len()];
    vp.regs.interrupt_status = 3;
    let mut regs = vp.registers(&values);
    regs.rsi = 0x99;
    regs.rip = 0x1000;
    let program = vp.set_registers(&regs);
    assert_eq!(program.len(), 43);
    assert_eq!((vp.regs.rsi, vp.regs.rip, vp.regs.interrupt_status), (0x99, 0x1000, 3));
    assert_eq!(vp.read_context(), vp.regs);
}

#[test]
fn the_guests_image_is_taken_over() {
    let mut pages = pages();
    let image = L2GprContext { rbp: 0x44, rip: 7, ..L2GprContext::default() };
    write_context(&mut pages.context, &image);
    let mut vp = processor(&mut pages);
    vp.load_registers();
    assert_eq!(vp.regs, image);
}

#[test]
fn pending_activity_is_refused() {
    let mut pages = pages();
    let mut vp = processor(&mut pages);
    let activity = Activity { nmi_pending: true, ..vp.activity() };
    assert!(matches!(
        vp.set_activity(&activity),
        Err(TdpError::Unsupported("pending activity state"))
    ));
}

#[test]
fn the_run_loop_goes_round() {
    let mut pages = pages();
    let vp = processor(&mut pages);
    let exit = Exit::Serviced { reason: 12, qualification: 0, instruction_length: 1 };
    let mut seen = vec![];
    let mut phase = LoopPhase::CheckStop;
    for _ in 0..8 {
        seen.push(phase);
        phase = vp.advance(phase, false, exit);
    }
    assert_eq!(
        seen,
        vec![
            LoopPhase::CheckStop,
            LoopPhase::ReportEois,
            LoopPhase::Drain,
            LoopPhase::Scan,
            LoopPhase::Enter,
            LoopPhase::Service,
            LoopPhase::Inject,
            LoopPhase::WriteBack,
        ]
    );
    assert_eq!(phase, LoopPhase::CheckStop);
    assert_eq!(vp.advance(LoopPhase::CheckStop, true, exit), LoopPhase::Drain);
    assert_eq!(vp.advance(LoopPhase::Drain, true, exit), LoopPhase::Deliver);
    assert_eq!(vp.advance(LoopPhase::Enter, false, Exit::Resume), LoopPhase::CheckStop);
    assert_eq!(vp.advance(LoopPhase::Wait, false, Exit::Resume), LoopPhase::CheckStop);
}

#[test]
fn repeating_exits_are_reported_now_and_then() {
    let mut pages = pages();
    let mut vp = processor(&mut pages);
    assert_eq!(vp.note_exit(10), None);
    vp.same_reason = 49_998;
    assert_eq!(vp.note_exit(10), Some(49_999));
    assert_eq!(vp.note_exit(10), None);
    assert_eq!(vp.note_exit(12), None);
    assert_eq!(vp.same_reason, 0);
}

#[test]
fn long_runs_without_an_exit_are_sampled() {
    let exit = Exit::Serviced { reason: 12, qualification: 0, instruction_length: 1 };
    assert_eq!(count_resumes(3, Exit::Resume, 5), (4, true));
    assert_eq!(count_resumes(4, Exit::Resume, 5), (5, false));
    assert_eq!(count_resumes(9, exit, 5), (0, false));
    assert_eq!(count_resumes(9, exit, 1), (0, true));
}

#[test]
fn the_emulators_exception_is_injected_once() {
    let mut pages = pages();
    let mut vp = processor(&mut pages);
    assert_eq!(vp.take_pending_event(), vec![]);
    assert!(!vp.injection_pending);

    vp.inject_pending_event(EmulatorEvent { vector: 13, error_code: Some(0x18) });
    assert_eq!(
        vp.take_pending_event(),
        vec![write32(field::ENTRY_INTR_INFO, 0x8000_0b0d), write32(field::ENTRY_EXCEPTION_EC, 0x18)]
    );
    assert_eq!(vp.take_pending_event(), vec![]);
    assert_eq!(vp.begin_entry().0, vec![]);
    vp.finish_entry(entered());
    assert_eq!(vp.begin_entry().0, vec![write32(field::ENTRY_INTR_INFO, 0)]);

    vp.inject_pending_event(EmulatorEvent { vector: 6, error_code: None });
    assert_eq!(vp.take_pending_event(), vec![write32(field::ENTRY_INTR_INFO, 0x8000_0306)]);
    assert!(vp.injection_pending);
}
