use std::collections::HashMap;
use virt_tdp::error::StateElement;
use virt_tdp::error::TdpError;
use virt_tdp::tdx::vmcs_write_mask;
use virt_tdp::vmcs::field;
use virt_tdp::vmcs::update_value;
use virt_tdp::vmcs::Command;
use virt_tdp::vp_state::accept_activity;
use virt_tdp::vp_state::activity;
use virt_tdp::vp_state::register_program;
use virt_tdp::vp_state::register_reads;
use virt_tdp::vp_state::registers;
use virt_tdp::vp_state::restore_unmodelled;
use virt_tdp::vp_state::set_general;
use virt_tdp::vp_state::snapshot_unmodelled;
use virt_tdp::vp_state::startup_registers;
use virt_tdp::vp_state::Activity;
use virt_tdp::vp_state::MpState;
use virt_tdp::vp_state::Registers;
use virt_tdp::vp_state::SegmentRegister;
use virt_tdp::vp_state::TableRegister;
use virt_tdp::L2GprContext;

fn segment(n: u16) -> SegmentRegister {
    SegmentRegister {
        base: 0x1_0000 * u64::from(n),
        limit: 0xffff_0000 + u32::from(n),
        attributes: 0xa000 + n,
        selector: 8 * n,
    }
}

fn sample() -> Registers {
    Registers {
        rax: 1,
        rcx: 2,
        rdx: 3,
        rbx: 4,
        rsp: 5,
        rbp: 6,
        rsi: 7,
        rdi: 8,
        r8: 9,
        r9: 10,
        r10: 11,
        r11: 12,
        r12: 13,
        r13: 14,
        r14: 15,
        r15: 16,
        rip: 0xfff0,
        rflags: 2,
        cs: segment(1),
        ds: segment(2),
        es: segment(3),
        fs: segment(4),
        gs: segment(5),
        ss: segment(6),
        tr: segment(7),
        ldtr: segment(8),
        gdtr: TableRegister { base: 0x100, limit: 0x27 },
        idtr: TableRegister { base: 0x200, limit: 0xfff },
        cr0: 0x8000_0001,
        cr2: 0,
        cr3: 0x5000,
        cr4: 0x20,
        cr8: 0,
        efer: 0x500,
    }
}

fn run(vmcs: &mut HashMap<u32, u64>, program: &[Command]) {
    for command in program {
        let (field, width, value) = match *command {
            Command::WriteVmcs { field, width, value } => (field, width, value),
            Command::UpdateVmcs { field, width, clear, set } => {
                let current = vmcs.get(&field).copied().unwrap_or(0);
                (field, width, update_value(current, clear, set))
            }
            _ => continue,
        };
        let mask = vmcs_write_mask(field, width);
        let current = vmcs.get(&field).copied().unwrap_or(0);
        vmcs.insert(field, (current & !mask) | (value & mask));
    }
}

#[test]
fn set_registers_read_back() {
    let value = sample();
    let mut vmcs = HashMap::new();
    let program = register_program(&value);
    assert_eq!(program.len(), 43);
    run(&mut vmcs, &program);
    let regs = set_general(
        &L2GprContext { ssp: 77, interrupt_status: 5, ..L2GprContext::default() },
        &value,
    );
    assert_eq!((regs.ssp, regs.interrupt_status), (77, 5));
    let reads = register_reads();
    assert_eq!(reads.len(), 40);
    let values: Vec<u64> = reads.iter().map(|read| vmcs[&read.field]).collect();
    assert_eq!(registers(&regs, &values), value);
}

#[test]
fn the_module_keeps_its_bits() {
    let mut vmcs = HashMap::new();
    vmcs.insert(field::GUEST_CR0, 0x20);
    vmcs.insert(field::GUEST_CR4, 0x2040);
    run(&mut vmcs, &register_program(&sample()));
    // CR0.NE and CR4.VMXE are not the L1's to clear, and CR4.MCE is not either.
    assert_eq!(vmcs[&field::GUEST_CR0], 0x8000_0021);
    assert_eq!(vmcs[&field::GUEST_CR4], 0x2060);
    assert_eq!(vmcs[&field::CR0_SHADOW], 0x8000_0001);
    assert_eq!(vmcs[&field::CR4_SHADOW], 0x20);
}

#[test]
fn long_mode_is_declared_when_it_is_active() {
    let mut vmcs = HashMap::new();
    vmcs.insert(field::ENTRY_CTLS, 0x11ff);
    run(&mut vmcs, &register_program(&sample()));
    assert_eq!(vmcs[&field::ENTRY_CTLS], 0x13ff);
    run(&mut vmcs, &register_program(&Registers { efer: 0x100, ..sample() }));
    assert_eq!(vmcs[&field::ENTRY_CTLS], 0x11ff);
}

#[test]
fn values_are_cut_to_the_size_of_their_registers() {
    let mut values = vec![0u64; 40];
    values[1] = 0x1_2345_6789;
    values[2] = 0x1_0008;
    values[3] = 0x1_a09b;
    values[33] = 0x1_0027;
    let regs = registers(&L2GprContext::default(), &values);
    assert_eq!((regs.cs.limit, regs.cs.selector, regs.cs.attributes), (0x2345_6789, 8, 0xa09b));
    assert_eq!(regs.gdtr.limit, 0x27);
}

#[test]
fn a_startup_ipi_starts_in_real_mode() {
    let started = startup_registers(&sample(), 0x9a);
    assert_eq!(
        started.cs,
        SegmentRegister { base: 0x9_a000, selector: 0x9a00, limit: 0xffff, attributes: 0x9b }
    );
    assert_eq!(started.rip, 0);
    assert_eq!(Registers { cs: sample().cs, rip: sample().rip, ..started }, sample());
}

#[test]
fn pending_activity_cannot_be_set() {
    let plain = activity(MpState::Halted);
    assert!(matches!(accept_activity(&plain), Ok(MpState::Halted)));
    for pending in [
        Activity { nmi_pending: true, ..plain },
        Activity { nmi_masked: true, ..plain },
        Activity { interrupt_shadow: true, ..plain },
        Activity { pending_event: true, ..plain },
        Activity { pending_interruption: true, ..plain },
    ] {
        assert!(matches!(
            accept_activity(&pending),
            Err(TdpError::Unsupported("pending activity state"))
        ));
    }
}

#[test]
fn unmodelled_state_is_only_set_before_the_first_entry() {
    let element = StateElement::Xsave;
    assert!(matches!(snapshot_unmodelled(element), TdpError::Snapshot(StateElement::Xsave)));
    assert!(restore_unmodelled(element, false, false).is_ok());
    assert!(restore_unmodelled(element, true, true).is_ok());
    assert!(matches!(
        restore_unmodelled(element, true, false),
        Err(TdpError::Restore(StateElement::Xsave))
    ));
}
