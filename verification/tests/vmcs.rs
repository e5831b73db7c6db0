use std::collections::HashMap;
use virt_tdp::driver::TdcallArgs;
use virt_tdp::error::TdxError;
use virt_tdp::tdx::vmcs_write_mask;
use virt_tdp::tdx::Width;
use virt_tdp::vmcs::apic_program;
use virt_tdp::vmcs::command_step;
use virt_tdp::vmcs::configure_64bit;
use virt_tdp::vmcs::disable_optional_l2_features;
use virt_tdp::vmcs::field;
use virt_tdp::vmcs::guest_program;
use virt_tdp::vmcs::set_segment;
use virt_tdp::vmcs::update_value;
use virt_tdp::vmcs::Command;
use virt_tdp::vmcs::CommandStep;
use virt_tdp::vmcs::GuestState;
use virt_tdp::vmcs::SegmentName;
use virt_tdp::L2Vm;

/// Carry a program out on a VMCS that keeps the bits the L1 does not own.
fn run(vmcs: &mut HashMap<u32, u64>, program: &[Command]) {
    for command in program {
        let (field, width, value) = match *command {
            Command::WriteVmcs { field, width, value } => (field, width, value),
            Command::UpdateVmcs { field, width, clear, set } => {
                let current = vmcs.get(&field).copied().unwrap_or(0);
                (field, width, update_value(current, clear, set))
            }
            _ => continue,
        };
        let mask = vmcs_write_mask(field, width);
        let current = vmcs.get(&field).copied().unwrap_or(0);
        vmcs.insert(field, (current & !mask) | (value & mask));
    }
}

const STATE: GuestState =
    GuestState { cr3: 0x1000, rip: 0x2000, rsp: 0x3000, virtual_apic_gpa: 0x4000 };

#[test]
fn a_configured_guest_starts_in_long_mode() {
    let mut vmcs = HashMap::new();
    vmcs.insert(field::ENTRY_CTLS, 0x11ff);
    vmcs.insert(field::ENTRY_INTR_INFO, 0x8000_0202);
    run(&mut vmcs, &configure_64bit(&STATE, false));
    assert_eq!(vmcs[&field::GUEST_CR0], 0x8000_0011);
    assert_eq!(vmcs[&field::CR0_SHADOW], 0x8000_0031);
    assert_eq!(vmcs[&field::GUEST_CR3], 0x1000);
    assert_eq!(vmcs[&field::GUEST_CR4], 0x20);
    assert_eq!(vmcs[&field::GUEST_IA32_EFER], 0x500);
    assert_eq!(vmcs[&field::ENTRY_CTLS], 0x13ff);
    assert_eq!(vmcs[&field::ENTRY_INTR_INFO], 0);
    assert_eq!(vmcs[&field::GUEST_RSP], 0x3000);
    assert_eq!(vmcs[&field::VIRTUAL_APIC_PAGE], 0x4000);
    assert_eq!(vmcs[&field::EXCEPTION_BITMAP], 0);
    assert_eq!(vmcs[&field::GUEST_CS_AR], 0xa09b);
    assert_eq!(vmcs[&field::GUEST_TR_LIMIT], 0xffff);
    assert_eq!(vmcs[&field::GUEST_IA32_PAT], 0x0007_0406_0007_0406);
    assert_eq!(vmcs[&field::GUEST_DR7], 0x400);
}

#[test]
fn trapping_everything_is_a_diagnostic() {
    let mut vmcs = HashMap::new();
    run(&mut vmcs, &configure_64bit(&STATE, true));
    assert_eq!(vmcs[&field::EXCEPTION_BITMAP], 0xfffb_ffff);
}

#[test]
fn optional_features_are_turned_off() {
    assert_eq!(
        disable_optional_l2_features(&L2Vm::new(1)),
        Command::WriteTdvps { field_id: 0xa020_0003_0000_0051, value: 0, mask: 7 }
    );
}

#[test]
fn a_segment_is_four_fields() {
    let mut program = vec![Command::Invept];
    set_segment(&mut program, SegmentName::Tr, 0x20, 5, 0xffff, 0x8b);
    assert_eq!(
        program,
        vec![
            Command::Invept,
            Command::WriteVmcs { field: 0x080e, width: Width::Bits16, value: 0x20 },
            Command::WriteVmcs { field: 0x6814, width: Width::Bits64, value: 5 },
            Command::WriteVmcs { field: 0x480e, width: Width::Bits32, value: 0xffff },
            Command::WriteVmcs { field: 0x4822, width: Width::Bits32, value: 0x8b },
        ]
    );
}

#[test]
fn initialization_clears_events_and_opens_msrs() {
    let vm = L2Vm::new(1);
    let mut program = vec![disable_optional_l2_features(&vm)];
    program.extend(apic_program(0x9000));
    assert_eq!(program[1], Command::SetApicBase { base: 0xfee0_0d00 });
    program.extend(guest_program(0x4004));
    assert_eq!(program[program.len() - 1], Command::Invept);
    let mut vmcs = HashMap::new();
    vmcs.insert(field::ENTRY_INTR_INFO, 0x8000_0202);
    run(&mut vmcs, &program);
    assert_eq!(vmcs[&field::ENTRY_INTR_INFO], 0);
    assert_eq!(vmcs[&field::EXCEPTION_BITMAP], 0x4004);
    assert_eq!(vmcs[&field::VIRTUAL_APIC_PAGE], 0x9000);
    let msrs: Vec<u32> = program
        .iter()
        .filter_map(|command| match command {
            Command::PassthroughMsr { msr } => Some(*msr),
            _ => None,
        })
        .collect();
    assert_eq!(msrs.len(), 18);
    assert_eq!(msrs[..4], [0x808, 0x80b, 0x83f, 0x10]);
    assert_eq!(msrs[17], 0xc000_0103);
}

fn reply(rax: u64, r8: u64) -> TdcallArgs {
    TdcallArgs { rax, r8, ..TdcallArgs::default() }
}

#[test]
fn a_write_is_one_call() {
    let vm = L2Vm::new(1);
    let command = Command::WriteVmcs { field: 0x6802, width: Width::Bits64, value: 5 };
    assert_eq!(
        command_step(&vm, command, &vec![]),
        CommandStep::Call(vm.write_vmcs(0x6802, Width::Bits64, 5))
    );
    assert_eq!(command_step(&vm, command, &vec![reply(0, 0)]), CommandStep::Done);
    assert_eq!(
        command_step(&vm, command, &vec![reply(7, 0)]),
        CommandStep::Failed(TdxError::WriteVmcs { field: 0x6802, value: 5, status: 7 })
    );
}

#[test]
fn an_update_reads_and_writes_back() {
    let vm = L2Vm::new(1);
    let command =
        Command::UpdateVmcs { field: 0x4012, width: Width::Bits32, clear: 0xf, set: 0x200 };
    assert_eq!(
        command_step(&vm, command, &vec![]),
        CommandStep::Call(vm.read_vmcs(0x4012, Width::Bits32))
    );
    assert_eq!(
        command_step(&vm, command, &vec![reply(0, 0x1ff)]),
        CommandStep::Call(vm.write_vmcs(0x4012, Width::Bits32, 0x3f0))
    );
    assert_eq!(
        command_step(&vm, command, &vec![reply(3, 0)]),
        CommandStep::Failed(TdxError::ReadVmcs { field: 0x4012, status: 3 })
    );
    assert_eq!(
        command_step(&vm, command, &vec![reply(0, 0x1ff), reply(0, 0)]),
        CommandStep::Done
    );
    assert_eq!(
        command_step(&vm, command, &vec![reply(0, 0x1ff), reply(4, 0)]),
        CommandStep::Failed(TdxError::WriteVmcs { field: 0x4012, value: 0x3f0, status: 4 })
    );
}

#[test]
fn passing_an_msr_through_takes_two_calls() {
    let vm = L2Vm::new(1);
    let command = Command::PassthroughMsr { msr: 0x10 };
    let calls = vm.passthrough_msr(0x10).unwrap();
    assert_eq!(command_step(&vm, command, &vec![]), CommandStep::Call(calls[0]));
    assert_eq!(command_step(&vm, command, &vec![reply(0, 0)]), CommandStep::Call(calls[1]));
    assert_eq!(
        command_step(&vm, command, &vec![reply(0, 0), reply(0, 0)]),
        CommandStep::Done
    );
    assert_eq!(
        command_step(&vm, command, &vec![reply(0, 0), reply(8, 0)]),
        CommandStep::Failed(TdxError::ClearMsrIntercept { msr: 0x10, status: 8 })
    );
    assert_eq!(
        command_step(&vm, Command::PassthroughMsr { msr: 0x2000 }, &vec![]),
        CommandStep::Failed(TdxError::MsrOutsideBitmap { msr: 0x2000 })
    );
}

#[test]
fn the_other_commands_are_one_step() {
    let vm = L2Vm::new(1);
    let tdvps = Command::WriteTdvps { field_id: 9, value: 1, mask: 3 };
    assert_eq!(
        command_step(&vm, tdvps, &vec![]),
        CommandStep::Call(vm.write_tdvps(9, 1, 3))
    );
    assert_eq!(
        command_step(&vm, tdvps, &vec![reply(2, 0)]),
        CommandStep::Failed(TdxError::WriteTdvps { field_id: 9, status: 2 })
    );
    assert_eq!(command_step(&vm, tdvps, &vec![reply(0, 0)]), CommandStep::Done);
    assert_eq!(
        command_step(&vm, Command::SetApicBase { base: 6 }, &vec![]),
        CommandStep::SetApicBase(6)
    );
    assert_eq!(
        command_step(&vm, Command::SetApicBase { base: 6 }, &vec![reply(0, 0)]),
        CommandStep::Done
    );
    assert_eq!(command_step(&vm, Command::Invept, &vec![]), CommandStep::Call(vm.invept()));
    // Whatever an invalidation replies, it is done.
    assert_eq!(command_step(&vm, Command::Invept, &vec![reply(9, 0)]), CommandStep::Done);
}
