use virt_tdp::driver::TdcallArgs;
use virt_tdp::error::TdxError;
use virt_tdp::tdx::build_field_id;
use virt_tdp::tdx::gpa_attr;
use virt_tdp::tdx::page_attr_operands;
use virt_tdp::tdx::vmcs_write_mask;
use virt_tdp::tdx::GrantStep;
use virt_tdp::tdx::L2Vm;
use virt_tdp::tdx::VpEnterResult;
use virt_tdp::tdx::Width;
use virt_tdp::tdx::MAX_GRANT_TRIES;

fn reply(rax: u64) -> TdcallArgs {
    TdcallArgs { rax, ..TdcallArgs::default() }
}

#[test]
fn grant_sets_attributes_without_invalidation() {
    let (attributes, flags) = page_attr_operands(1, gpa_attr::RWX, gpa_attr::RWX, false);
    assert_eq!(attributes, 0x8007_0000);
    assert_eq!(flags, 0x0007_0000);
}

#[test]
fn revoke_clears_permissions_and_requests_invalidation() {
    let (attributes, flags) = page_attr_operands(1, 0, gpa_attr::RWX, true);
    assert_eq!(attributes, 0x8000_0000);
    assert_eq!(flags, 0x8007_0000);
}

#[test]
fn widths_have_sizes_and_masks() {
    assert_eq!(Width::Bits16.elem_size(), 1);
    assert_eq!(Width::Bits32.elem_size(), 2);
    assert_eq!(Width::Bits64.elem_size(), 3);
    assert_eq!(Width::Bits16.default_mask(), 0xffff);
    assert_eq!(Width::Bits32.default_mask(), 0xffff_ffff);
    assert_eq!(Width::Bits64.default_mask(), u64::MAX);
}

#[test]
fn field_identifiers_are_assembled() {
    assert_eq!(build_field_id(36, 2, true, 3, 0x6800), 0x2428_0003_0000_6800);
    assert_eq!(build_field_id(36, 2, false, 3, 0x6800), 0x2420_0003_0000_6800);
    // Bits that do not fit are dropped.
    assert_eq!(build_field_id(0x40, 8, false, 4, 0x1_0000_0001), 1);
}

#[test]
fn write_masks_leave_out_what_the_module_owns() {
    assert_eq!(vmcs_write_mask(0x6800, Width::Bits64), 0x8005_001f);
    assert_eq!(vmcs_write_mask(0x4012, Width::Bits32), 0x200);
    assert_eq!(vmcs_write_mask(0x4004, Width::Bits32), 0xffff_ffff_fffb_ffff);
    assert_eq!(vmcs_write_mask(0x0800, Width::Bits16), 0xffff);
    assert_eq!(vmcs_write_mask(0x6802, Width::Bits64), u64::MAX);
}

#[test]
fn slots_are_read_from_the_td() {
    let call = L2Vm::num_l2_vms();
    assert_eq!(call.rax, 7);
    assert_eq!(call.rdx, 0x9010_0001_0000_0005);
    let answer = TdcallArgs { r8: 3, ..TdcallArgs::default() };
    assert_eq!(L2Vm::num_l2_vms_result(answer), Ok(3));
    assert_eq!(L2Vm::num_l2_vms_result(reply(5)), Err(TdxError::ReadL2Slots { status: 5 }));
}

#[test]
fn vmcs_fields_are_read_and_written() {
    let vm = L2Vm::new(1);
    assert_eq!(vm.vm_id(), 1);
    let read = vm.read_vmcs(0x6800, Width::Bits64);
    assert_eq!((read.rax, read.rdx), (9, 0x2420_0003_0000_6800));
    let write = vm.write_vmcs(0x6800, Width::Bits64, 0x31);
    assert_eq!((write.rax, write.rdx), (10, 0x2428_0003_0000_6800));
    assert_eq!((write.r8, write.r9), (0x31, 0x8005_001f));
    // The second L2 has the next classes.
    assert_eq!(L2Vm::new(2).read_vmcs(0x6800, Width::Bits64).rdx, 0x2c20_0003_0000_6800);

    let value = TdcallArgs { r8: 77, ..TdcallArgs::default() };
    assert_eq!(L2Vm::read_vmcs_result(0x6800, value), Ok(77));
    assert_eq!(
        L2Vm::read_vmcs_result(0x6800, reply(9)),
        Err(TdxError::ReadVmcs { field: 0x6800, status: 9 })
    );
    assert_eq!(L2Vm::write_vmcs_result(0x6800, 1, reply(0)), Ok(()));
    assert_eq!(
        L2Vm::write_vmcs_result(0x6800, 1, reply(9)),
        Err(TdxError::WriteVmcs { field: 0x6800, value: 1, status: 9 })
    );
}

#[test]
fn tdvps_fields_are_written() {
    let vm = L2Vm::new(1);
    let call = vm.write_tdvps(0x51, 0, 7);
    assert_eq!((call.rax, call.rdx, call.r8, call.r9), (10, 0x51, 0, 7));
    assert_eq!(L2Vm::write_tdvps_result(0x51, reply(0)), Ok(()));
    assert_eq!(
        L2Vm::write_tdvps_result(0x51, reply(2)),
        Err(TdxError::WriteTdvps { field_id: 0x51, status: 2 })
    );
}

#[test]
fn grants_carry_the_page_and_the_level() {
    let vm = L2Vm::new(1);
    let call = vm.add_page_alias(0x1234_5000, gpa_attr::RWX);
    assert_eq!((call.rax, call.rcx), (24, 0x1234_5000));
    assert_eq!((call.rdx, call.r8), (0x8007_0000, 0x0007_0000));
    assert_eq!(vm.add_page_alias_level(0x4000_0000, 2, gpa_attr::R).rcx, 0x4000_0002);
}

#[test]
fn grants_are_retried_until_they_take_effect() {
    let vm = L2Vm::new(1);
    let done = TdcallArgs { rdx: 0x8007_0000, ..TdcallArgs::default() };
    assert_eq!(vm.add_page_alias_result(0x1000, gpa_attr::RWX, 1, done), GrantStep::Granted(1));
    let other = TdcallArgs { rdx: 0x8000_0000, ..TdcallArgs::default() };
    assert_eq!(
        vm.add_page_alias_result(0x1000, gpa_attr::RWX, 1, other),
        GrantStep::Retry { tries: 2 }
    );
    let busy = reply(0x8000_0200_0000_0000);
    assert_eq!(
        vm.add_page_alias_result(0x1000, gpa_attr::RWX, 7, busy),
        GrantStep::Retry { tries: 8 }
    );
    assert_eq!(
        vm.add_page_alias_result(0x1000, gpa_attr::RWX, MAX_GRANT_TRIES, busy),
        GrantStep::Failed(TdxError::GrantNeverTookEffect { gpa: 0x1000 })
    );
    assert_eq!(
        vm.add_page_alias_result(0x1000, gpa_attr::RWX, 1, reply(3)),
        GrantStep::Failed(TdxError::GrantPage { gpa: 0x1000, status: 3 })
    );
}

#[test]
fn revocations_have_to_take_effect() {
    let vm = L2Vm::new(1);
    let call = vm.drop_page_alias(0x5000);
    assert_eq!((call.rax, call.rcx, call.rdx, call.r8), (24, 0x5000, 0x8000_0000, 0x8007_0000));
    let done = TdcallArgs { rdx: 0x8000_0000, ..TdcallArgs::default() };
    assert_eq!(vm.drop_page_alias_result(0x5000, done), Ok(()));
    assert_eq!(
        vm.drop_page_alias_result(0x5000, reply(4)),
        Err(TdxError::RevokePage { gpa: 0x5000, status: 4 })
    );
    let left = TdcallArgs { rdx: 0x8001_0000, ..TdcallArgs::default() };
    assert_eq!(
        vm.drop_page_alias_result(0x5000, left),
        Err(TdxError::RevokeDidNotTakeEffect { gpa: 0x5000, attributes: 0x8001_0000 })
    );
}

#[test]
fn msr_intercepts_are_cleared_for_reads_and_writes() {
    let vm = L2Vm::new(1);
    let calls = vm.passthrough_msr(0xc000_0080).unwrap();
    // Bit 128 of the second range: word 130, bit 0.
    assert_eq!(calls[0].rdx, build_field_id(37, 2, true, 3, 130));
    assert_eq!(calls[1].rdx, build_field_id(37, 2, true, 3, 256 + 130));
    assert_eq!((calls[0].r8, calls[0].r9), (0, 1));
    let calls = vm.passthrough_msr(0x49).unwrap();
    assert_eq!(calls[0].rdx, build_field_id(37, 2, true, 3, 1));
    assert_eq!(calls[0].r9, 1 << 9);
    assert_eq!(
        vm.passthrough_msr(0x2000),
        Err(TdxError::MsrOutsideBitmap { msr: 0x2000 })
    );
    assert_eq!(
        L2Vm::passthrough_msr_result(0x49, reply(6)),
        Err(TdxError::ClearMsrIntercept { msr: 0x49, status: 6 })
    );
    assert_eq!(vm.read_msr_bitmap(5).rdx, build_field_id(37, 2, false, 3, 5));
    assert_eq!(
        L2Vm::read_msr_bitmap_result(5, reply(1)),
        Err(TdxError::ReadMsrBitmap { qword: 5, status: 1 })
    );
    let word = TdcallArgs { r8: 0xff, ..TdcallArgs::default() };
    assert_eq!(L2Vm::read_msr_bitmap_result(5, word), Ok(0xff));
}

#[test]
fn entry_and_invalidation_name_the_vm() {
    let vm = L2Vm::new(1);
    assert_eq!((vm.invept().rax, vm.invept().rcx), (26, 2));
    let call = vm.enter(0x7000);
    assert_eq!((call.rax, call.rcx, call.rdx), (25, 1 << 52, 0x7000));
}

#[test]
fn entry_results_are_sorted_by_class() {
    assert_eq!(L2Vm::enter_result(None), VpEnterResult::NoEntry);
    assert_eq!(
        L2Vm::enter_result(Some(reply(0x0000_1120_0000_0000))),
        VpEnterResult::NoEntry
    );
    assert_eq!(
        L2Vm::enter_result(Some(reply(0x0000_1100_0000_0030))),
        VpEnterResult::HostRouted { reason: 48 }
    );
    assert_eq!(
        L2Vm::enter_result(Some(reply(0x0000_1101_0000_0001))),
        VpEnterResult::HostRouted { reason: 1 }
    );
    let exit = TdcallArgs {
        rax: 12,
        rcx: 0x99,
        r11: 0x3_0000_0005,
        ..TdcallArgs::default()
    };
    assert_eq!(
        L2Vm::enter_result(Some(exit)),
        VpEnterResult::Exit { reason: 12, qualification: 0x99, instruction_length: 3 }
    );
    let pending = TdcallArgs { rax: 0x0000_1102_0000_0007, ..TdcallArgs::default() };
    assert_eq!(
        L2Vm::enter_result(Some(pending)),
        VpEnterResult::Exit { reason: 7, qualification: 0, instruction_length: 0 }
    );
    assert_eq!(
        L2Vm::enter_result(Some(reply(0xc000_0000_0000_0000))),
        VpEnterResult::Error(0xc000_0000_0000_0000)
    );
}
