use virt_tdp::control::cr_write_program;
use virt_tdp::control::emulate_cr_access;
use virt_tdp::control::CrAction;
use virt_tdp::error::ServiceError;
use virt_tdp::msr::emulate_msr;
use virt_tdp::msr::load_msr_value;
use virt_tdp::msr::MsrAction;
use virt_tdp::regs::read_context;
use virt_tdp::regs::write_context;
use virt_tdp::regs::Gp;
use virt_tdp::tdx::Width;
use virt_tdp::vmcs::field;
use virt_tdp::vmcs::Command;
use virt_tdp::L2GprContext;

fn numbered() -> L2GprContext {
    let mut page: Vec<u8> = vec![0; 160];
    for i in 0..19u64 {
        page[(i * 8) as usize..][..8].copy_from_slice(&(0x1_0000_0000 * (i + 1) + i).to_le_bytes());
    }
    page[152] = 0x31;
    page[153] = 0x42;
    read_context(&page)
}

#[test]
fn the_register_image_has_its_layout() {
    let regs = numbered();
    assert_eq!(regs.rax, 0x1_0000_0000);
    assert_eq!(regs.rbx, 0x4_0000_0003);
    assert_eq!(regs.r15, 0x10_0000_000f);
    assert_eq!(regs.rflags, 0x11_0000_0010);
    assert_eq!(regs.rip, 0x12_0000_0011);
    assert_eq!(regs.ssp, 0x13_0000_0012);
    assert_eq!(regs.interrupt_status, 0x4231);
}

#[test]
fn the_register_image_reads_back() {
    let regs = numbered();
    let mut page = vec![0xeeu8; 4096];
    write_context(&mut page, &regs);
    assert_eq!(read_context(&page), regs);
    assert_eq!(page[154], 0xee);
    write_context(&mut page, &L2GprContext::default());
    assert!(page[..154].iter().all(|&byte| byte == 0));
}

#[test]
fn registers_are_numbered_like_the_hardware_does() {
    let regs = numbered();
    let mut copy = L2GprContext::default();
    for number in 0..16 {
        let gp = Gp::from_number(number);
        assert_eq!(regs.gp(gp), 0x1_0000_0000 * (number + 1) + number);
        copy.set_gp(gp, regs.gp(gp));
        assert_eq!(copy.gp(gp), regs.gp(gp));
    }
    assert_eq!(copy.rip, 0);
    assert_eq!(copy.rsp, regs.rsp);
}

fn msr(index: u32, value: u64) -> L2GprContext {
    L2GprContext {
        rcx: 0xffff_ffff_0000_0000 | u64::from(index),
        rax: 0xaaaa_aaaa_0000_0000 | (value & 0xffff_ffff),
        rdx: 0xbbbb_bbbb_0000_0000 | (value >> 32),
        ..L2GprContext::default()
    }
}

#[test]
fn fixed_msrs_have_their_answers() {
    for (index, value) in [
        (0x1b, 0xfee0_0d00),
        (0x1a0, 1),
        (0x8b, 1 << 32),
        (0x17, 0),
        (0xfe, 0),
        (0x2ff, 0x0c00),
        (0x10a, 0),
        (0xce, 0),
    ] {
        assert_eq!(emulate_msr(&msr(index, 0), false), MsrAction::Answer { value });
    }
    assert_eq!(emulate_msr(&msr(0x277, 0), false), MsrAction::ReadPat);
    assert_eq!(emulate_msr(&msr(0x11, 0), false), MsrAction::Unknown);
}

#[test]
fn msr_writes_are_sorted() {
    let value = 0x1234_5678_9abc_def0;
    assert_eq!(emulate_msr(&msr(0x277, value), true), MsrAction::WritePat { value });
    for index in [0x8b, 0x1b, 0x1a0, 0x2ff] {
        assert_eq!(emulate_msr(&msr(index, value), true), MsrAction::Accept);
    }
    assert_eq!(emulate_msr(&msr(0xce, value), true), MsrAction::Unknown);
}

#[test]
fn x2apic_msrs_belong_to_the_model() {
    let value = 0x3_0000_00fd;
    assert_eq!(
        emulate_msr(&msr(0x830, value), true),
        MsrAction::ApicWrite { index: 0x830, value }
    );
    assert_eq!(emulate_msr(&msr(0x800, 0), false), MsrAction::ApicRead { index: 0x800 });
    assert_eq!(emulate_msr(&msr(0x83f, 0), false), MsrAction::ApicRead { index: 0x83f });
    assert_eq!(emulate_msr(&msr(0x840, 0), false), MsrAction::Unknown);
}

#[test]
fn msr_values_go_to_edx_and_eax() {
    let mut regs = numbered();
    load_msr_value(&mut regs, 0x1122_3344_5566_7788);
    assert_eq!((regs.rax, regs.rdx), (0x5566_7788, 0x1122_3344));
    assert_eq!(regs.rcx, numbered().rcx);
}

#[test]
fn control_register_writes_name_register_and_shadow() {
    let regs = numbered();
    assert_eq!(
        emulate_cr_access(&regs, 0x300),
        Ok(CrAction::Write {
            register: field::GUEST_CR0,
            shadow: Some(field::CR0_SHADOW),
            value: regs.rbx,
        })
    );
    assert_eq!(
        emulate_cr_access(&regs, 0xf03),
        Ok(CrAction::Write { register: field::GUEST_CR3, shadow: None, value: regs.r15 })
    );
    assert_eq!(
        emulate_cr_access(&regs, 0x414),
        Ok(CrAction::Read { register: field::GUEST_CR4, gp: Gp::RSP })
    );
}

#[test]
fn unsupported_control_register_accesses_are_refused() {
    let regs = numbered();
    assert_eq!(
        emulate_cr_access(&regs, 0x8),
        Err(ServiceError::ControlRegister { cr: 8 })
    );
    assert_eq!(
        emulate_cr_access(&regs, 0x20),
        Err(ServiceError::ControlRegisterAccess { access_type: 2 })
    );
}

#[test]
fn control_register_writes_update_both_fields() {
    let write = |field, value| Command::WriteVmcs { field, width: Width::Bits64, value };
    assert_eq!(
        cr_write_program(field::GUEST_CR4, Some(field::CR4_SHADOW), 0x20),
        vec![write(field::GUEST_CR4, 0x20), write(field::CR4_SHADOW, 0x20)]
    );
    assert_eq!(
        cr_write_program(field::GUEST_CR3, None, 0x1000),
        vec![write(field::GUEST_CR3, 0x1000)]
    );
}
