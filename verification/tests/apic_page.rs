use virt_tdp::apic_page::eoi_exit_bitmap;
use virt_tdp::apic_page::initialize_apic_page;
use virt_tdp::apic_page::pull_offload;
use virt_tdp::apic_page::push_offload;
use virt_tdp::apic_page::read_apic_registers;
use virt_tdp::apic_page::request_vector;
use virt_tdp::apic_page::retire_highest;
use virt_tdp::apic_page::top;
use virt_tdp::bytes::read32;
use virt_tdp::bytes::read64;
use virt_tdp::bytes::write16;
use virt_tdp::bytes::write64;

fn words(vector: u8) -> [u32; 8] {
    let mut words = [0u32; 8];
    words[usize::from(vector) / 32] |= 1 << (vector % 32);
    words
}

#[test]
fn a_powered_on_apic_masks_its_vectors() {
    let mut page = vec![0xaau8; 4096];
    initialize_apic_page(&mut page);
    assert_eq!(read32(&page, 0x20), 0);
    assert_eq!(read32(&page, 0x30), 0x0005_0014);
    assert_eq!(read32(&page, 0x80), 0);
    assert_eq!(read32(&page, 0xd0), 1 << 24);
    assert_eq!(read32(&page, 0xe0), 0xffff_ffff);
    assert_eq!(read32(&page, 0xf0), 0xff);
    for entry in 0..6 {
        assert_eq!(read32(&page, 0x320 + entry * 0x10), 1 << 16);
    }
    assert_eq!(page[0x324], 0xaa);
    assert_eq!(page[0x380], 0xaa);
}

#[test]
fn the_highest_vector_is_found() {
    assert_eq!(top(&[0; 8]), 0);
    assert_eq!(top(&words(0x30)), 0x30);
    let mut many = words(0x30);
    many[7] = 0x8000_0001;
    assert_eq!(top(&many), 0xff);
}

#[test]
fn requesting_sets_one_bit() {
    let mut page = vec![0u8; 4096];
    request_vector(&mut page, 0x31);
    request_vector(&mut page, 0xef);
    let (irr, isr) = read_apic_registers(&page);
    assert_eq!(irr[1], 1 << 17);
    assert_eq!(irr[7], 1 << 15);
    assert_eq!(isr, [0; 8]);
}

#[test]
fn pulling_takes_the_vectors_out_and_pushing_puts_them_back() {
    let mut page = vec![0x55u8; 4096];
    push_offload(&mut page, &words(0x40), &words(0x50));
    let before = page.clone();
    let (irr, isr) = pull_offload(&mut page);
    assert_eq!(read_apic_registers(&page), ([0; 8], [0; 8]));
    assert_eq!(irr[2], 0x5555_5555 | 1);
    assert_eq!(isr[2], 0x5555_5555 | (1 << 16));
    push_offload(&mut page, &irr, &isr);
    assert_eq!(page, before);
}

#[test]
fn pushing_adds_to_what_is_there() {
    let mut page = vec![0u8; 4096];
    request_vector(&mut page, 0x20);
    push_offload(&mut page, &words(0x21), &[0; 8]);
    let (irr, _) = read_apic_registers(&page);
    assert_eq!(irr[1], 3);
}

#[test]
fn retiring_takes_the_highest_out_of_service() {
    let mut page = vec![0u8; 4096];
    push_offload(&mut page, &[0; 8], &words(0x30));
    push_offload(&mut page, &[0; 8], &words(0x81));
    assert_eq!(retire_highest(&mut page), Some(0x30));
    assert_eq!(retire_highest(&mut page), Some(0));
    assert_eq!(retire_highest(&mut page), None);
}

#[test]
fn level_triggered_vectors_exit_on_eoi() {
    let mut tmr = [0u32; 8];
    tmr[0] = 1;
    tmr[1] = 2;
    tmr[7] = 0x8000_0000;
    assert_eq!(eoi_exit_bitmap(&tmr), [0x2_0000_0001, 0, 0, 0x8000_0000_0000_0000]);
}

#[test]
fn numbers_are_stored_least_significant_byte_first() {
    let mut bytes = vec![0u8; 12];
    write64(&mut bytes, 1, 0x1122_3344_5566_7788);
    assert_eq!(bytes[1..9], [0x88, 0x77, 0x66, 0x55, 0x44, 0x33, 0x22, 0x11]);
    assert_eq!(read64(&bytes, 1), 0x1122_3344_5566_7788);
    write16(&mut bytes, 10, 0xabcd);
    assert_eq!(bytes[9..12], [0, 0xcd, 0xab]);
}
