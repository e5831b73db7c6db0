use virt_tdp::interrupts::Kick;
use virt_tdp::interrupts::MsiRequest;
use virt_tdp::interrupts::PendingInterrupts;

#[test]
fn a_processor_between_entries_is_not_kicked() {
    let mut pending = PendingInterrupts::new(2);
    assert!(pending.is_empty(1));
    assert_eq!(pending.wake_vp(1), Kick::NotNeeded);
    assert!(!pending.is_empty(1));
    assert!(pending.is_empty(0));
}

#[test]
fn an_entry_is_kicked_once() {
    let mut pending = PendingInterrupts::new(1);
    pending.entry_begin(0);
    assert_eq!(pending.wake_vp(0), Kick::Send);
    assert_eq!(pending.wake_vp(0), Kick::NotNeeded);
    pending.entry_end(0);
    assert_eq!(pending.wake_vp(0), Kick::NotNeeded);
    pending.entry_begin(0);
    assert_eq!(pending.wake_vp(0), Kick::Send);
}

#[test]
fn a_stop_always_kicks_an_entry() {
    let mut pending = PendingInterrupts::new(1);
    assert_eq!(pending.request_yield(0), Kick::NotNeeded);
    pending.entry_begin(0);
    assert_eq!(pending.wake_vp(0), Kick::Send);
    assert_eq!(pending.request_yield(0), Kick::Send);
    assert_eq!(pending.request_yield(0), Kick::Send);
}

#[test]
fn a_drain_takes_only_its_own_vectors() {
    let mut pending = PendingInterrupts::new(3);
    pending.entry_begin(2);
    assert_eq!(pending.request(0x30, &vec![0, 2, 2]), vec![2]);
    assert_eq!(pending.request(0x31, &vec![0]), vec![]);
    assert_eq!(pending.drain(0), vec![0x30, 0x31]);
    assert!(pending.is_empty(0));
    assert!(!pending.is_empty(2));
    assert_eq!(pending.drain(0), vec![]);
    assert_eq!(pending.drain(1), vec![]);
    assert_eq!(pending.drain(2), vec![0x30, 0x30]);
}

#[test]
fn lines_are_routed_by_the_guest() {
    let mut pending = PendingInterrupts::new(1);
    let request = MsiRequest { address: 0xfee0_0000, data: 0x4031 };
    assert_eq!(pending.assert_irq(4), None);
    pending.set_irq_route(4, Some(request));
    assert_eq!(pending.assert_irq(4), Some(request));
    assert_eq!(pending.assert_irq(5), None);
    pending.set_irq_route(4, None);
    assert_eq!(pending.assert_irq(4), None);
    // The IOAPIC has 24 lines.
    pending.set_irq_route(24, Some(request));
    assert_eq!(pending.assert_irq(24), None);
    pending.set_irq_route(23, Some(request));
    assert_eq!(pending.assert_irq(23), Some(request));
}
