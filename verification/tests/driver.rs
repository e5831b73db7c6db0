use virt_tdp::driver::ior;
use virt_tdp::driver::iow;
use virt_tdp::driver::iowr;
use virt_tdp::driver::TdApi;
use virt_tdp::driver::TdMemory;
use virt_tdp::driver::TdVpEnter;
use virt_tdp::driver::TdcallArgs;
use virt_tdp::driver::TdcallDevice;
use virt_tdp::driver::ALLOC_RESERVED;
use virt_tdp::error::DriverError;
use virt_tdp::error::WriteError;

fn device() -> TdcallDevice {
    TdcallDevice::open(TdApi { abi_version: 1, struct_size: 32, features: 3 }).unwrap()
}

#[test]
fn request_codes_follow_the_ioctl_layout() {
    assert_eq!(iowr(1, 72), 0xc048_5401);
    assert_eq!(iow(2, 8), 0x4008_5402);
    assert_eq!(ior(3, 32), 0x8020_5403);
    assert_ne!(iow(2, 8), ior(2, 8));
}

#[test]
fn another_abi_is_refused() {
    let api = TdApi { abi_version: 2, struct_size: 32, features: 3 };
    assert_eq!(TdcallDevice::open(api), Err(DriverError::UnsupportedAbi { abi_version: 2 }));
    let short = TdApi { abi_version: 1, struct_size: 31, features: 3 };
    assert_eq!(TdcallDevice::open(short), Err(DriverError::UnsupportedAbi { abi_version: 1 }));
}

#[test]
fn missing_operations_are_refused() {
    let api = TdApi { abi_version: 1, struct_size: 32, features: 1 };
    assert_eq!(TdcallDevice::open(api), Err(DriverError::MissingFeatures { features: 1 }));
    let more = TdApi { abi_version: 1, struct_size: 40, features: 7 };
    assert!(TdcallDevice::open(more).is_ok());
}

#[test]
fn requests_carry_their_operands() {
    let device = device();
    assert_eq!(device.claim_vm(1).vm_id, 1);
    let kick = device.kick_vp(5);
    assert_eq!((kick.vp_index, kick.flags), (5, 0));
    let memory = device.alloc_memory(4096, 1);
    assert_eq!((memory.size, memory.flags, memory.gpa, memory.offset), (4096, 1, 0, 0));
    let reserved = device.alloc_reserved();
    assert_eq!((reserved.size, reserved.flags), (0, ALLOC_RESERVED));
    let register = device.register_memory(0x1000, 0x2000);
    assert_eq!((register.address, register.size, register.flags), (0x1000, 0x2000, 0));
    assert_eq!(device.query_huge_1g(0x1000, 0x4000_0000).flags, 1);
}

#[test]
fn a_kick_is_not_a_failure() {
    let args = TdcallArgs { rax: 25, ..TdcallArgs::default() };
    let request = device().vp_enter(0, args);
    let after = TdVpEnter { args: TdcallArgs { rax: 12, ..args }, ..request };
    assert_eq!(TdcallDevice::vp_enter_reply(true, false, request, after), Ok(Some(after.args)));
    assert_eq!(TdcallDevice::vp_enter_reply(false, true, request, after), Ok(None));
    assert_eq!(
        TdcallDevice::vp_enter_reply(false, false, request, after),
        Err(DriverError::TdcallFailed { leaf: 25 })
    );
}

#[test]
fn shared_memory_is_written_in_place() {
    let mut bytes = vec![0u8; 8];
    let mut memory = TdMemory::new(&mut bytes, 0x7000);
    assert_eq!(memory.gpa(), 0x7000);
    assert_eq!(memory.len(), 8);
    assert_eq!(memory.write_at(2, &[1, 2, 3]), Ok(()));
    assert_eq!(memory.as_slice(), &[0, 0, 1, 2, 3, 0, 0, 0]);
    assert_eq!(memory.write_at(5, &[9, 9, 9]), Ok(()));
    memory.as_mut_slice()[0] = 7;
    assert_eq!(bytes, vec![7, 0, 1, 2, 3, 9, 9, 9]);
}

#[test]
fn writes_that_do_not_fit_change_nothing() {
    let mut bytes = vec![0u8; 8];
    let mut memory = TdMemory::new(&mut bytes, 0);
    assert_eq!(
        memory.write_at(6, &[1, 2, 3]),
        Err(WriteError::ExceedsRegion { length: 3, offset: 6, region: 8 })
    );
    assert_eq!(memory.write_at(usize::MAX, &[1]), Err(WriteError::OffsetOverflow));
    assert_eq!(memory.write_at(8, &[]), Ok(()));
    assert_eq!(bytes, vec![0u8; 8]);
}

#[test]
fn a_tdcall_fails_only_with_its_request() {
    let request = TdcallArgs { rax: 9, ..TdcallArgs::default() };
    let reply = TdcallArgs { rax: 0xc000_0000_0000_0000, ..request };
    assert_eq!(TdcallDevice::tdcall(true, request, reply), Ok(reply));
    assert_eq!(
        TdcallDevice::tdcall(false, request, reply),
        Err(DriverError::TdcallFailed { leaf: 9 })
    );
}
