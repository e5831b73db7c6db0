//! The interface of the restricted TDCALL device.
//!
//! TDCALL is a ring-0 instruction, so a kernel driver issues it on behalf of
//! the monitor. This module holds what travels over that interface: the request
//! codes, the request and reply structures, and the memory the driver shares.
use crate::error::DriverError;
use crate::error::WriteError;
use vstd::prelude::*;

verus! {

/// The register set the TDX module reads and writes. Every field is in-out:
/// results, including the L2 exit information of `TDG.VP.ENTER`, come back in
/// the same registers.
#[derive(Debug, Clone, Copy, PartialEq, Eq, Structural)]
pub struct TdcallArgs {
    pub rax: u64,
    pub rcx: u64,
    pub rdx: u64,
    pub r8: u64,
    pub r9: u64,
    pub r10: u64,
    pub r11: u64,
    pub r12: u64,
    pub r13: u64,
}

impl TdcallArgs {
    /// Leaf `rax` with the four operands every leaf here uses, the remaining
    /// registers zero.
    pub open spec fn leaf(rax: u64, rcx: u64, rdx: u64, r8: u64, r9: u64) -> TdcallArgs {
        TdcallArgs { rax, rcx, rdx, r8, r9, r10: 0, r11: 0, r12: 0, r13: 0 }
    }
}

impl Default for TdcallArgs {
    fn default() -> (r: Self)
        ensures
            r == TdcallArgs::leaf(0, 0, 0, 0, 0),
    {
        TdcallArgs { rax: 0, rcx: 0, rdx: 0, r8: 0, r9: 0, r10: 0, r11: 0, r12: 0, r13: 0 }
    }
}

/// A request for physically contiguous private memory, and its reply.
#[derive(Debug, Clone, Copy, PartialEq, Eq, Structural)]
pub struct TdAlloc {
    pub size: u64,
    pub flags: u64,
    pub gpa: u64,
    pub offset: u64,
}

/// A claim on an L2 VM slot.
#[derive(Debug, Clone, Copy, PartialEq, Eq, Structural)]
pub struct TdVmClaim {
    pub vm_id: u32,
    pub reserved: u32,
}

/// A request to pin an existing mapping, and its reply.
#[derive(Debug, Clone, Copy, PartialEq, Eq, Structural)]
pub struct TdRegisterMemory {
    pub address: u64,
    pub size: u64,
    pub flags: u64,
    pub gpa: u64,
}

/// What the driver says about itself.
#[derive(Debug, Clone, Copy, PartialEq, Eq, Structural)]
pub struct TdApi {
    pub abi_version: u32,
    pub struct_size: u32,
    pub features: u64,
}

/// A request to enter a VP.
#[derive(Debug, Clone, Copy, PartialEq, Eq, Structural)]
pub struct TdVpEnter {
    pub vp_index: u32,
    pub flags: u32,
    pub args: TdcallArgs,
}

/// A request to force a VP out of its entry.
#[derive(Debug, Clone, Copy, PartialEq, Eq, Structural)]
pub struct TdVpKick {
    pub vp_index: u32,
    pub flags: u32,
}

/// Keep the allocation below 4 GiB. Needed only for a guest that starts
/// outside 64-bit mode, where segment bases must fit in 32 bits.
pub const ALLOC_BELOW_4G: u64 = 1;

/// Claim the administrator-configured boot-reserved physical range.
pub const ALLOC_RESERVED: u64 = 2;

/// Only report where one 1 GiB page lies; pin nothing.
pub const REGISTER_QUERY_HUGE_1G: u64 = 1;

const IOC_MAGIC: u64 = 0x54;

/// The version of the interface this monitor speaks.
pub const ABI_VERSION: u32 = 1;

/// The size of the driver's self-description, including its reserved words.
pub const TD_API_SIZE: u32 = 32;

pub const FEATURE_VP_ENTER: u64 = 1;

pub const FEATURE_VP_KICK: u64 = 2;

/// A request code: direction in bits 30 and 31, structure size from bit 16,
/// the magic byte, and the request number in the low byte.
pub open spec fn request_code(direction: u64, nr: u8, size: usize) -> u64 {
    (direction << 30) | ((size as u64) << 16) | (0x54u64 << 8) | (nr as u64)
}

/// The code of a request that reads and writes its structure.
pub fn iowr(nr: u8, size: usize) -> (r: u64)
    ensures
        r == request_code(3, nr, size),
{
    (3u64 << 30) | ((size as u64) << 16) | (IOC_MAGIC << 8) | (nr as u64)
}

/// The code of a request that only passes its structure to the driver.
pub fn iow(nr: u8, size: usize) -> (r: u64)
    ensures
        r == request_code(1, nr, size),
{
    (1u64 << 30) | ((size as u64) << 16) | (IOC_MAGIC << 8) | (nr as u64)
}

/// The code of a request that only gets its structure from the driver.
pub fn ior(nr: u8, size: usize) -> (r: u64)
    ensures
        r == request_code(2, nr, size),
{
    (2u64 << 30) | ((size as u64) << 16) | (IOC_MAGIC << 8) | (nr as u64)
}

proof fn lemma_request_code_parts(direction: u64, nr: u64, size: u64)
    by (bit_vector)
    requires
        direction <= 3,
        nr <= 0xff,
        size < 0x4000,
    ensures
        (((direction << 30) | (size << 16) | (0x54u64 << 8) | nr) >> 30) == direction,
        (((direction << 30) | (size << 16) | (0x54u64 << 8) | nr) >> 16) & 0x3fff == size,
        (((direction << 30) | (size << 16) | (0x54u64 << 8) | nr) >> 8) & 0xff == 0x54,
        ((direction << 30) | (size << 16) | (0x54u64 << 8) | nr) & 0xff == nr,
{
}

/// A request code can be taken apart again: requests that differ in direction,
/// number or structure size have different codes.
pub proof fn law_request_codes_are_distinct(
    direction1: u64,
    nr1: u8,
    size1: usize,
    direction2: u64,
    nr2: u8,
    size2: usize,
)
    requires
        direction1 <= 3 && direction2 <= 3,
        size1 < 0x4000 && size2 < 0x4000,
        request_code(direction1, nr1, size1) == request_code(direction2, nr2, size2),
    ensures
        direction1 == direction2,
        nr1 == nr2,
        size1 == size2,
{
    lemma_request_code_parts(direction1, nr1 as u64, size1 as u64);
    lemma_request_code_parts(direction2, nr2 as u64, size2 as u64);
}

/// Why the driver is not one this monitor can use: another version of the
/// interface, a self-description shorter than the known one, or a missing VP
/// operation.
pub open spec fn api_error(api: TdApi) -> Option<DriverError> {
    if api.abi_version != ABI_VERSION || api.struct_size < TD_API_SIZE {
        Some(DriverError::UnsupportedAbi { abi_version: api.abi_version })
    } else if api.features & 3 != 3 {
        Some(DriverError::MissingFeatures { features: api.features })
    } else {
        None
    }
}

/// Whether the driver is one this monitor can use.
pub fn check_api(api: TdApi) -> (r: Result<(), DriverError>)
    ensures
        r == (match api_error(api) {
            Some(err) => Err(err),
            None => Ok(()),
        }),
{
    if !(api.abi_version == ABI_VERSION && api.struct_size >= TD_API_SIZE) {
        return Err(DriverError::UnsupportedAbi { abi_version: api.abi_version });
    }
    let required: u64 = FEATURE_VP_ENTER | FEATURE_VP_KICK;
    assert(1u64 | 2u64 == 3u64) by (bit_vector);
    if api.features & required != required {
        return Err(DriverError::MissingFeatures { features: api.features });
    }
    Ok(())
}

/// The device, once its self-description has been found usable.
#[derive(Debug, Clone, Copy, PartialEq, Eq, Structural)]
pub struct TdcallDevice {
    api: TdApi,
}

impl TdcallDevice {
    /// What the driver said about itself.
    pub closed spec fn api(self) -> TdApi {
        self.api
    }

    /// Accept the driver behind an open descriptor, given what it says about
    /// itself.
    pub fn open(api: TdApi) -> (r: Result<Self, DriverError>)
        ensures
            r is Ok <==> api_error(api) is None,
            r matches Ok(device) ==> device.api() == api,
            r matches Err(err) ==> api_error(api) == Some(err),
    {
        match check_api(api) {
            Ok(()) => Ok(TdcallDevice { api }),
            Err(err) => Err(err),
        }
    }

    /// The claim on an L2 VM slot.
    pub fn claim_vm(&self, vm_id: u8) -> (r: TdVmClaim)
        ensures
            r.vm_id == vm_id,
            r.reserved == 0,
    {
        TdVmClaim { vm_id: vm_id as u32, reserved: 0 }
    }

    /// What a request to execute a TDCALL returned: `accepted` when the driver
    /// reported success. TDCALL leaves report failure in RAX rather than
    /// through the driver, so this only fails when the request itself does.
    pub fn tdcall(accepted: bool, request: TdcallArgs, reply: TdcallArgs) -> (r: Result<
        TdcallArgs,
        DriverError,
    >)
        ensures
            r == (if accepted {
                Ok(reply)
            } else {
                Err(DriverError::TdcallFailed { leaf: request.rax })
            }),
    {
        if !accepted {
            return Err(DriverError::TdcallFailed { leaf: request.rax });
        }
        Ok(reply)
    }

    /// The request that enters a VP.
    pub fn vp_enter(&self, vp_index: u32, args: TdcallArgs) -> (r: TdVpEnter)
        ensures
            r == (TdVpEnter { vp_index, flags: 0, args }),
    {
        TdVpEnter { vp_index, flags: 0, args }
    }

    /// What a request to enter a VP returned: `accepted` when the driver reported
    /// success, `interrupted` when it reported that a kick got there first.
    ///
    /// An entry is a blocking call, and a device raising an interrupt on another
    /// thread has to be able to end it. `None` means the caller goes back around
    /// its loop, picks the interrupt up, and enters again.
    pub fn vp_enter_reply(accepted: bool, interrupted: bool, request: TdVpEnter, reply: TdVpEnter) -> (r:
        Result<Option<TdcallArgs>, DriverError>)
        ensures
            r == (if accepted {
                Ok(Some(reply.args))
            } else if interrupted {
                Ok(None::<TdcallArgs>)
            } else {
                Err(DriverError::TdcallFailed { leaf: request.args.rax })
            }),
    {
        if !accepted {
            if interrupted {
                return Ok(None);
            }
            return Err(DriverError::TdcallFailed { leaf: request.args.rax });
        }
        Ok(Some(reply.args))
    }

    /// The request that forces a concurrent entry of a VP to return.
    pub fn kick_vp(&self, vp_index: u32) -> (r: TdVpKick)
        ensures
            r == (TdVpKick { vp_index, flags: 0 }),
    {
        TdVpKick { vp_index, flags: 0 }
    }

    /// The request for physically contiguous private memory.
    pub fn alloc_memory(&self, size: usize, flags: u64) -> (r: TdAlloc)
        ensures
            r == (TdAlloc { size: size as u64, flags, gpa: 0, offset: 0 }),
    {
        TdAlloc { size: size as u64, flags, gpa: 0, offset: 0 }
    }

    /// The request for the complete boot-reserved range. The zero size and GPA
    /// deliberately leave the range selection to the kernel rather than to the VMM.
    pub fn alloc_reserved(&self) -> (r: TdAlloc)
        ensures
            r == (TdAlloc { size: 0, flags: ALLOC_RESERVED, gpa: 0, offset: 0 }),
    {
        self.alloc_memory(0, ALLOC_RESERVED)
    }

    /// The request that pins and validates an existing mapping as physically
    /// contiguous L2 RAM.
    pub fn register_memory(&self, address: usize, size: usize) -> (r: TdRegisterMemory)
        ensures
            r == (TdRegisterMemory { address: address as u64, size: size as u64, flags: 0, gpa: 0 }),
    {
        Self::register_memory_with_flags(address, size, 0)
    }

    /// The request that only asks where a 1 GiB page lies.
    pub fn query_huge_1g(&self, address: usize, size: usize) -> (r: TdRegisterMemory)
        ensures
            r == (TdRegisterMemory {
                address: address as u64,
                size: size as u64,
                flags: REGISTER_QUERY_HUGE_1G,
                gpa: 0,
            }),
    {
        Self::register_memory_with_flags(address, size, REGISTER_QUERY_HUGE_1G)
    }

    fn register_memory_with_flags(address: usize, size: usize, flags: u64) -> (r: TdRegisterMemory)
        ensures
            r == (TdRegisterMemory { address: address as u64, size: size as u64, flags, gpa: 0 }),
    {
        TdRegisterMemory { address: address as u64, size: size as u64, flags, gpa: 0 }
    }
}

/// Private memory shared between this process and an L2: the mapped bytes and
/// the guest physical address of the first one.
pub struct TdMemory<'a> {
    data: &'a mut [u8],
    gpa: u64,
}

impl<'a> TdMemory<'a> {
    /// The bytes of the region.
    pub closed spec fn bytes(&self) -> Seq<u8> {
        self.data@
    }

    /// The guest physical address of the first byte.
    pub closed spec fn base(&self) -> u64 {
        self.gpa
    }

    /// A region that the driver mapped at `data` and that lies at `gpa`.
    pub fn new(data: &'a mut [u8], gpa: u64) -> (m: Self)
        ensures
            m.bytes() == old(data)@,
            m.base() == gpa,
    {
        TdMemory { data, gpa }
    }

    /// Guest physical address of the first byte. Inside a TD this is also the
    /// address an L2 will see, because aliasing publishes the L1's own GPA.
    pub fn gpa(&self) -> (r: u64)
        ensures
            r == self.base(),
    {
        self.gpa
    }

    pub fn len(&self) -> (r: usize)
        ensures
            r == self.bytes().len(),
    {
        self.data.len()
    }

    pub fn as_slice(&self) -> (r: &[u8])
        ensures
            r@ == self.bytes(),
    {
        &*self.data
    }

    pub fn as_mut_slice(&mut self) -> (r: &mut [u8])
        ensures
            r@ == old(self).bytes(),
            final(self).bytes() == final(r)@,
            final(self).base() == old(self).base(),
    {
        &mut *self.data
    }

    /// Write at an offset from the start of the region.
    pub fn write_at(&mut self, offset: usize, data: &[u8]) -> (r: Result<(), WriteError>)
        ensures
            final(self).base() == old(self).base(),
            r == (if offset + data@.len() > usize::MAX {
                Err(WriteError::OffsetOverflow)
            } else if offset + data@.len() > old(self).bytes().len() {
                Err(
                    WriteError::ExceedsRegion {
                        length: data.len(),
                        offset,
                        region: old(self).bytes().len() as usize,
                    },
                )
            } else {
                Ok(())
            }),
            final(self).bytes() == (if r is Ok {
                crate::bytes::overwrite(old(self).bytes(), offset as int, data@)
            } else {
                old(self).bytes()
            }),
    {
        let length: usize = data.len();
        let end: usize = match offset.checked_add(length) {
            Some(end) => end,
            None => return Err(WriteError::OffsetOverflow),
        };
        let region: usize = self.data.len();
        if end > region {
            return Err(WriteError::ExceedsRegion { length, offset, region });
        }
        crate::bytes::copy_into(&mut *self.data, offset, data);
        Ok(())
    }
}

/// What a request code says can be read off it: whether the driver reads the
/// structure, whether it writes it, how large the structure is, that the request
/// is for this device, and which one it is. Nothing else stands in it.
pub proof fn law_request_codes_say_what_they_ask(direction: u64, nr: u8, size: usize)
    requires
        direction <= 3,
        size < 0x4000,
    ensures
        ({
            let code = request_code(direction, nr, size);
            &&& code >> 30 == direction
            &&& (code >> 16) & 0x3fff == size
            &&& (code >> 8) & 0xff == 'T' as u64
            &&& code & 0xff == nr
        }),
{
    lemma_request_code_parts(direction, nr as u64, size as u64);
}

proof fn lemma_feature_bits(features: u64)
    by (bit_vector)
    ensures
        features & 3 == 3 <==> features % 2 == 1 && features / 2 % 2 == 1,
{
}

/// A driver is usable exactly when it speaks version 1 of the interface, its
/// self-description is at least 32 bytes long, and it can both enter and kick a
/// VP; what else it offers does not matter. A refusal names the version if it is
/// for the interface, and the features otherwise.
pub proof fn law_usable_drivers(api: TdApi)
    ensures
        ({
            let speaks = api.abi_version == 1 && api.struct_size >= 32;
            let enters = api.features % 2 == 1;
            let kicks = api.features / 2 % 2 == 1;
            &&& api_error(api) is None <==> speaks && enters && kicks
            &&& !speaks ==> api_error(api) == Some(
                DriverError::UnsupportedAbi { abi_version: api.abi_version },
            )
            &&& speaks && !(enters && kicks) ==> api_error(api) == Some(
                DriverError::MissingFeatures { features: api.features },
            )
        }),
{
    lemma_feature_bits(api.features);
}

/// A register image for a leaf holds the leaf's number and its operands in their
/// own registers, and zero in every other.
pub proof fn law_leaf_operands_stand_in_their_registers(
    rax: u64,
    rcx: u64,
    rdx: u64,
    r8: u64,
    r9: u64,
)
    ensures
        ({
            let args = TdcallArgs::leaf(rax, rcx, rdx, r8, r9);
            &&& args.rax == rax && args.rcx == rcx && args.rdx == rdx && args.r8 == r8 && args.r9
                == r9
            &&& args.r10 == 0 && args.r11 == 0 && args.r12 == 0 && args.r13 == 0
        }),
{
}

/// The three kinds of request differ only in their direction: one that reads and
/// writes its structure has both bits, one that only passes it the low one, one
/// that only gets it the high one.
pub proof fn law_requests_have_their_direction(
    nr: u8,
    size: usize,
    both: u64,
    passed: u64,
    got: u64,
)
    requires
        size < 0x4000,
        call_ensures(iowr, (nr, size), both),
        call_ensures(iow, (nr, size), passed),
        call_ensures(ior, (nr, size), got),
    ensures
        both >> 30 == 3 && passed >> 30 == 1 && got >> 30 == 2,
        (both >> 16) & 0x3fff == size && (passed >> 16) & 0x3fff == size && (got >> 16) & 0x3fff
            == size,
        (both >> 8) & 0xff == 'T' as u64 && (passed >> 8) & 0xff == 'T' as u64 && (got >> 8) & 0xff
            == 'T' as u64,
        both & 0xff == nr && passed & 0xff == nr && got & 0xff == nr,
{
    law_request_codes_say_what_they_ask(3, nr, size);
    law_request_codes_say_what_they_ask(1, nr, size);
    law_request_codes_say_what_they_ask(2, nr, size);
}

/// A request that the driver carried out gives its reply, whatever that says; a
/// kick that got there first gives nothing; and any other refusal is reported
/// with the leaf that was asked for.
pub proof fn law_replies_come_back(
    accepted: bool,
    interrupted: bool,
    request: TdVpEnter,
    reply: TdVpEnter,
    called: Result<TdcallArgs, DriverError>,
    entered: Result<Option<TdcallArgs>, DriverError>,
)
    requires
        call_ensures(TdcallDevice::tdcall, (accepted, request.args, reply.args), called),
        call_ensures(
            TdcallDevice::vp_enter_reply,
            (accepted, interrupted, request, reply),
            entered,
        ),
    ensures
        ({
            let refused = DriverError::TdcallFailed { leaf: request.args.rax };
            &&& accepted ==> called == Ok::<TdcallArgs, DriverError>(reply.args)
            &&& !accepted ==> called == Err::<TdcallArgs, DriverError>(refused)
            &&& accepted ==> entered == Ok::<Option<TdcallArgs>, DriverError>(Some(reply.args))
            &&& !accepted && interrupted ==> entered == Ok::<Option<TdcallArgs>, DriverError>(None)
            &&& !accepted && !interrupted ==> entered == Err::<Option<TdcallArgs>, DriverError>(
                refused,
            )
        }),
{
}

/// What the requests for memory ask for: an allocation its size and flags and
/// nothing of the address, the boot-reserved range neither a size nor an address,
/// a registration the mapping it names, and a query the same with the flag that
/// pins nothing.
pub proof fn law_memory_requests(
    device: &TdcallDevice,
    address: usize,
    size: usize,
    flags: u64,
    allocated: TdAlloc,
    reserved: TdAlloc,
    registered: TdRegisterMemory,
    queried: TdRegisterMemory,
)
    requires
        call_ensures(TdcallDevice::alloc_memory, (device, size, flags), allocated),
        call_ensures(TdcallDevice::alloc_reserved, (device,), reserved),
        call_ensures(TdcallDevice::register_memory, (device, address, size), registered),
        call_ensures(TdcallDevice::query_huge_1g, (device, address, size), queried),
    ensures
        allocated.size == size && allocated.flags == flags && allocated.gpa == 0 && allocated.offset
            == 0,
        reserved.size == 0 && reserved.flags == 2 && reserved.gpa == 0 && reserved.offset == 0,
        registered.address == address && registered.size == size && registered.flags == 0
            && registered.gpa == 0,
        queried == (TdRegisterMemory { flags: 1, ..registered }),
        ALLOC_BELOW_4G == 1,
{
}

/// Entering, kicking and claiming name what they are about and set no flag.
pub proof fn law_processor_requests(
    device: &TdcallDevice,
    vp_index: u32,
    vm_id: u8,
    args: TdcallArgs,
    entry: TdVpEnter,
    kick: TdVpKick,
    claim: TdVmClaim,
)
    requires
        call_ensures(TdcallDevice::vp_enter, (device, vp_index, args), entry),
        call_ensures(TdcallDevice::kick_vp, (device, vp_index), kick),
        call_ensures(TdcallDevice::claim_vm, (device, vm_id), claim),
    ensures
        entry.vp_index == vp_index && entry.flags == 0 && entry.args == args,
        kick.vp_index == vp_index && kick.flags == 0,
        claim.vm_id == vm_id && claim.reserved == 0,
{
}

/// A write into the region either stands there whole, with every other byte as it
/// was, or changes nothing; it is refused exactly when it does not end inside the
/// region, and the region does not move.
pub proof fn law_region_writes_are_whole<'a>(
    memory: &mut TdMemory<'a>,
    offset: usize,
    data: &[u8],
    written: Result<(), WriteError>,
    k: int,
)
    requires
        call_ensures(TdMemory::<'a>::write_at, (memory, offset, data), written),
        0 <= k < old(memory).bytes().len() <= usize::MAX,
    ensures
        written is Ok <==> offset + data@.len() <= old(memory).bytes().len(),
        final(memory).bytes().len() == old(memory).bytes().len(),
        final(memory).base() == old(memory).base(),
        final(memory).bytes()[k] == (if written is Ok && offset <= k < offset + data@.len() {
            data@[k - offset]
        } else {
            old(memory).bytes()[k]
        }),
{
}

/// A device is opened exactly on a usable driver, whose description it keeps.
pub proof fn law_devices_open_on_usable_drivers(
    api: TdApi,
    opened: Result<TdcallDevice, DriverError>,
)
    requires
        call_ensures(TdcallDevice::open, (api,), opened),
    ensures
        opened is Ok <==> api.abi_version == 1 && api.struct_size >= 32 && api.features % 2 == 1
            && api.features / 2 % 2 == 1,
        opened matches Ok(device) ==> device.api() == api,
        opened matches Err(err) ==> api_error(api) == Some(err),
{
    law_usable_drivers(api);
}

} // verus!
