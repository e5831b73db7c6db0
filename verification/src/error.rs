//! What can go wrong, as plain values.
use vstd::prelude::*;

verus! {

/// A TDCALL that did not succeed, with the status it returned.
#[derive(Debug, Clone, Copy, PartialEq, Eq, Structural)]
pub enum TdxError {
    /// `TDG.VM.RD` of the number of L2 slots.
    ReadL2Slots { status: u64 },
    /// `TDG.VP.RD` of an L2 VMCS field.
    ReadVmcs { field: u32, status: u64 },
    /// `TDG.VP.WR` of an L2 VMCS field.
    WriteVmcs { field: u32, value: u64, status: u64 },
    /// `TDG.VP.WR` of another TDVPS field.
    WriteTdvps { field_id: u64, status: u64 },
    /// `TDG.MEM.PAGE.ATTR.WR` granting a page.
    GrantPage { gpa: u64, status: u64 },
    /// The grant kept succeeding without taking effect.
    GrantNeverTookEffect { gpa: u64 },
    /// `TDG.MEM.PAGE.ATTR.WR` revoking a page.
    RevokePage { gpa: u64, status: u64 },
    /// The revocation succeeded but left other attributes behind.
    RevokeDidNotTakeEffect { gpa: u64, attributes: u64 },
    /// `TDG.VP.RD` of a word of the MSR intercept bitmap.
    ReadMsrBitmap { qword: u64, status: u64 },
    /// An MSR that the intercept bitmap does not cover.
    MsrOutsideBitmap { msr: u32 },
    /// `TDG.VP.WR` clearing an MSR intercept.
    ClearMsrIntercept { msr: u32, status: u64 },
    /// `TDG.VP.ENTER` failed before the L2 ran.
    Enter { status: u64, instruction_error: u64 },
}

/// What the kernel driver did not accept or offer.
#[derive(Debug, Clone, Copy, PartialEq, Eq, Structural)]
pub enum DriverError {
    /// The driver speaks another version of the interface.
    UnsupportedAbi { abi_version: u32 },
    /// The driver cannot enter or kick a VP.
    MissingFeatures { features: u64 },
    /// A TDCALL request failed for a reason other than a kick.
    TdcallFailed { leaf: u64 },
}

/// A write that does not fit the region it was meant for.
#[derive(Debug, Clone, Copy, PartialEq, Eq, Structural)]
pub enum WriteError {
    /// The end of the write is not an address.
    OffsetOverflow,
    /// The write ends behind the region.
    ExceedsRegion { length: usize, offset: usize, region: usize },
}

/// Guest memory that cannot be had or used as asked.
#[derive(Debug, Clone, Copy, PartialEq, Eq, Structural)]
pub enum MemoryError {
    /// RAM is allocated at 4 KiB granularity.
    NotPageAligned { size: usize },
    /// The memory is in more pieces than a guest can be told of.
    TooManyExtents { extents: usize },
}

/// A range of guest physical memory that cannot be granted or revoked.
#[derive(Debug, Clone, Copy, PartialEq, Eq, Structural)]
pub enum AliasError {
    /// An end of the range is not at a page boundary.
    Unaligned { start: u64, end: u64 },
    /// The range is not inside one physical extent.
    OutsideExtent { start: u64, end: u64 },
    /// The end of the range is not an address.
    RangeOverflow { start: u64, size: u64 },
}

/// The elements of a processor's state that this backend does not model.
#[derive(Debug, Clone, Copy, PartialEq, Eq, Structural)]
pub enum StateElement {
    Xsave,
    Xcr0,
    Xss,
    Mtrrs,
    Pat,
    VirtualMsrs,
    DebugRegisters,
    Tsc,
    Cet,
    CetSs,
    TscAux,
    SyntheticMsrs,
    SynicMessagePage,
    SynicEventFlagsPage,
    SynicMessageQueues,
    SynicTimers,
    NestedState,
}

/// An exit that cannot be serviced.
#[derive(Debug, Clone, Copy, PartialEq, Eq, Structural)]
pub enum ServiceError {
    /// An access to a control register that is not emulated.
    ControlRegister { cr: u64 },
    /// A kind of control register access that is not emulated.
    ControlRegisterAccess { access_type: u64 },
    /// The APIC model failed an access to one of its MSRs.
    ApicMsr { index: u32, write: bool },
    /// An exit for a reason that is not serviced.
    UnknownExit { reason: u16, qualification: u64, rip: u64 },
}

/// A memory size that cannot be used.
#[derive(Debug, Clone, Copy, PartialEq, Eq, Structural)]
pub enum SizeError {
    /// The text does not start with a number that fits in 64 bits.
    NotANumber,
    /// What follows the number is not a unit.
    UnknownSuffix,
    /// The number of bytes does not fit in 64 bits.
    Overflow,
    /// The number of bytes is zero or not a multiple of 4 KiB.
    Unaligned,
}

/// A parameter of the backend that cannot be used.
#[derive(Debug, Clone, Copy, PartialEq, Eq, Structural)]
pub enum ParameterError {
    /// There is no such parameter as the one at this place.
    Unknown { index: usize },
    /// The memory size is not one.
    Memory(SizeError),
}

/// Why a partition cannot be built or operated.
#[derive(Debug)]
pub enum TdpError {
    /// The TD was created without L2 slots.
    NotAnL1Vmm,
    /// The TDCALL device is unavailable.
    NoDevice(DriverError),
    /// The layout puts guest memory where the L2 has none, and aliasing cannot
    /// move a page.
    MemoryLayout { requested: std::ops::Range<u64>, available: Vec<std::ops::Range<u64>> },
    /// The partition's capabilities could not be determined.
    Capabilities(String),
    /// Something an L2 does not offer.
    Unsupported(&'static str),
    /// A state element that cannot be read back.
    Snapshot(StateElement),
    /// A state element that cannot be set to anything but its reset value.
    Restore(StateElement),
    /// A TDCALL failed.
    Tdx(TdxError),
    /// An alias cannot be created or revoked.
    Alias(AliasError),
    /// The driver reserved low memory somewhere else.
    LowMemory { gpa: u64, len: usize },
    /// L2 memory was already reserved with another size.
    ReservedSize { reserved: usize, size: usize },
}

} // verus!
