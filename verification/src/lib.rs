//! Running guests as Intel TDX **L2 virtual machines**.
//!
//! The monitor runs in an L1 trust domain and drives one L2 through
//! `TDG.VP.ENTER`. Everything here decides; nothing here performs I/O. A
//! function that needs a TDCALL returns the register image to issue, and a
//! second function takes the reply.
pub mod apic_page;
pub mod bits;
pub mod bytes;
pub mod control;
pub mod cpuid;
pub mod driver;
pub mod error;
pub mod hugemem;
pub mod interrupts;
pub mod lowmem;
pub mod msr;
pub mod paging;
pub mod partition;
pub mod probe;
pub mod regs;
pub mod tdx;
pub mod text;
pub mod timer;
pub mod vmcs;
pub mod vp;
pub mod vp_state;

pub use driver::TdcallDevice;
pub use error::TdpError;
pub use hugemem::HugeRegion;
pub use partition::Tdp;
pub use partition::TdpMemory;
pub use regs::L2GprContext;
pub use tdx::L2Vm;
pub use tdx::VpEnterResult;
pub use vp::TdpProcessor;
