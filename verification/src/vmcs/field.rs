//! Field encodings, from the architectural VMCS layout.
use vstd::prelude::*;

verus! {

pub const GUEST_ES_SEL: u32 = 0x0800;
pub const GUEST_CS_SEL: u32 = 0x0802;
pub const GUEST_SS_SEL: u32 = 0x0804;
pub const GUEST_DS_SEL: u32 = 0x0806;
pub const GUEST_FS_SEL: u32 = 0x0808;
pub const GUEST_GS_SEL: u32 = 0x080a;
pub const GUEST_LDTR_SEL: u32 = 0x080c;
pub const GUEST_TR_SEL: u32 = 0x080e;
pub const GUEST_INTERRUPT_STATUS: u32 = 0x0810;

pub const VIRTUAL_APIC_PAGE: u32 = 0x2012;
pub const EOI_EXIT_BITMAP_0: u32 = 0x201c;
pub const EOI_EXIT_BITMAP_1: u32 = 0x201e;
pub const EOI_EXIT_BITMAP_2: u32 = 0x2020;
pub const EOI_EXIT_BITMAP_3: u32 = 0x2022;
pub const GUEST_PHYSICAL_ADDRESS: u32 = 0x2400;
pub const GUEST_IA32_DEBUGCTL: u32 = 0x2802;
pub const GUEST_IA32_PAT: u32 = 0x2804;
pub const GUEST_IA32_EFER: u32 = 0x2806;

/// Pin-based controls, which the TDX module owns for an L2.
pub const PIN_BASED_CTLS: u32 = 0x4000;
pub const PROC_EXEC_CTLS: u32 = 0x4002;
pub const EXCEPTION_BITMAP: u32 = 0x4004;
pub const PF_EC_MASK: u32 = 0x4006;
pub const PF_EC_MATCH: u32 = 0x4008;
pub const CR3_TARGET_COUNT: u32 = 0x400a;
pub const ENTRY_CTLS: u32 = 0x4012;
pub const ENTRY_INTR_INFO: u32 = 0x4016;
pub const ENTRY_EXCEPTION_EC: u32 = 0x4018;
pub const ENTRY_INSTR_LEN: u32 = 0x401a;
pub const TPR_THRESHOLD: u32 = 0x401c;
pub const PROC_EXEC_CTLS2: u32 = 0x401e;
pub const VM_INSTRUCTION_ERROR: u32 = 0x4400;
pub const EXIT_REASON: u32 = 0x4402;
/// What the exception was, when the exception bitmap caused the exit.
pub const EXIT_INTR_INFO: u32 = 0x4404;
pub const EXIT_INTR_ERROR_CODE: u32 = 0x4406;
pub const IDT_VECTORING_INFO: u32 = 0x4408;
pub const EXIT_INSTRUCTION_LEN: u32 = 0x440c;
pub const EXIT_QUALIFICATION: u32 = 0x6400;

pub const GUEST_ES_LIMIT: u32 = 0x4800;
pub const GUEST_CS_LIMIT: u32 = 0x4802;
pub const GUEST_SS_LIMIT: u32 = 0x4804;
pub const GUEST_DS_LIMIT: u32 = 0x4806;
pub const GUEST_FS_LIMIT: u32 = 0x4808;
pub const GUEST_GS_LIMIT: u32 = 0x480a;
pub const GUEST_LDTR_LIMIT: u32 = 0x480c;
pub const GUEST_TR_LIMIT: u32 = 0x480e;
pub const GUEST_GDTR_LIMIT: u32 = 0x4810;
pub const GUEST_IDTR_LIMIT: u32 = 0x4812;
pub const GUEST_ES_AR: u32 = 0x4814;
pub const GUEST_CS_AR: u32 = 0x4816;
pub const GUEST_SS_AR: u32 = 0x4818;
pub const GUEST_DS_AR: u32 = 0x481a;
pub const GUEST_FS_AR: u32 = 0x481c;
pub const GUEST_GS_AR: u32 = 0x481e;
pub const GUEST_LDTR_AR: u32 = 0x4820;
pub const GUEST_TR_AR: u32 = 0x4822;
pub const GUEST_INTERRUPTIBILITY: u32 = 0x4824;
pub const GUEST_SYSENTER_CS: u32 = 0x482a;

pub const CR0_MASK: u32 = 0x6000;
pub const CR4_MASK: u32 = 0x6002;
pub const CR0_SHADOW: u32 = 0x6004;
pub const CR4_SHADOW: u32 = 0x6006;

pub const GUEST_CR0: u32 = 0x6800;
pub const GUEST_CR3: u32 = 0x6802;
pub const GUEST_CR4: u32 = 0x6804;
pub const GUEST_ES_BASE: u32 = 0x6806;
pub const GUEST_CS_BASE: u32 = 0x6808;
pub const GUEST_SS_BASE: u32 = 0x680a;
pub const GUEST_DS_BASE: u32 = 0x680c;
pub const GUEST_FS_BASE: u32 = 0x680e;
pub const GUEST_GS_BASE: u32 = 0x6810;
pub const GUEST_LDTR_BASE: u32 = 0x6812;
pub const GUEST_TR_BASE: u32 = 0x6814;
pub const GUEST_GDTR_BASE: u32 = 0x6816;
pub const GUEST_IDTR_BASE: u32 = 0x6818;
pub const GUEST_DR7: u32 = 0x681a;
pub const GUEST_RSP: u32 = 0x681c;
pub const GUEST_PENDING_DBG: u32 = 0x6822;
pub const GUEST_SYSENTER_ESP: u32 = 0x6824;
pub const GUEST_SYSENTER_EIP: u32 = 0x6826;

/// The code of a field in the architectural layout: its width (0 for 16 bits, 1
/// for 64 bits, 2 for 32 bits, 3 for the natural width), its kind (0 for a
/// control, 1 for exit information, 2 for guest state), and its number among the
/// fields of that width and kind.
pub open spec fn encoding(width: u32, kind: u32, number: u32) -> int {
    width * 0x2000 + kind * 0x400 + 2 * number
}

/// Every field has the width, the kind and the number that the architecture
/// gives it.
pub proof fn law_fields_are_encoded_architecturally()
    ensures
        GUEST_ES_SEL == encoding(0, 2, 0),
        GUEST_CS_SEL == encoding(0, 2, 1),
        GUEST_SS_SEL == encoding(0, 2, 2),
        GUEST_DS_SEL == encoding(0, 2, 3),
        GUEST_FS_SEL == encoding(0, 2, 4),
        GUEST_GS_SEL == encoding(0, 2, 5),
        GUEST_LDTR_SEL == encoding(0, 2, 6),
        GUEST_TR_SEL == encoding(0, 2, 7),
        GUEST_INTERRUPT_STATUS == encoding(0, 2, 8),
        VIRTUAL_APIC_PAGE == encoding(1, 0, 9),
        EOI_EXIT_BITMAP_0 == encoding(1, 0, 14),
        EOI_EXIT_BITMAP_1 == encoding(1, 0, 15),
        EOI_EXIT_BITMAP_2 == encoding(1, 0, 16),
        EOI_EXIT_BITMAP_3 == encoding(1, 0, 17),
        GUEST_PHYSICAL_ADDRESS == encoding(1, 1, 0),
        GUEST_IA32_DEBUGCTL == encoding(1, 2, 1),
        GUEST_IA32_PAT == encoding(1, 2, 2),
        GUEST_IA32_EFER == encoding(1, 2, 3),
        PIN_BASED_CTLS == encoding(2, 0, 0),
        PROC_EXEC_CTLS == encoding(2, 0, 1),
        EXCEPTION_BITMAP == encoding(2, 0, 2),
        PF_EC_MASK == encoding(2, 0, 3),
        PF_EC_MATCH == encoding(2, 0, 4),
        CR3_TARGET_COUNT == encoding(2, 0, 5),
        ENTRY_CTLS == encoding(2, 0, 9),
        ENTRY_INTR_INFO == encoding(2, 0, 11),
        ENTRY_EXCEPTION_EC == encoding(2, 0, 12),
        ENTRY_INSTR_LEN == encoding(2, 0, 13),
        TPR_THRESHOLD == encoding(2, 0, 14),
        PROC_EXEC_CTLS2 == encoding(2, 0, 15),
        VM_INSTRUCTION_ERROR == encoding(2, 1, 0),
        EXIT_REASON == encoding(2, 1, 1),
        EXIT_INTR_INFO == encoding(2, 1, 2),
        EXIT_INTR_ERROR_CODE == encoding(2, 1, 3),
        IDT_VECTORING_INFO == encoding(2, 1, 4),
        EXIT_INSTRUCTION_LEN == encoding(2, 1, 6),
        EXIT_QUALIFICATION == encoding(3, 1, 0),
        GUEST_ES_LIMIT == encoding(2, 2, 0),
        GUEST_CS_LIMIT == encoding(2, 2, 1),
        GUEST_SS_LIMIT == encoding(2, 2, 2),
        GUEST_DS_LIMIT == encoding(2, 2, 3),
        GUEST_FS_LIMIT == encoding(2, 2, 4),
        GUEST_GS_LIMIT == encoding(2, 2, 5),
        GUEST_LDTR_LIMIT == encoding(2, 2, 6),
        GUEST_TR_LIMIT == encoding(2, 2, 7),
        GUEST_GDTR_LIMIT == encoding(2, 2, 8),
        GUEST_IDTR_LIMIT == encoding(2, 2, 9),
        GUEST_ES_AR == encoding(2, 2, 10),
        GUEST_CS_AR == encoding(2, 2, 11),
        GUEST_SS_AR == encoding(2, 2, 12),
        GUEST_DS_AR == encoding(2, 2, 13),
        GUEST_FS_AR == encoding(2, 2, 14),
        GUEST_GS_AR == encoding(2, 2, 15),
        GUEST_LDTR_AR == encoding(2, 2, 16),
        GUEST_TR_AR == encoding(2, 2, 17),
        GUEST_INTERRUPTIBILITY == encoding(2, 2, 18),
        GUEST_SYSENTER_CS == encoding(2, 2, 21),
        CR0_MASK == encoding(3, 0, 0),
        CR4_MASK == encoding(3, 0, 1),
        CR0_SHADOW == encoding(3, 0, 2),
        CR4_SHADOW == encoding(3, 0, 3),
        GUEST_CR0 == encoding(3, 2, 0),
        GUEST_CR3 == encoding(3, 2, 1),
        GUEST_CR4 == encoding(3, 2, 2),
        GUEST_ES_BASE == encoding(3, 2, 3),
        GUEST_CS_BASE == encoding(3, 2, 4),
        GUEST_SS_BASE == encoding(3, 2, 5),
        GUEST_DS_BASE == encoding(3, 2, 6),
        GUEST_FS_BASE == encoding(3, 2, 7),
        GUEST_GS_BASE == encoding(3, 2, 8),
        GUEST_LDTR_BASE == encoding(3, 2, 9),
        GUEST_TR_BASE == encoding(3, 2, 10),
        GUEST_GDTR_BASE == encoding(3, 2, 11),
        GUEST_IDTR_BASE == encoding(3, 2, 12),
        GUEST_DR7 == encoding(3, 2, 13),
        GUEST_RSP == encoding(3, 2, 14),
        GUEST_PENDING_DBG == encoding(3, 2, 17),
        GUEST_SYSENTER_ESP == encoding(3, 2, 18),
        GUEST_SYSENTER_EIP == encoding(3, 2, 19),
{
}

} // verus!
