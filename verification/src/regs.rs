//! The general-purpose registers of an L2.
//!
//! They live in a page that the TDX module loads on every entry and writes back
//! on every exit.
use vstd::prelude::*;

verus! {

/// The register image of an L2, in the order the TDX module lays it out.
#[derive(Debug, Clone, Copy, PartialEq, Eq, Structural)]
pub struct L2GprContext {
    pub rax: u64,
    pub rcx: u64,
    pub rdx: u64,
    pub rbx: u64,
    pub rsp: u64,
    pub rbp: u64,
    pub rsi: u64,
    pub rdi: u64,
    pub r8: u64,
    pub r9: u64,
    pub r10: u64,
    pub r11: u64,
    pub r12: u64,
    pub r13: u64,
    pub r14: u64,
    pub r15: u64,
    pub rflags: u64,
    pub rip: u64,
    pub ssp: u64,
    pub interrupt_status: u16,
}

/// Where the image ends in its page: nineteen 64-bit registers and the 16-bit
/// interrupt status.
pub const CONTEXT_END: usize = 154;

/// The general-purpose registers, numbered the way a VMX exit qualification
/// names them.
#[derive(Debug, Clone, Copy, PartialEq, Eq, Structural)]
pub enum Gp {
    RAX,
    RCX,
    RDX,
    RBX,
    RSP,
    RBP,
    RSI,
    RDI,
    R8,
    R9,
    R10,
    R11,
    R12,
    R13,
    R14,
    R15,
}

impl Gp {
    /// The number of a register.
    pub open spec fn number(self) -> u64 {
        match self {
            Gp::RAX => 0,
            Gp::RCX => 1,
            Gp::RDX => 2,
            Gp::RBX => 3,
            Gp::RSP => 4,
            Gp::RBP => 5,
            Gp::RSI => 6,
            Gp::RDI => 7,
            Gp::R8 => 8,
            Gp::R9 => 9,
            Gp::R10 => 10,
            Gp::R11 => 11,
            Gp::R12 => 12,
            Gp::R13 => 13,
            Gp::R14 => 14,
            Gp::R15 => 15,
        }
    }

    /// The register with a number.
    pub open spec fn numbered(number: u64) -> Gp {
        match number {
            0 => Gp::RAX,
            1 => Gp::RCX,
            2 => Gp::RDX,
            3 => Gp::RBX,
            4 => Gp::RSP,
            5 => Gp::RBP,
            6 => Gp::RSI,
            7 => Gp::RDI,
            8 => Gp::R8,
            9 => Gp::R9,
            10 => Gp::R10,
            11 => Gp::R11,
            12 => Gp::R12,
            13 => Gp::R13,
            14 => Gp::R14,
            _ => Gp::R15,
        }
    }

    /// The register with a number below 16.
    pub fn from_number(number: u64) -> (r: Gp)
        requires
            number < 16,
        ensures
            r == Gp::numbered(number),
            r.number() == number,
    {
        match number {
            0 => Gp::RAX,
            1 => Gp::RCX,
            2 => Gp::RDX,
            3 => Gp::RBX,
            4 => Gp::RSP,
            5 => Gp::RBP,
            6 => Gp::RSI,
            7 => Gp::RDI,
            8 => Gp::R8,
            9 => Gp::R9,
            10 => Gp::R10,
            11 => Gp::R11,
            12 => Gp::R12,
            13 => Gp::R13,
            14 => Gp::R14,
            _ => Gp::R15,
        }
    }
}

impl Default for L2GprContext {
    fn default() -> (r: Self)
        ensures
            r == L2GprContext::zeroed(),
    {
        L2GprContext {
            rax: 0,
            rcx: 0,
            rdx: 0,
            rbx: 0,
            rsp: 0,
            rbp: 0,
            rsi: 0,
            rdi: 0,
            r8: 0,
            r9: 0,
            r10: 0,
            r11: 0,
            r12: 0,
            r13: 0,
            r14: 0,
            r15: 0,
            rflags: 0,
            rip: 0,
            ssp: 0,
            interrupt_status: 0,
        }
    }
}

impl L2GprContext {
    /// Every register zero.
    pub open spec fn zeroed() -> L2GprContext {
        L2GprContext {
            rax: 0,
            rcx: 0,
            rdx: 0,
            rbx: 0,
            rsp: 0,
            rbp: 0,
            rsi: 0,
            rdi: 0,
            r8: 0,
            r9: 0,
            r10: 0,
            r11: 0,
            r12: 0,
            r13: 0,
            r14: 0,
            r15: 0,
            rflags: 0,
            rip: 0,
            ssp: 0,
            interrupt_status: 0,
        }
    }

    /// The 64-bit registers in layout order.
    pub open spec fn words(self) -> Seq<u64> {
        seq![
            self.rax,
            self.rcx,
            self.rdx,
            self.rbx,
            self.rsp,
            self.rbp,
            self.rsi,
            self.rdi,
            self.r8,
            self.r9,
            self.r10,
            self.r11,
            self.r12,
            self.r13,
            self.r14,
            self.r15,
            self.rflags,
            self.rip,
            self.ssp,
        ]
    }

    /// What a register holds.
    pub open spec fn value(self, reg: Gp) -> u64 {
        self.words()[reg.number() as int]
    }

    /// The image with one register changed.
    pub open spec fn with_gp(self, reg: Gp, value: u64) -> L2GprContext {
        match reg {
            Gp::RAX => L2GprContext { rax: value, ..self },
            Gp::RCX => L2GprContext { rcx: value, ..self },
            Gp::RDX => L2GprContext { rdx: value, ..self },
            Gp::RBX => L2GprContext { rbx: value, ..self },
            Gp::RSP => L2GprContext { rsp: value, ..self },
            Gp::RBP => L2GprContext { rbp: value, ..self },
            Gp::RSI => L2GprContext { rsi: value, ..self },
            Gp::RDI => L2GprContext { rdi: value, ..self },
            Gp::R8 => L2GprContext { r8: value, ..self },
            Gp::R9 => L2GprContext { r9: value, ..self },
            Gp::R10 => L2GprContext { r10: value, ..self },
            Gp::R11 => L2GprContext { r11: value, ..self },
            Gp::R12 => L2GprContext { r12: value, ..self },
            Gp::R13 => L2GprContext { r13: value, ..self },
            Gp::R14 => L2GprContext { r14: value, ..self },
            Gp::R15 => L2GprContext { r15: value, ..self },
        }
    }

    /// What a register holds.
    pub fn gp(&self, reg: Gp) -> (r: u64)
        ensures
            r == self.value(reg),
    {
        match reg {
            Gp::RAX => self.rax,
            Gp::RCX => self.rcx,
            Gp::RDX => self.rdx,
            Gp::RBX => self.rbx,
            Gp::RSP => self.rsp,
            Gp::RBP => self.rbp,
            Gp::RSI => self.rsi,
            Gp::RDI => self.rdi,
            Gp::R8 => self.r8,
            Gp::R9 => self.r9,
            Gp::R10 => self.r10,
            Gp::R11 => self.r11,
            Gp::R12 => self.r12,
            Gp::R13 => self.r13,
            Gp::R14 => self.r14,
            Gp::R15 => self.r15,
        }
    }

    /// Change a register.
    pub fn set_gp(&mut self, reg: Gp, value: u64)
        ensures
            *final(self) == old(self).with_gp(reg, value),
    {
        match reg {
            Gp::RAX => self.rax = value,
            Gp::RCX => self.rcx = value,
            Gp::RDX => self.rdx = value,
            Gp::RBX => self.rbx = value,
            Gp::RSP => self.rsp = value,
            Gp::RBP => self.rbp = value,
            Gp::RSI => self.rsi = value,
            Gp::RDI => self.rdi = value,
            Gp::R8 => self.r8 = value,
            Gp::R9 => self.r9 = value,
            Gp::R10 => self.r10 = value,
            Gp::R11 => self.r11 = value,
            Gp::R12 => self.r12 = value,
            Gp::R13 => self.r13 = value,
            Gp::R14 => self.r14 = value,
            Gp::R15 => self.r15 = value,
        }
    }
}

/// A register reads back what was written to it, and the others keep their
/// value.
pub proof fn law_gp_reads_back(regs: L2GprContext, written: Gp, value: u64, read: Gp)
    ensures
        regs.with_gp(written, value).value(read) == (if read == written {
            value
        } else {
            regs.value(read)
        }),
        regs.with_gp(written, value).rip == regs.rip,
        regs.with_gp(written, value).rflags == regs.rflags,
        regs.with_gp(written, value).interrupt_status == regs.interrupt_status,
{
}

/// The image that a page holds.
#[verifier::opaque]
pub open spec fn context_at(page: Seq<u8>) -> L2GprContext {
    L2GprContext {
        rax: crate::bytes::le64(page, 0),
        rcx: crate::bytes::le64(page, 8),
        rdx: crate::bytes::le64(page, 16),
        rbx: crate::bytes::le64(page, 24),
        rsp: crate::bytes::le64(page, 32),
        rbp: crate::bytes::le64(page, 40),
        rsi: crate::bytes::le64(page, 48),
        rdi: crate::bytes::le64(page, 56),
        r8: crate::bytes::le64(page, 64),
        r9: crate::bytes::le64(page, 72),
        r10: crate::bytes::le64(page, 80),
        r11: crate::bytes::le64(page, 88),
        r12: crate::bytes::le64(page, 96),
        r13: crate::bytes::le64(page, 104),
        r14: crate::bytes::le64(page, 112),
        r15: crate::bytes::le64(page, 120),
        rflags: crate::bytes::le64(page, 128),
        rip: crate::bytes::le64(page, 136),
        ssp: crate::bytes::le64(page, 144),
        interrupt_status: crate::bytes::le16(page, 152),
    }
}

/// `page` with the first `count` 64-bit registers replaced.
pub open spec fn with_registers(page: Seq<u8>, words: Seq<u64>, count: int) -> Seq<u8> {
    Seq::new(
        page.len(),
        |k: int|
            if 0 <= k < 8 * count {
                crate::bytes::bytes64(words[k / 8])[k % 8]
            } else {
                page[k]
            },
    )
}

/// `page` with a register image stored in it.
#[verifier::opaque]
pub open spec fn with_context(page: Seq<u8>, regs: L2GprContext) -> Seq<u8> {
    crate::bytes::overwrite(
        with_registers(page, regs.words(), 19),
        152,
        crate::bytes::bytes16(regs.interrupt_status),
    )
}

proof fn lemma_with_registers_step(page: Seq<u8>, words: Seq<u64>, count: int)
    requires
        0 <= count,
        8 * count + 8 <= page.len(),
    ensures
        crate::bytes::overwrite(
            with_registers(page, words, count),
            8 * count,
            crate::bytes::bytes64(words[count]),
        ) == with_registers(page, words, count + 1),
{
    let step = crate::bytes::overwrite(
        with_registers(page, words, count),
        8 * count,
        crate::bytes::bytes64(words[count]),
    );
    let after = with_registers(page, words, count + 1);
    assert forall|k: int| 0 <= k < page.len() implies step[k] == after[k] by {
        if 8 * count <= k < 8 * (count + 1) {
            assert(k / 8 == count && k % 8 == k - 8 * count);
        }
    }
    assert(step =~= after);
}

/// Eight stored bytes of a number are that number.
proof fn lemma_eight_bytes(page: Seq<u8>, offset: int, value: u64)
    requires
        0 <= offset && offset + 8 <= page.len(),
        forall|j: int|
            0 <= j < 8 ==> #[trigger] page[offset + j] == crate::bytes::bytes64(value)[j],
    ensures
        crate::bytes::le64(page, offset) == value,
{
    let stored = crate::bytes::overwrite(page, offset, crate::bytes::bytes64(value));
    assert forall|k: int| 0 <= k < page.len() implies stored[k] == page[k] by {
        if offset <= k < offset + 8 {
            assert(page[offset + (k - offset)] == crate::bytes::bytes64(value)[k - offset]);
        }
    }
    assert(stored =~= page);
    crate::bytes::law_stored_u64_reads_back(page, offset, value);
}

/// A stored register image reads back, and only its own bytes of the page
/// change.
pub proof fn law_context_reads_back(page: Seq<u8>, regs: L2GprContext)
    requires
        page.len() >= CONTEXT_END,
    ensures
        context_at(with_context(page, regs)) == regs,
        with_context(page, regs).len() == page.len(),
        forall|k: int| CONTEXT_END <= k < page.len() ==> with_context(page, regs)[k] == page[k],
{
    reveal(context_at);
    reveal(with_context);
    let after = with_context(page, regs);
    let words = regs.words();
    assert forall|i: int| 0 <= i < 19 implies #[trigger] crate::bytes::le64(after, 8 * i)
        == words[i] by {
        assert forall|j: int| 0 <= j < 8 implies #[trigger] after[8 * i + j]
            == crate::bytes::bytes64(words[i])[j] by {
            assert((8 * i + j) / 8 == i && (8 * i + j) % 8 == j);
        }
        lemma_eight_bytes(after, 8 * i, words[i]);
    }
    assert(crate::bytes::le64(after, 8int * 0) == regs.rax);
    assert(crate::bytes::le64(after, 8int * 1) == regs.rcx);
    assert(crate::bytes::le64(after, 8int * 2) == regs.rdx);
    assert(crate::bytes::le64(after, 8int * 3) == regs.rbx);
    assert(crate::bytes::le64(after, 8int * 4) == regs.rsp);
    assert(crate::bytes::le64(after, 8int * 5) == regs.rbp);
    assert(crate::bytes::le64(after, 8int * 6) == regs.rsi);
    assert(crate::bytes::le64(after, 8int * 7) == regs.rdi);
    assert(crate::bytes::le64(after, 8int * 8) == regs.r8);
    assert(crate::bytes::le64(after, 8int * 9) == regs.r9);
    assert(crate::bytes::le64(after, 8int * 10) == regs.r10);
    assert(crate::bytes::le64(after, 8int * 11) == regs.r11);
    assert(crate::bytes::le64(after, 8int * 12) == regs.r12);
    assert(crate::bytes::le64(after, 8int * 13) == regs.r13);
    assert(crate::bytes::le64(after, 8int * 14) == regs.r14);
    assert(crate::bytes::le64(after, 8int * 15) == regs.r15);
    assert(crate::bytes::le64(after, 8int * 16) == regs.rflags);
    assert(crate::bytes::le64(after, 8int * 17) == regs.rip);
    assert(crate::bytes::le64(after, 8int * 18) == regs.ssp);
    crate::bytes::law_stored_u16_reads_back(
        with_registers(page, words, 19),
        152,
        regs.interrupt_status,
    );
}

/// Read the register image out of its page.
pub fn read_context(page: &[u8]) -> (r: L2GprContext)
    requires
        page@.len() >= CONTEXT_END,
    ensures
        r == context_at(page@),
{
    reveal(context_at);
    L2GprContext {
        rax: crate::bytes::read64(page, 0),
        rcx: crate::bytes::read64(page, 8),
        rdx: crate::bytes::read64(page, 16),
        rbx: crate::bytes::read64(page, 24),
        rsp: crate::bytes::read64(page, 32),
        rbp: crate::bytes::read64(page, 40),
        rsi: crate::bytes::read64(page, 48),
        rdi: crate::bytes::read64(page, 56),
        r8: crate::bytes::read64(page, 64),
        r9: crate::bytes::read64(page, 72),
        r10: crate::bytes::read64(page, 80),
        r11: crate::bytes::read64(page, 88),
        r12: crate::bytes::read64(page, 96),
        r13: crate::bytes::read64(page, 104),
        r14: crate::bytes::read64(page, 112),
        r15: crate::bytes::read64(page, 120),
        rflags: crate::bytes::read64(page, 128),
        rip: crate::bytes::read64(page, 136),
        ssp: crate::bytes::read64(page, 144),
        interrupt_status: crate::bytes::read16(page, 152),
    }
}

/// Store a register image in its page.
pub fn write_context(page: &mut [u8], regs: &L2GprContext)
    requires
        old(page)@.len() >= CONTEXT_END,
    ensures
        final(page)@ == with_context(old(page)@, *regs),
        final(page)@.len() == old(page)@.len(),
{
    reveal(with_context);
    let ghost before = page@;
    let words: [u64; 19] = [
        regs.rax,
        regs.rcx,
        regs.rdx,
        regs.rbx,
        regs.rsp,
        regs.rbp,
        regs.rsi,
        regs.rdi,
        regs.r8,
        regs.r9,
        regs.r10,
        regs.r11,
        regs.r12,
        regs.r13,
        regs.r14,
        regs.r15,
        regs.rflags,
        regs.rip,
        regs.ssp,
    ];
    assert(words@ =~= regs.words());
    let mut i: usize = 0;
    assert(page@ =~= with_registers(before, words@, 0));
    while i < 19
        invariant
            i <= 19,
            before.len() >= CONTEXT_END,
            page@ == with_registers(before, words@, i as int),
        decreases 19 - i,
    {
        proof {
            lemma_with_registers_step(before, words@, i as int);
        }
        crate::bytes::write64(&mut *page, i * 8, words[i]);
        i = i + 1;
    }
    crate::bytes::write16(&mut *page, 152, regs.interrupt_status);
}

/// The registers are numbered as instructions encode them, and a register that
/// is changed by its number is the one that is read under its name. Nothing
/// else of the image changes.
pub proof fn law_registers_go_by_their_encoding(regs: L2GprContext, number: u64, value: u64)
    requires
        number < 16,
    ensures
        ({
            let after = regs.with_gp(Gp::numbered(number), value);
            let held = regs.value(Gp::numbered(number));
            &&& number == 0 ==> held == regs.rax && after.rax == value
            &&& number == 1 ==> held == regs.rcx && after.rcx == value
            &&& number == 2 ==> held == regs.rdx && after.rdx == value
            &&& number == 3 ==> held == regs.rbx && after.rbx == value
            &&& number == 4 ==> held == regs.rsp && after.rsp == value
            &&& number == 5 ==> held == regs.rbp && after.rbp == value
            &&& number == 6 ==> held == regs.rsi && after.rsi == value
            &&& number == 7 ==> held == regs.rdi && after.rdi == value
            &&& number == 8 ==> held == regs.r8 && after.r8 == value
            &&& number == 9 ==> held == regs.r9 && after.r9 == value
            &&& number == 10 ==> held == regs.r10 && after.r10 == value
            &&& number == 11 ==> held == regs.r11 && after.r11 == value
            &&& number == 12 ==> held == regs.r12 && after.r12 == value
            &&& number == 13 ==> held == regs.r13 && after.r13 == value
            &&& number == 14 ==> held == regs.r14 && after.r14 == value
            &&& number == 15 ==> held == regs.r15 && after.r15 == value
            &&& number != 0 ==> after.rax == regs.rax
            &&& number != 1 ==> after.rcx == regs.rcx
            &&& number != 2 ==> after.rdx == regs.rdx
            &&& number != 3 ==> after.rbx == regs.rbx
            &&& number != 4 ==> after.rsp == regs.rsp
            &&& number != 5 ==> after.rbp == regs.rbp
            &&& number != 6 ==> after.rsi == regs.rsi
            &&& number != 7 ==> after.rdi == regs.rdi
            &&& number != 8 ==> after.r8 == regs.r8
            &&& number != 9 ==> after.r9 == regs.r9
            &&& number != 10 ==> after.r10 == regs.r10
            &&& number != 11 ==> after.r11 == regs.r11
            &&& number != 12 ==> after.r12 == regs.r12
            &&& number != 13 ==> after.r13 == regs.r13
            &&& number != 14 ==> after.r14 == regs.r14
            &&& number != 15 ==> after.r15 == regs.r15
            &&& after.rip == regs.rip && after.rflags == regs.rflags && after.ssp == regs.ssp
                && after.interrupt_status == regs.interrupt_status
        }),
{
}

/// Each register of an image has eight bytes of its page to itself, in the order
/// of the encoding; RFLAGS, RIP, the shadow stack pointer and the two bytes of the
/// interrupt status follow.
#[verifier::rlimit(40)]
pub proof fn law_image_lies_in_encoding_order(page: Seq<u8>, number: u64)
    requires
        number < 16,
    ensures
        context_at(page).value(Gp::numbered(number)) == crate::bytes::le64(page, 8 * number as int),
        context_at(page).rflags == crate::bytes::le64(page, 0x80),
        context_at(page).rip == crate::bytes::le64(page, 0x88),
        context_at(page).ssp == crate::bytes::le64(page, 0x90),
        context_at(page).interrupt_status == crate::bytes::le16(page, 0x98),
{
    reveal(context_at);
    let image = context_at(page);
    assert(number == 0 ==> image.value(Gp::RAX) == image.rax);
    assert(number == 1 ==> image.value(Gp::RCX) == image.rcx);
    assert(number == 2 ==> image.value(Gp::RDX) == image.rdx);
    assert(number == 3 ==> image.value(Gp::RBX) == image.rbx);
    assert(number == 4 ==> image.value(Gp::RSP) == image.rsp);
    assert(number == 5 ==> image.value(Gp::RBP) == image.rbp);
    assert(number == 6 ==> image.value(Gp::RSI) == image.rsi);
    assert(number == 7 ==> image.value(Gp::RDI) == image.rdi);
    assert(number == 8 ==> image.value(Gp::R8) == image.r8);
    assert(number == 9 ==> image.value(Gp::R9) == image.r9);
    assert(number == 10 ==> image.value(Gp::R10) == image.r10);
    assert(number == 11 ==> image.value(Gp::R11) == image.r11);
    assert(number == 12 ==> image.value(Gp::R12) == image.r12);
    assert(number == 13 ==> image.value(Gp::R13) == image.r13);
    assert(number == 14 ==> image.value(Gp::R14) == image.r14);
    assert(number == 15 ==> image.value(Gp::R15) == image.r15);
}

/// A register image that was never filled in holds zero everywhere.
pub proof fn law_fresh_image_is_zero(number: u64)
    requires
        number < 16,
    ensures
        L2GprContext::zeroed().value(Gp::numbered(number)) == 0,
        L2GprContext::zeroed().rflags == 0,
        L2GprContext::zeroed().rip == 0,
        L2GprContext::zeroed().ssp == 0,
        L2GprContext::zeroed().interrupt_status == 0,
{
}

} // verus!
