//! Control-register accesses.
//!
//! The TDX module owns bits of CR0 and CR4 for an L2 and forces an exit when
//! the guest writes them, whatever guest/host mask the L1 asks for. Both the
//! register and its read shadow have to be updated, or the guest reads back a
//! value it did not write.
use crate::error::ServiceError;
use crate::regs::Gp;
use crate::regs::L2GprContext;
use crate::vmcs::field;
use crate::vmcs::Command;
use vstd::prelude::*;

verus! {

/// What a control-register access calls for.
#[derive(Debug, Clone, Copy, PartialEq, Eq, Structural)]
pub enum CrAction {
    /// Write the register and, where it has one, its read shadow.
    Write { register: u32, shadow: Option<u32>, value: u64 },
    /// Read the register into a general-purpose register.
    Read { register: u32, gp: Gp },
}

/// The VMCS fields of a control register: the register and its read shadow.
pub open spec fn cr_fields(cr: u64) -> Option<(u32, Option<u32>)> {
    if cr == 0 {
        Some((field::GUEST_CR0, Some(field::CR0_SHADOW)))
    } else if cr == 3 {
        Some((field::GUEST_CR3, None))
    } else if cr == 4 {
        Some((field::GUEST_CR4, Some(field::CR4_SHADOW)))
    } else {
        None
    }
}

/// The general-purpose register that an exit qualification names.
pub open spec fn named_gp(qualification: u64) -> Gp {
    Gp::numbered(qualification / 0x100 % 0x10)
}

/// What an access calls for. The qualification holds the control register in
/// bits 0 to 3, the kind of access in bits 4 and 5, and the general-purpose
/// register in bits 8 to 11.
pub open spec fn cr_action(regs: L2GprContext, qualification: u64) -> Result<
    CrAction,
    ServiceError,
> {
    match cr_fields(qualification % 0x10) {
        None => Err(ServiceError::ControlRegister { cr: qualification % 0x10 }),
        Some((register, shadow)) => {
            let access_type = qualification / 0x10 % 4;
            if access_type == 0 {
                Ok(
                    CrAction::Write {
                        register,
                        shadow,
                        value: regs.value(named_gp(qualification)),
                    },
                )
            } else if access_type == 1 {
                Ok(CrAction::Read { register, gp: named_gp(qualification) })
            } else {
                Err(ServiceError::ControlRegisterAccess { access_type })
            }
        },
    }
}

proof fn lemma_qualification_bits(qualification: u64)
    by (bit_vector)
    ensures
        qualification & 0xf == qualification % 0x10,
        (qualification >> 4) & 3 == qualification / 0x10 % 4,
        (qualification >> 8) & 0xf == qualification / 0x100 % 0x10,
{
}

/// Decide on a control-register access.
pub fn emulate_cr_access(regs: &L2GprContext, qualification: u64) -> (r: Result<
    CrAction,
    ServiceError,
>)
    ensures
        r == cr_action(*regs, qualification),
{
    proof {
        lemma_qualification_bits(qualification);
    }
    let cr: u64 = qualification & 0xf;
    let access_type: u64 = (qualification >> 4) & 3;
    let gp: Gp = Gp::from_number((qualification >> 8) & 0xf);
    let (register, shadow): (u32, Option<u32>) = if cr == 0 {
        (field::GUEST_CR0, Some(field::CR0_SHADOW))
    } else if cr == 3 {
        (field::GUEST_CR3, None)
    } else if cr == 4 {
        (field::GUEST_CR4, Some(field::CR4_SHADOW))
    } else {
        return Err(ServiceError::ControlRegister { cr });
    };
    if access_type == 0 {
        Ok(CrAction::Write { register, shadow, value: regs.gp(gp) })
    } else if access_type == 1 {
        Ok(CrAction::Read { register, gp })
    } else {
        Err(ServiceError::ControlRegisterAccess { access_type })
    }
}

/// The program of a control-register write.
pub open spec fn cr_write_commands(register: u32, shadow: Option<u32>, value: u64) -> Seq<Command> {
    match shadow {
        Some(shadow) => seq![crate::vmcs::w64(register, value), crate::vmcs::w64(shadow, value)],
        None => seq![crate::vmcs::w64(register, value)],
    }
}

/// The program of a control-register write.
pub fn cr_write_program(register: u32, shadow: Option<u32>, value: u64) -> (r: Vec<Command>)
    ensures
        r@ == cr_write_commands(register, shadow, value),
{
    let mut program: Vec<Command> = Vec::new();
    crate::vmcs::push64(&mut program, register, value);
    if let Some(shadow) = shadow {
        crate::vmcs::push64(&mut program, shadow, value);
    }
    assert(program@ =~= cr_write_commands(register, shadow, value));
    program
}

/// A guest reads back what it wrote: the read shadow holds the written value
/// entirely, and the register takes the bits that are the L1's to set.
pub proof fn law_cr_writes_reach_register_and_shadow(
    regs: L2GprContext,
    qualification: u64,
    vmcs: Map<u32, u64>,
)
    requires
        cr_action(regs, qualification) matches Ok(CrAction::Write { .. }),
    ensures
        ({
            let action = cr_action(regs, qualification)->Ok_0;
            let register = action->Write_register;
            let value = action->value;
            let after = crate::vmcs::after_commands(
                vmcs,
                cr_write_commands(register, action->shadow, value),
            );
            &&& after[register] == crate::vp_state::owned_bits(vmcs[register], value, register)
            &&& action->shadow matches Some(shadow) ==> after[shadow] == value
            &&& value == regs.value(named_gp(qualification))
        }),
{
    let action = cr_action(regs, qualification)->Ok_0;
    let register = action->Write_register;
    let value = action->value;
    let program = cr_write_commands(register, action->shadow, value);
    match action->shadow {
        Some(shadow) => {
            assert(crate::vmcs::spares(program.subrange(1, 2), register));
            assert(crate::vmcs::spares(program.subrange(2, 2), shadow));
            crate::vmcs::law_last_write_stays(vmcs, program, 0, register);
            crate::vmcs::law_last_write_stays(vmcs, program, 1, shadow);
            crate::vmcs::lemma_masked_bits(
                crate::vmcs::after_commands(vmcs, program.subrange(0, 1))[shadow],
                value,
                0,
            );
        },
        None => {
            assert(crate::vmcs::spares(program.subrange(1, 1), register));
            crate::vmcs::law_last_write_stays(vmcs, program, 0, register);
        },
    }
}

/// A write of a control register reaches that register and its own read shadow
/// and nothing else: after an emulated write of CR0 the shadow of CR0 holds the
/// written value and the shadow of CR4 what it held before, the other way round
/// for CR4, and a write of CR3 leaves both shadows alone. The value is the
/// general-purpose register that bits 8 to 11 of the qualification number.
pub proof fn law_each_cr_write_has_its_own_shadow(
    regs: L2GprContext,
    qualification: u64,
    vmcs: Map<u32, u64>,
    other: u32,
)
    requires
        qualification / 0x10 % 4 == 0,
    ensures
        ({
            let cr = qualification % 0x10;
            let value = regs.value(Gp::numbered(qualification / 0x100 % 0x10));
            &&& cr == 0 || cr == 3 || cr == 4 <==> cr_action(regs, qualification) is Ok
            &&& cr_action(regs, qualification) matches Ok(action) ==> {
                let after = crate::vmcs::after_commands(
                    vmcs,
                    cr_write_commands(action->Write_register, action->shadow, action->value),
                );
                &&& action is Write
                &&& cr == 0 ==> {
                    &&& after[field::CR0_SHADOW] == value
                    &&& after[field::GUEST_CR0] & 0x8005_001f == value & 0x8005_001f
                    &&& after[field::GUEST_CR0] & !0x8005_001fu64 == vmcs[field::GUEST_CR0]
                        & !0x8005_001fu64
                    &&& after[field::CR4_SHADOW] == vmcs[field::CR4_SHADOW]
                    &&& other != field::CR0_SHADOW && other != field::GUEST_CR0 ==> after[other]
                        == vmcs[other]
                }
                &&& cr == 3 ==> {
                    &&& after[field::GUEST_CR3] == value
                    &&& after[field::CR0_SHADOW] == vmcs[field::CR0_SHADOW]
                    &&& after[field::CR4_SHADOW] == vmcs[field::CR4_SHADOW]
                    &&& other != field::GUEST_CR3 ==> after[other] == vmcs[other]
                }
                &&& cr == 4 ==> {
                    &&& after[field::CR4_SHADOW] == value
                    &&& after[field::GUEST_CR4] & 0x3ff_1fbf == value & 0x3ff_1fbf
                    &&& after[field::GUEST_CR4] & !0x3ff_1fbfu64 == vmcs[field::GUEST_CR4]
                        & !0x3ff_1fbfu64
                    &&& after[field::CR0_SHADOW] == vmcs[field::CR0_SHADOW]
                    &&& other != field::CR4_SHADOW && other != field::GUEST_CR4 ==> after[other]
                        == vmcs[other]
                }
            }
        }),
{
    let cr = qualification % 0x10;
    let value = regs.value(Gp::numbered(qualification / 0x100 % 0x10));
    if cr_action(regs, qualification) is Ok {
        let action = cr_action(regs, qualification)->Ok_0;
        let register = action->Write_register;
        let program = cr_write_commands(register, action->shadow, value);
        let first = crate::vmcs::w64(register, value);
        reveal_with_fuel(crate::vmcs::after_commands, 3);
        let once = crate::vmcs::after_command(vmcs, first);
        match action->shadow {
            Some(shadow) => {
                assert(program.drop_last() =~= seq![first]);
                assert(program.drop_last().drop_last() =~= Seq::<Command>::empty());
                assert(crate::vmcs::after_commands(vmcs, program) == crate::vmcs::after_command(
                    once,
                    crate::vmcs::w64(shadow, value),
                ));
                crate::vmcs::lemma_masked_bits(once[shadow], value, 0);
            },
            None => {
                assert(program.drop_last() =~= Seq::<Command>::empty());
                assert(crate::vmcs::after_commands(vmcs, program) == once);
            },
        }
        crate::vmcs::lemma_stored_bits(vmcs[register], value, 0x8005_001f);
        crate::vmcs::lemma_stored_bits(vmcs[register], value, 0x3ff_1fbf);
        crate::vmcs::lemma_masked_bits(vmcs[register], value, 0);
    }
}

/// A read of a control register is of the register that bits 0 to 3 of the
/// qualification number, into the general-purpose register that bits 8 to 11
/// number.
pub proof fn law_cr_reads_go_where_the_qualification_says(
    regs: L2GprContext,
    qualification: u64,
)
    requires
        qualification / 0x10 % 4 == 1,
    ensures
        ({
            let cr = qualification % 0x10;
            let gp = Gp::numbered(qualification / 0x100 % 0x10);
            &&& cr == 0 ==> cr_action(regs, qualification) == Ok::<CrAction, ServiceError>(
                CrAction::Read { register: field::GUEST_CR0, gp },
            )
            &&& cr == 3 ==> cr_action(regs, qualification) == Ok::<CrAction, ServiceError>(
                CrAction::Read { register: field::GUEST_CR3, gp },
            )
            &&& cr == 4 ==> cr_action(regs, qualification) == Ok::<CrAction, ServiceError>(
                CrAction::Read { register: field::GUEST_CR4, gp },
            )
        }),
{
}

/// An access is refused exactly when it is to a control register other than
/// CR0, CR3 and CR4, or is neither a move to nor a move from it, and the refusal
/// names what was not emulated.
pub proof fn law_refused_cr_accesses_are_named(regs: L2GprContext, qualification: u64)
    ensures
        ({
            let cr = qualification % 0x10;
            let access_type = qualification / 0x10 % 4;
            let emulated = cr == 0 || cr == 3 || cr == 4;
            &&& cr_action(regs, qualification) is Ok <==> emulated && access_type < 2
            &&& !emulated ==> cr_action(regs, qualification) == Err::<CrAction, ServiceError>(
                ServiceError::ControlRegister { cr },
            )
            &&& emulated && access_type >= 2 ==> cr_action(regs, qualification) == Err::<
                CrAction,
                ServiceError,
            >(ServiceError::ControlRegisterAccess { access_type })
        }),
{
}

} // verus!
