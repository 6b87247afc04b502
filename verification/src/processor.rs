use crate::account::{Account, AccountView};
use crate::address::Address;
use crate::creator::{create_contract_handler, create_outcome};
use crate::error::EscrowError;
use crate::instruction::{parse_instruction, Instruction, InstructionView};
use crate::release::{advance_outcome, increment_step_handler};
use vstd::prelude::*;

verus! {

/// Which command an instruction carried out.
#[derive(Debug, Clone, Copy, PartialEq, Eq, Structural)]
pub enum Processed {
    /// A record was created; `bump_seed` is the authority seed of its address.
    Created { bump_seed: u8 },
    /// An installment was released.
    Advanced,
}

/// What an instruction does to the accounts of the owner, the worker and the
/// record, in this order, or why it is rejected. An instruction that does
/// not decode is rejected before any account is looked at.
pub open spec fn process_outcome(
    program_id: Seq<u8>,
    owner: AccountView,
    worker: AccountView,
    pda: AccountView,
    instruction_data: Seq<u8>,
    rent_lamports: u64,
) -> Result<(AccountView, AccountView, AccountView, Processed), EscrowError> {
    match parse_instruction(instruction_data) {
        None => Err(EscrowError::MalformedInstruction),
        Some(InstructionView::CreateContract { contract_id, total_quantity }) => match create_outcome(
            program_id,
            owner,
            worker,
            pda,
            contract_id,
            total_quantity,
            rent_lamports,
        ) {
            Ok((charged, opened, bump_seed)) => Ok(
                (charged, worker, opened, Processed::Created { bump_seed }),
            ),
            Err(e) => Err(e),
        },
        Some(InstructionView::IncrementStep { contract_id }) => match advance_outcome(
            program_id,
            owner,
            worker,
            pda,
            contract_id,
        ) {
            Ok((paid, drawn)) => Ok((owner, paid, drawn, Processed::Advanced)),
            Err(e) => Err(e),
        },
    }
}

/// Decodes an instruction and carries it out on the accounts of the owner,
/// the worker and the record. `rent_lamports` is the reserve that the ledger
/// asks for the record; only a creation reads it. An instruction that is
/// rejected changes no account.
pub fn process_instruction(
    program_id: &Address,
    owner: &mut Account,
    worker: &mut Account,
    pda: &mut Account,
    instruction_data: &[u8],
    rent_lamports: u64,
) -> (done: Result<Processed, EscrowError>)
    ensures
        match process_outcome(
            program_id@,
            old(owner)@,
            old(worker)@,
            old(pda)@,
            instruction_data@,
            rent_lamports,
        ) {
            Ok((o, w, p, processed)) => done == Ok::<Processed, EscrowError>(processed)
                && final(owner)@ == o && final(worker)@ == w && final(pda)@ == p,
            Err(e) => done == Err::<Processed, EscrowError>(e) && final(owner)@ == old(owner)@
                && final(worker)@ == old(worker)@ && final(pda)@ == old(pda)@,
        },
{
    let instruction = match Instruction::unpack(instruction_data) {
        Ok(instruction) => instruction,
        Err(e) => { return Err(e); },
    };
    match instruction {
        Instruction::CreateContract { contract_id, total_quantity } => {
            match create_contract_handler(
                program_id,
                owner,
                worker,
                pda,
                contract_id,
                total_quantity,
                rent_lamports,
            ) {
                Ok(bump_seed) => Ok(Processed::Created { bump_seed }),
                Err(e) => Err(e),
            }
        },
        Instruction::IncrementStep { contract_id } => {
            match increment_step_handler(program_id, owner, worker, pda, contract_id.as_str()) {
                Ok(()) => Ok(Processed::Advanced),
                Err(e) => Err(e),
            }
        },
    }
}

} // verus!
