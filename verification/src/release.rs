use crate::account::{Account, AccountView};
use crate::address::{derived_address, Address};
use crate::error::EscrowError;
use crate::guard::{increment_check, validate_accounts_on_increment_step};
use crate::record::{lemma_wire_of_parse_record, parse_record, stored, ContractData, RecordView};
use crate::wire::same_text;
use vstd::prelude::*;

verus! {

/// The number of installments in which a deposit is released.
pub const STEPS: u64 = 3;

/// The installment that is released at `step`: a third of the deposit,
/// rounded down, at steps 0 and 1; at step 2 what the first two left.
pub open spec fn installment(total_quantity: u64, step: u64) -> int {
    if step < 2 {
        (total_quantity / 3) as int
    } else {
        total_quantity - 2 * (total_quantity / 3)
    }
}

/// What has been released of a deposit once `steps` installments are out.
pub open spec fn released(total_quantity: u64, steps: u64) -> int {
    if steps >= STEPS {
        total_quantity as int
    } else {
        steps * (total_quantity / 3)
    }
}

/// The amount that the release at `actual_step` moves to the worker.
pub fn get_transfer_amount(total_quantity: u64, actual_step: u64) -> (amount: Result<
    u64,
    EscrowError,
>)
    ensures
        match amount {
            Ok(a) => actual_step < STEPS && a == installment(total_quantity, actual_step),
            Err(e) => actual_step >= STEPS && e == EscrowError::StepExhausted,
        },
{
    if actual_step < 2 {
        Ok(total_quantity / 3)
    } else if actual_step == 2 {
        let third = total_quantity / 3;
        Ok(total_quantity - third - third)
    } else {
        Err(EscrowError::StepExhausted)
    }
}

/// A record after one more installment has been released.
pub open spec fn after_release(record: RecordView) -> RecordView {
    RecordView { actual_step: (record.actual_step + 1) as u64, ..record }
}

/// What a release does to the worker's account and to the record's, in this
/// order, or why it is rejected: the record's data must hold a record with an
/// installment left, and both balances must stay in range.
pub open spec fn increment_outcome(worker: AccountView, pda: AccountView) -> Result<
    (AccountView, AccountView),
    EscrowError,
> {
    match parse_record(pda.data) {
        None => Err(EscrowError::MalformedRecord),
        Some(record) => if record.actual_step >= STEPS {
            Err(EscrowError::StepExhausted)
        } else {
            let amount = installment(record.total_quantity, record.actual_step);
            if worker.lamports + amount > u64::MAX || pda.lamports < amount {
                Err(EscrowError::ArithmeticFault)
            } else {
                Ok(
                    (
                        AccountView { lamports: (worker.lamports + amount) as u64, ..worker },
                        AccountView {
                            lamports: (pda.lamports - amount) as u64,
                            data: stored(pda.data, after_release(record)),
                            ..pda
                        },
                    ),
                )
            }
        },
    }
}

/// Releases the next installment of the record in `pda` to `worker`: moves
/// the amount between the two balances and counts the step in the record. A
/// release that is rejected changes neither account.
pub fn increment_step(worker: &mut Account, pda: &mut Account) -> (done: Result<(), EscrowError>)
    ensures
        match increment_outcome(old(worker)@, old(pda)@) {
            Ok((paid, drawn)) => done is Ok && final(worker)@ == paid && final(pda)@ == drawn,
            Err(e) => done == Err::<(), EscrowError>(e) && final(worker)@ == old(worker)@
                && final(pda)@ == old(pda)@,
        },
{
    let mut contract_data = match ContractData::deserialize(pda.data.as_slice()) {
        Ok(contract_data) => contract_data,
        Err(e) => { return Err(e); },
    };
    let transfer_amount = match get_transfer_amount(
        contract_data.total_quantity,
        contract_data.actual_step,
    ) {
        Ok(amount) => amount,
        Err(e) => { return Err(e); },
    };
    let paid = match worker.lamports.checked_add(transfer_amount) {
        Some(paid) => paid,
        None => { return Err(EscrowError::ArithmeticFault); },
    };
    let drawn = match pda.lamports.checked_sub(transfer_amount) {
        Some(drawn) => drawn,
        None => { return Err(EscrowError::ArithmeticFault); },
    };
    proof {
        lemma_wire_of_parse_record(pda.data@, contract_data@);
    }
    contract_data.actual_step += 1;
    match contract_data.store(&mut pda.data) {
        Ok(()) => {},
        Err(e) => { return Err(e); },
    }
    worker.lamports = paid;
    pda.lamports = drawn;
    Ok(())
}

/// What the release command does to the worker's account and to the
/// record's, or why it is rejected. The conditions are tested in this order: the
/// supplied record address is the one derived for (owner, worker, contract
/// id); the record is owned by this program; the owner approved the call;
/// the data hold a record; that record is the one of this contract id. Then
/// the release itself decides.
pub open spec fn advance_outcome(
    program_id: Seq<u8>,
    owner: AccountView,
    worker: AccountView,
    pda: AccountView,
    contract_id: Seq<char>,
) -> Result<(AccountView, AccountView), EscrowError> {
    match derived_address(owner.key, worker.key, contract_id, program_id) {
        None => Err(EscrowError::AccountMismatch),
        Some((address, bump)) => match increment_check(program_id, owner, pda, address) {
            Err(e) => Err(e),
            Ok(()) => match parse_record(pda.data) {
                None => Err(EscrowError::MalformedRecord),
                Some(record) => if record.contract_id != contract_id {
                    Err(EscrowError::AccountMismatch)
                } else {
                    increment_outcome(worker, pda)
                },
            },
        },
    }
}

/// Handles the release command for the escrow of (owner, worker, contract
/// id): validates the accounts, then releases the next installment. A
/// command that is rejected changes neither account.
pub fn increment_step_handler(
    program_id: &Address,
    owner: &Account,
    worker: &mut Account,
    pda: &mut Account,
    contract_id: &str,
) -> (done: Result<(), EscrowError>)
    ensures
        match advance_outcome(program_id@, owner@, old(worker)@, old(pda)@, contract_id@) {
            Ok((paid, drawn)) => done is Ok && final(worker)@ == paid && final(pda)@ == drawn,
            Err(e) => done == Err::<(), EscrowError>(e) && final(worker)@ == old(worker)@
                && final(pda)@ == old(pda)@,
        },
{
    let pda_key = match crate::address::derive(&owner.key, &worker.key, contract_id, program_id) {
        Some((pda_key, _bump_seed)) => pda_key,
        None => { return Err(EscrowError::AccountMismatch); },
    };
    match validate_accounts_on_increment_step(program_id, owner, pda, &pda_key) {
        Ok(()) => {},
        Err(e) => { return Err(e); },
    }
    let bound = match ContractData::deserialize(pda.data.as_slice()) {
        Ok(contract_data) => same_text(contract_data.contract_id.as_str(), contract_id),
        Err(e) => { return Err(e); },
    };
    if !bound {
        return Err(EscrowError::AccountMismatch);
    }
    increment_step(worker, pda)
}

} // verus!
