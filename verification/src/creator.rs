use crate::account::{Account, AccountView};
use crate::address::{derived_address, Address};
use crate::error::EscrowError;
use crate::guard::{creation_check, validate_accounts_on_creation};
use crate::record::{
    lemma_record_wire_len, record_size, record_wire, ContractData, RecordView,
};
use vstd::prelude::*;

verus! {

/// The record that a creation writes: nothing released yet.
pub open spec fn opening_record(
    owner: Seq<u8>,
    worker: Seq<u8>,
    contract_id: Seq<char>,
    total_quantity: u64,
) -> RecordView {
    RecordView { contract_id, owner, worker, total_quantity, actual_step: 0 }
}

/// What allocating and funding a record does to the payer's account and to
/// the record's, in this order, or why it is rejected. The record must be
/// storable, its address vacant, and the payer must hold the reserve and the
/// deposit together. The record's account then belongs to this program,
/// holds reserve and deposit, and its data are the opening record.
pub open spec fn allocation_outcome(
    program_id: Seq<u8>,
    owner: AccountView,
    worker: AccountView,
    pda: AccountView,
    contract_id: Seq<char>,
    total_quantity: u64,
    rent_lamports: u64,
) -> Result<(AccountView, AccountView), EscrowError> {
    let record = opening_record(owner.key, worker.key, contract_id, total_quantity);
    if !record.storable() || record_size(contract_id) > usize::MAX {
        Err(EscrowError::MalformedRecord)
    } else if !pda.is_vacant() {
        Err(EscrowError::AccountAlreadyInitialized)
    } else if owner.lamports < rent_lamports + total_quantity {
        Err(EscrowError::InsufficientFunds)
    } else {
        Ok(
            (
                AccountView {
                    lamports: (owner.lamports - rent_lamports - total_quantity) as u64,
                    ..owner
                },
                AccountView {
                    owner: program_id,
                    lamports: (rent_lamports + total_quantity) as u64,
                    data: record_wire(record),
                    ..pda
                },
            ),
        )
    }
}

/// Allocates the record of (owner, worker, contract id) at `pda` for this
/// program, funds it with the reserve `rent_lamports` and the deposit
/// `total_quantity` out of `owner`, and writes the opening record. A
/// creation that is rejected changes neither account.
pub fn create_contract(
    program_id: &Address,
    owner: &mut Account,
    worker: &Account,
    pda: &mut Account,
    contract_id: String,
    total_quantity: u64,
    rent_lamports: u64,
) -> (done: Result<(), EscrowError>)
    ensures
        match allocation_outcome(
            program_id@,
            old(owner)@,
            worker@,
            old(pda)@,
            contract_id@,
            total_quantity,
            rent_lamports,
        ) {
            Ok((charged, opened)) => done is Ok && final(owner)@ == charged && final(pda)@
                == opened,
            Err(e) => done == Err::<(), EscrowError>(e) && final(owner)@ == old(owner)@
                && final(pda)@ == old(pda)@,
        },
{
    let contract_data = ContractData {
        contract_id,
        owner: owner.key,
        worker: worker.key,
        total_quantity,
        actual_step: 0,
    };
    let data = match contract_data.serialize() {
        Ok(data) => data,
        Err(e) => { return Err(e); },
    };
    proof {
        lemma_record_wire_len(contract_data@);
        assert(data@.len() == data.len());
    }
    if !pda.is_vacant() {
        return Err(EscrowError::AccountAlreadyInitialized);
    }
    let funding = match rent_lamports.checked_add(total_quantity) {
        Some(funding) => funding,
        None => { return Err(EscrowError::InsufficientFunds); },
    };
    if owner.lamports < funding {
        return Err(EscrowError::InsufficientFunds);
    }
    owner.lamports = owner.lamports - funding;
    pda.owner = *program_id;
    pda.lamports = funding;
    pda.data = data;
    Ok(())
}

/// What the creation command does to the payer's account and to the
/// record's, with the authority seed of the record address, or why it is
/// rejected. The conditions are tested in this order: the payer holds the deposit; the
/// supplied record address is the one derived for (owner, worker, contract
/// id); the payer approved the call. Then the allocation decides.
pub open spec fn create_outcome(
    program_id: Seq<u8>,
    owner: AccountView,
    worker: AccountView,
    pda: AccountView,
    contract_id: Seq<char>,
    total_quantity: u64,
    rent_lamports: u64,
) -> Result<(AccountView, AccountView, u8), EscrowError> {
    if total_quantity > owner.lamports {
        Err(EscrowError::InsufficientFunds)
    } else {
        match derived_address(owner.key, worker.key, contract_id, program_id) {
            None => Err(EscrowError::AccountMismatch),
            Some((address, bump_seed)) => match creation_check(owner, pda, address) {
                Err(e) => Err(e),
                Ok(()) => match allocation_outcome(
                    program_id,
                    owner,
                    worker,
                    pda,
                    contract_id,
                    total_quantity,
                    rent_lamports,
                ) {
                    Err(e) => Err(e),
                    Ok((charged, opened)) => Ok((charged, opened, bump_seed)),
                },
            },
        }
    }
}

/// Handles the creation command for the escrow of (owner, worker, contract
/// id): validates funds and accounts, then creates the record. Returns the
/// authority seed with which the allocation at the record address is signed.
/// A command that is rejected changes neither account.
pub fn create_contract_handler(
    program_id: &Address,
    owner: &mut Account,
    worker: &Account,
    pda: &mut Account,
    contract_id: String,
    total_quantity: u64,
    rent_lamports: u64,
) -> (done: Result<u8, EscrowError>)
    ensures
        match create_outcome(
            program_id@,
            old(owner)@,
            worker@,
            old(pda)@,
            contract_id@,
            total_quantity,
            rent_lamports,
        ) {
            Ok((charged, opened, bump_seed)) => done == Ok::<u8, EscrowError>(bump_seed)
                && final(owner)@ == charged && final(pda)@ == opened,
            Err(e) => done == Err::<u8, EscrowError>(e) && final(owner)@ == old(owner)@
                && final(pda)@ == old(pda)@,
        },
{
    if total_quantity > owner.lamports {
        return Err(EscrowError::InsufficientFunds);
    }
    let (pda_key, bump_seed) = match crate::address::derive(
        &owner.key,
        &worker.key,
        contract_id.as_str(),
        program_id,
    ) {
        Some(binding) => binding,
        None => { return Err(EscrowError::AccountMismatch); },
    };
    match validate_accounts_on_creation(owner, pda, &pda_key) {
        Ok(()) => {},
        Err(e) => { return Err(e); },
    }
    match create_contract(
        program_id,
        owner,
        worker,
        pda,
        contract_id,
        total_quantity,
        rent_lamports,
    ) {
        Ok(()) => Ok(bump_seed),
        Err(e) => Err(e),
    }
}

} // verus!
