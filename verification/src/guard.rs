use crate::account::{Account, AccountView};
use crate::address::{same_address, Address};
use crate::error::EscrowError;
use vstd::prelude::*;

verus! {

/// The conditions on the accounts of a creation, in the order in which they
/// are tested: the supplied record address is the derived one, and the payer
/// approved the call.
pub open spec fn creation_check(owner: AccountView, pda: AccountView, pda_key: Seq<u8>) -> Result<
    (),
    EscrowError,
> {
    if pda.key != pda_key {
        Err(EscrowError::AccountMismatch)
    } else if !owner.is_signer {
        Err(EscrowError::Unauthorized)
    } else {
        Ok(())
    }
}

/// The conditions on the accounts of a release, in the order in which they
/// are tested: the supplied record address is the derived one, the record is
/// owned by this program, and the payer approved the call.
pub open spec fn increment_check(
    program_id: Seq<u8>,
    owner: AccountView,
    pda: AccountView,
    pda_key: Seq<u8>,
) -> Result<(), EscrowError> {
    if pda.key != pda_key {
        Err(EscrowError::AccountMismatch)
    } else if pda.owner != program_id {
        Err(EscrowError::AccountMismatch)
    } else if !owner.is_signer {
        Err(EscrowError::Unauthorized)
    } else {
        Ok(())
    }
}

/// Validates the accounts of a creation against the derived record address.
pub fn validate_accounts_on_creation(owner: &Account, pda: &Account, pda_key: &Address) -> (checked:
    Result<(), EscrowError>)
    ensures
        checked == creation_check(owner@, pda@, pda_key@),
{
    if !same_address(&pda.key, pda_key) {
        return Err(EscrowError::AccountMismatch);
    }
    if !owner.is_signer {
        return Err(EscrowError::Unauthorized);
    }
    Ok(())
}

/// Validates the accounts of a release against the derived record address and
/// this program's identity.
pub fn validate_accounts_on_increment_step(
    program_id: &Address,
    owner: &Account,
    pda: &Account,
    pda_key: &Address,
) -> (checked: Result<(), EscrowError>)
    ensures
        checked == increment_check(program_id@, owner@, pda@, pda_key@),
{
    if !same_address(&pda.key, pda_key) {
        return Err(EscrowError::AccountMismatch);
    }
    if !same_address(&pda.owner, program_id) {
        return Err(EscrowError::AccountMismatch);
    }
    if !owner.is_signer {
        return Err(EscrowError::Unauthorized);
    }
    Ok(())
}

} // verus!
