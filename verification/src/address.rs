use solana_program::pubkey::Pubkey;
use vstd::prelude::*;
use vstd::utf8::encode_utf8;

verus! {

/// A 32-byte account address.
pub type Address = [u8; 32];

/// The longest seed, in bytes, that the derivation accepts.
pub const MAX_SEED_LEN: usize = 32;

/// The program address and bump seed that the ledger's derivation yields for
/// the seeds `owner`, `worker`, `contract_id` under `program_id`, or `None`
/// where it yields none.
pub uninterp spec fn program_address(
    owner: Seq<u8>,
    worker: Seq<u8>,
    contract_id: Seq<u8>,
    program_id: Seq<u8>,
) -> Option<(Seq<u8>, u8)>;

/// A derivation result as plain values.
pub open spec fn binding_view(binding: Option<(Address, u8)>) -> Option<(Seq<u8>, u8)> {
    match binding {
        Some((address, bump)) => Some((address@, bump)),
        None => None,
    }
}

/// The record address and authority seed bound to (owner, worker, contract
/// id) under `program_id`. A contract id longer than `MAX_SEED_LEN` bytes is
/// bound to nothing.
pub open spec fn derived_address(
    owner: Seq<u8>,
    worker: Seq<u8>,
    contract_id: Seq<char>,
    program_id: Seq<u8>,
) -> Option<(Seq<u8>, u8)> {
    if encode_utf8(contract_id).len() > MAX_SEED_LEN {
        None
    } else {
        program_address(owner, worker, encode_utf8(contract_id), program_id)
    }
}

/// Calls `Pubkey::try_find_program_address` with the seeds `owner`, `worker`
/// and `contract_id`, in this order. Trusted: the result is a function of the
/// four byte strings alone, and a contract id longer than `MAX_SEED_LEN`
/// bytes yields `None`.
#[verifier::external_body]
fn try_find_program_address(
    owner: &Address,
    worker: &Address,
    contract_id: &[u8],
    program_id: &Address,
) -> (binding: Option<(Address, u8)>)
    ensures
        binding_view(binding) == program_address(owner@, worker@, contract_id@, program_id@),
        contract_id@.len() > MAX_SEED_LEN ==> binding is None,
{
    let program = Pubkey::new_from_array(*program_id);
    let seeds: [&[u8]; 3] = [&owner[..], &worker[..], contract_id];
    match Pubkey::try_find_program_address(&seeds, &program) {
        Some((address, bump)) => Some((address.to_bytes(), bump)),
        None => None,
    }
}

/// Derives the record address and its authority seed for a triple.
pub fn derive(owner: &Address, worker: &Address, contract_id: &str, program_id: &Address) -> (binding:
    Option<(Address, u8)>)
    ensures
        binding_view(binding) == derived_address(owner@, worker@, contract_id@, program_id@),
{
    try_find_program_address(owner, worker, contract_id.as_bytes(), program_id)
}

/// Whether two addresses hold the same bytes.
pub fn same_address(a: &Address, b: &Address) -> (same: bool)
    ensures
        same == (a@ == b@),
{
    let mut i: usize = 0;
    while i < 32
        invariant
            i <= 32,
            forall|j: int| 0 <= j < i ==> a@[j] == b@[j],
        decreases 32 - i,
    {
        if a[i] != b[i] {
            return false;
        }
        i += 1;
    }
    assert(a@ =~= b@);
    true
}

} // verus!
