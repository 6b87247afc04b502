use crate::account::AccountView;
use crate::address::{binding_view, derived_address, Address};
use crate::creator::{create_outcome, opening_record};
use crate::error::EscrowError;
use crate::record::{
    lemma_parse_record_of_stored, lemma_parse_record_of_wire, lemma_record_wire_len,
    lemma_wire_of_parse_record, parse_record, record_size, record_wire, RecordView,
};
use crate::release::{
    advance_outcome, after_release, increment_outcome, installment, released, STEPS,
};
use vstd::prelude::*;

verus! {

/// Derivation is a function of the triple and the program: two results for
/// the same inputs are the same address and the same authority seed.
pub proof fn lemma_derivation_repeats(
    owner: Seq<u8>,
    worker: Seq<u8>,
    contract_id: Seq<char>,
    program_id: Seq<u8>,
    first: Option<(Address, u8)>,
    second: Option<(Address, u8)>,
)
    requires
        binding_view(first) == derived_address(owner, worker, contract_id, program_id),
        binding_view(second) == derived_address(owner, worker, contract_id, program_id),
    ensures
        binding_view(first) == binding_view(second),
        first is Some ==> second is Some && first.unwrap().0@ == second.unwrap().0@
            && first.unwrap().1 == second.unwrap().1,
{
}

/// The three installments of a deposit sum to the deposit, and none of them
/// is negative.
pub proof fn lemma_installments_conserve(total_quantity: u64)
    ensures
        installment(total_quantity, 0) + installment(total_quantity, 1) + installment(
            total_quantity,
            2,
        ) == total_quantity,
        forall|step: u64| 0 <= #[trigger] installment(total_quantity, step) <= total_quantity,
{
}

/// Nothing is released before the first step, each step adds its
/// installment, and after the third step the whole deposit is out.
pub proof fn lemma_released_by_steps(total_quantity: u64, step: u64)
    ensures
        released(total_quantity, 0) == 0,
        step < STEPS ==> released(total_quantity, (step + 1) as u64) == released(
            total_quantity,
            step,
        ) + installment(total_quantity, step),
        step >= STEPS ==> released(total_quantity, step) == total_quantity,
        0 <= released(total_quantity, step) <= total_quantity,
{
    assert(step < STEPS ==> step * (total_quantity / 3) <= 2 * (total_quantity / 3))
        by (nonlinear_arith);
    assert(step < STEPS ==> (step + 1) * (total_quantity / 3) == step * (total_quantity / 3)
        + total_quantity / 3) by (nonlinear_arith);
    assert(0 <= step * (total_quantity / 3)) by (nonlinear_arith);
}

/// The record's account holds an escrow with reserve `rent_lamports`: its
/// data are a record at a step from 0 to 3, and its balance is the reserve
/// plus what of the deposit is not released yet.
pub open spec fn holds_escrow(pda: AccountView, rent_lamports: u64) -> bool {
    match parse_record(pda.data) {
        Some(record) => record.actual_step <= STEPS && pda.lamports == rent_lamports
            + record.total_quantity - released(record.total_quantity, record.actual_step),
        None => false,
    }
}

/// A creation that succeeds takes reserve and deposit from the owner and
/// nothing else, gives both to the record's account, hands that account to
/// this program, and leaves in it storage of exactly the record's size that
/// holds the opening record: an escrow at step 0.
pub proof fn lemma_creation_opens_escrow(
    program_id: Seq<u8>,
    owner: AccountView,
    worker: AccountView,
    pda: AccountView,
    contract_id: Seq<char>,
    total_quantity: u64,
    rent_lamports: u64,
)
    requires
        create_outcome(
            program_id,
            owner,
            worker,
            pda,
            contract_id,
            total_quantity,
            rent_lamports,
        ) is Ok,
    ensures
        ({
            let (charged, opened, bump_seed) = create_outcome(
                program_id,
                owner,
                worker,
                pda,
                contract_id,
                total_quantity,
                rent_lamports,
            ).unwrap();
            &&& derived_address(owner.key, worker.key, contract_id, program_id) == Some(
                (pda.key, bump_seed),
            )
            &&& charged.lamports == owner.lamports - rent_lamports - total_quantity
            &&& opened.lamports == rent_lamports + total_quantity
            &&& charged.lamports + opened.lamports == owner.lamports + pda.lamports
            &&& charged == AccountView { lamports: charged.lamports, ..owner }
            &&& opened.owner == program_id
            &&& opened.key == pda.key
            &&& opened.data.len() == record_size(contract_id)
            &&& parse_record(opened.data) == Some(
                opening_record(owner.key, worker.key, contract_id, total_quantity),
            )
            &&& holds_escrow(opened, rent_lamports)
        }),
{
    let record = opening_record(owner.key, worker.key, contract_id, total_quantity);
    lemma_parse_record_of_wire(record, Seq::empty());
    lemma_record_wire_len(record);
    assert(record_wire(record) + Seq::<u8>::empty() =~= record_wire(record));
}

/// Creating twice fails the second time: a creation on the accounts that a
/// successful creation for the same triple left is rejected, and with
/// `AccountAlreadyInitialized` where the owner still holds the second
/// deposit.
pub proof fn lemma_second_creation_fails(
    program_id: Seq<u8>,
    owner: AccountView,
    worker: AccountView,
    pda: AccountView,
    contract_id: Seq<char>,
    total_quantity: u64,
    rent_lamports: u64,
    second_quantity: u64,
    second_rent: u64,
)
    requires
        create_outcome(
            program_id,
            owner,
            worker,
            pda,
            contract_id,
            total_quantity,
            rent_lamports,
        ) is Ok,
    ensures
        ({
            let (charged, opened, bump_seed) = create_outcome(
                program_id,
                owner,
                worker,
                pda,
                contract_id,
                total_quantity,
                rent_lamports,
            ).unwrap();
            let second = create_outcome(
                program_id,
                charged,
                worker,
                opened,
                contract_id,
                second_quantity,
                second_rent,
            );
            &&& second is Err
            &&& second_quantity <= charged.lamports ==> second == Err::<
                (AccountView, AccountView, u8),
                EscrowError,
            >(EscrowError::AccountAlreadyInitialized)
        }),
{
    let record = opening_record(owner.key, worker.key, contract_id, total_quantity);
    lemma_record_wire_len(record);
}

/// A creation that the owner did not approve is rejected, and with
/// `Unauthorized` where the owner holds the deposit and the supplied record
/// address is the derived one.
pub proof fn lemma_unapproved_creation_fails(
    program_id: Seq<u8>,
    owner: AccountView,
    worker: AccountView,
    pda: AccountView,
    contract_id: Seq<char>,
    total_quantity: u64,
    rent_lamports: u64,
)
    requires
        !owner.is_signer,
    ensures
        ({
            let outcome = create_outcome(
                program_id,
                owner,
                worker,
                pda,
                contract_id,
                total_quantity,
                rent_lamports,
            );
            let derived = derived_address(owner.key, worker.key, contract_id, program_id);
            &&& outcome is Err
            &&& total_quantity <= owner.lamports && derived is Some && derived.unwrap().0
                == pda.key ==> outcome == Err::<(AccountView, AccountView, u8), EscrowError>(
                EscrowError::Unauthorized,
            )
        }),
{
}

/// A release that the owner did not approve is rejected, and with
/// `Unauthorized` where the supplied record address is the derived one and
/// the record is owned by this program.
pub proof fn lemma_unapproved_release_fails(
    program_id: Seq<u8>,
    owner: AccountView,
    worker: AccountView,
    pda: AccountView,
    contract_id: Seq<char>,
)
    requires
        !owner.is_signer,
    ensures
        ({
            let outcome = advance_outcome(program_id, owner, worker, pda, contract_id);
            let derived = derived_address(owner.key, worker.key, contract_id, program_id);
            &&& outcome is Err
            &&& derived is Some && derived.unwrap().0 == pda.key && pda.owner == program_id
                ==> outcome == Err::<(AccountView, AccountView), EscrowError>(
                EscrowError::Unauthorized,
            )
        }),
{
}

/// A record address that is not the derived one is rejected whatever the
/// account at that address holds: a release with `AccountMismatch`; a
/// creation too, where the owner holds the deposit, and with
/// `InsufficientFunds` where not.
pub proof fn lemma_spoofed_address_fails(
    program_id: Seq<u8>,
    owner: AccountView,
    worker: AccountView,
    pda: AccountView,
    contract_id: Seq<char>,
    total_quantity: u64,
    rent_lamports: u64,
)
    requires
        ({
            let derived = derived_address(owner.key, worker.key, contract_id, program_id);
            derived is None || derived.unwrap().0 != pda.key
        }),
    ensures
        advance_outcome(program_id, owner, worker, pda, contract_id) == Err::<
            (AccountView, AccountView),
            EscrowError,
        >(EscrowError::AccountMismatch),
        create_outcome(
            program_id,
            owner,
            worker,
            pda,
            contract_id,
            total_quantity,
            rent_lamports,
        ) == Err::<(AccountView, AccountView, u8), EscrowError>(
            if total_quantity <= owner.lamports {
                EscrowError::AccountMismatch
            } else {
                EscrowError::InsufficientFunds
            },
        ),
{
}

/// A creation whose deposit is more than the owner holds is rejected with
/// `InsufficientFunds`, whatever else is wrong with it.
pub proof fn lemma_unfunded_creation_fails(
    program_id: Seq<u8>,
    owner: AccountView,
    worker: AccountView,
    pda: AccountView,
    contract_id: Seq<char>,
    total_quantity: u64,
    rent_lamports: u64,
)
    requires
        total_quantity > owner.lamports,
    ensures
        create_outcome(
            program_id,
            owner,
            worker,
            pda,
            contract_id,
            total_quantity,
            rent_lamports,
        ) == Err::<(AccountView, AccountView, u8), EscrowError>(EscrowError::InsufficientFunds),
{
}

/// A release that succeeds moves one installment from the record's balance
/// to the worker's, counts one step in the record and changes nothing else:
/// the deposit, the parties and the contract id stay, as do the length of
/// the data and every other field of the two accounts.
pub proof fn lemma_release_moves_one_installment(worker: AccountView, pda: AccountView)
    requires
        increment_outcome(worker, pda) is Ok,
    ensures
        ({
            let (paid, drawn) = increment_outcome(worker, pda).unwrap();
            let record = parse_record(pda.data).unwrap();
            let amount = installment(record.total_quantity, record.actual_step);
            &&& parse_record(pda.data) is Some
            &&& record.actual_step < STEPS
            &&& parse_record(drawn.data) == Some(after_release(record))
            &&& after_release(record).actual_step == record.actual_step + 1
            &&& after_release(record).total_quantity == record.total_quantity
            &&& paid.lamports == worker.lamports + amount
            &&& drawn.lamports == pda.lamports - amount
            &&& paid == AccountView { lamports: paid.lamports, ..worker }
            &&& drawn == AccountView { lamports: drawn.lamports, data: drawn.data, ..pda }
            &&& drawn.data.len() == pda.data.len()
        }),
{
    let record = parse_record(pda.data).unwrap();
    lemma_wire_of_parse_record(pda.data, record);
    lemma_parse_record_of_stored(pda.data, after_release(record));
}

/// Releases keep the escrow: between operations the record's balance is the
/// reserve plus the deposit less what was released.
pub proof fn lemma_release_keeps_escrow(worker: AccountView, pda: AccountView, rent_lamports: u64)
    requires
        holds_escrow(pda, rent_lamports),
        increment_outcome(worker, pda) is Ok,
    ensures
        holds_escrow(increment_outcome(worker, pda).unwrap().1, rent_lamports),
{
    let record = parse_record(pda.data).unwrap();
    lemma_release_moves_one_installment(worker, pda);
    lemma_released_by_steps(record.total_quantity, record.actual_step);
}

/// An escrow always covers its next installment: with a step left, its
/// release fails only where the worker's balance would leave the 64-bit
/// range; with none left it fails with `StepExhausted`.
pub proof fn lemma_escrow_covers_release(worker: AccountView, pda: AccountView, rent_lamports: u64)
    requires
        holds_escrow(pda, rent_lamports),
    ensures
        ({
            let record = parse_record(pda.data).unwrap();
            let amount = installment(record.total_quantity, record.actual_step);
            let outcome = increment_outcome(worker, pda);
            &&& record.actual_step >= STEPS ==> outcome == Err::<
                (AccountView, AccountView),
                EscrowError,
            >(EscrowError::StepExhausted)
            &&& record.actual_step < STEPS && worker.lamports + amount > u64::MAX ==> outcome
                == Err::<(AccountView, AccountView), EscrowError>(EscrowError::ArithmeticFault)
            &&& record.actual_step < STEPS && worker.lamports + amount <= u64::MAX
                ==> outcome is Ok
        }),
{
    let record = parse_record(pda.data).unwrap();
    lemma_released_by_steps(record.total_quantity, record.actual_step);
    lemma_installments_conserve(record.total_quantity);
    if record.actual_step < STEPS {
        lemma_released_by_steps(record.total_quantity, (record.actual_step + 1) as u64);
    }
}

/// The outcome of `count` release commands in a row on the same accounts,
/// each on what the one before left.
pub open spec fn advances(
    program_id: Seq<u8>,
    owner: AccountView,
    worker: AccountView,
    pda: AccountView,
    contract_id: Seq<char>,
    count: nat,
) -> Result<(AccountView, AccountView), EscrowError>
    decreases count,
{
    if count == 0 {
        Ok((worker, pda))
    } else {
        match advances(program_id, owner, worker, pda, contract_id, (count - 1) as nat) {
            Ok((paid, drawn)) => advance_outcome(program_id, owner, paid, drawn, contract_id),
            Err(e) => Err(e),
        }
    }
}

/// The accounts meet every condition of the release command, and the record's
/// account holds an escrow for this contract id.
pub open spec fn ready_to_advance(
    program_id: Seq<u8>,
    owner: AccountView,
    worker: AccountView,
    pda: AccountView,
    contract_id: Seq<char>,
    rent_lamports: u64,
) -> bool {
    let derived = derived_address(owner.key, worker.key, contract_id, program_id);
    &&& derived is Some
    &&& derived.unwrap().0 == pda.key
    &&& pda.owner == program_id
    &&& owner.is_signer
    &&& holds_escrow(pda, rent_lamports)
    &&& parse_record(pda.data).unwrap().contract_id == contract_id
}

/// Steps are taken one by one, none is skipped and none repeated: where
/// `count` release commands in a row succeed on a record at step `s`, the
/// record is then at step `s + count`, which is at most 3 if any command
/// ran, with the same deposit; the worker has gained and the record's account has lost exactly
/// what the steps from `s` to `s + count` release, and nothing else of the
/// two accounts has changed. Once that reaches step 3, the next command is
/// rejected with `StepExhausted`.
pub proof fn lemma_advances_count_steps(
    program_id: Seq<u8>,
    owner: AccountView,
    worker: AccountView,
    pda: AccountView,
    contract_id: Seq<char>,
    count: nat,
)
    requires
        parse_record(pda.data) is Some,
        advances(program_id, owner, worker, pda, contract_id, count) is Ok,
    ensures
        ({
            let record = parse_record(pda.data).unwrap();
            let total = record.total_quantity;
            let step = (record.actual_step + count) as u64;
            let gain = released(total, step) - released(total, record.actual_step);
            let (paid, drawn) = advances(
                program_id,
                owner,
                worker,
                pda,
                contract_id,
                count,
            ).unwrap();
            &&& count > 0 ==> record.actual_step + count <= STEPS
            &&& parse_record(drawn.data) == Some(RecordView { actual_step: step, ..record })
            &&& 0 <= gain <= total
            &&& paid == AccountView { lamports: (worker.lamports + gain) as u64, ..worker }
            &&& paid.lamports == worker.lamports + gain
            &&& drawn == AccountView {
                lamports: (pda.lamports - gain) as u64,
                data: drawn.data,
                ..pda
            }
            &&& drawn.lamports == pda.lamports - gain
            &&& count > 0 && step == STEPS ==> advance_outcome(
                program_id,
                owner,
                paid,
                drawn,
                contract_id,
            ) == Err::<(AccountView, AccountView), EscrowError>(EscrowError::StepExhausted)
        }),
    decreases count,
{
    let record = parse_record(pda.data).unwrap();
    let total = record.total_quantity;
    lemma_released_by_steps(total, record.actual_step);
    if count > 0 {
        let before = (count - 1) as nat;
        lemma_advances_count_steps(program_id, owner, worker, pda, contract_id, before);
        let (paid, drawn) = advances(program_id, owner, worker, pda, contract_id, before).unwrap();
        let step = (record.actual_step + before) as u64;
        lemma_release_moves_one_installment(paid, drawn);
        lemma_released_by_steps(total, step);
        lemma_released_by_steps(total, (step + 1) as u64);
    }
}

/// An escrow pays as long as it has steps left: from an escrow at step `s`
/// that meets the conditions of the release command, `count` commands in a row
/// with `s + count <= 3` all succeed where the worker's balance has room for
/// the deposit, and the accounts they leave meet the conditions again.
pub proof fn lemma_escrow_advances(
    program_id: Seq<u8>,
    owner: AccountView,
    worker: AccountView,
    pda: AccountView,
    contract_id: Seq<char>,
    rent_lamports: u64,
    count: nat,
)
    requires
        ready_to_advance(program_id, owner, worker, pda, contract_id, rent_lamports),
        parse_record(pda.data).unwrap().actual_step + count <= STEPS,
        worker.lamports + parse_record(pda.data).unwrap().total_quantity <= u64::MAX,
    ensures
        advances(program_id, owner, worker, pda, contract_id, count) matches Ok((paid, drawn))
            && ready_to_advance(program_id, owner, paid, drawn, contract_id, rent_lamports),
    decreases count,
{
    let record = parse_record(pda.data).unwrap();
    let total = record.total_quantity;
    if count > 0 {
        let before = (count - 1) as nat;
        lemma_escrow_advances(program_id, owner, worker, pda, contract_id, rent_lamports, before);
        lemma_advances_count_steps(program_id, owner, worker, pda, contract_id, before);
        let (paid, drawn) = advances(program_id, owner, worker, pda, contract_id, before).unwrap();
        let step = (record.actual_step + before) as u64;
        lemma_released_by_steps(total, step);
        lemma_released_by_steps(total, record.actual_step);
        lemma_installments_conserve(total);
        lemma_escrow_covers_release(paid, drawn, rent_lamports);
        lemma_release_moves_one_installment(paid, drawn);
        lemma_release_keeps_escrow(paid, drawn, rent_lamports);
    }
}

/// The whole life of an escrow: after a creation that succeeds, three
/// release commands succeed where the worker's balance has room for the
/// deposit; they move the deposit to the worker to the last unit and leave
/// the reserve in the record's account; a fourth is rejected with
/// `StepExhausted`.
pub proof fn lemma_escrow_pays_out(
    program_id: Seq<u8>,
    owner: AccountView,
    worker: AccountView,
    pda: AccountView,
    contract_id: Seq<char>,
    total_quantity: u64,
    rent_lamports: u64,
)
    requires
        create_outcome(
            program_id,
            owner,
            worker,
            pda,
            contract_id,
            total_quantity,
            rent_lamports,
        ) is Ok,
        worker.lamports + total_quantity <= u64::MAX,
    ensures
        ({
            let (charged, opened, bump_seed) = create_outcome(
                program_id,
                owner,
                worker,
                pda,
                contract_id,
                total_quantity,
                rent_lamports,
            ).unwrap();
            &&& advances(program_id, charged, worker, opened, contract_id, 3) matches Ok(
                (paid, drawn),
            )
            &&& paid.lamports == worker.lamports + total_quantity
            &&& drawn.lamports == rent_lamports
            &&& advance_outcome(program_id, charged, paid, drawn, contract_id) == Err::<
                (AccountView, AccountView),
                EscrowError,
            >(EscrowError::StepExhausted)
        }),
{
    lemma_creation_opens_escrow(
        program_id,
        owner,
        worker,
        pda,
        contract_id,
        total_quantity,
        rent_lamports,
    );
    let (charged, opened, bump_seed) = create_outcome(
        program_id,
        owner,
        worker,
        pda,
        contract_id,
        total_quantity,
        rent_lamports,
    ).unwrap();
    lemma_released_by_steps(total_quantity, 0);
    lemma_released_by_steps(total_quantity, 3);
    lemma_escrow_advances(program_id, charged, worker, opened, contract_id, rent_lamports, 3);
    lemma_advances_count_steps(program_id, charged, worker, opened, contract_id, 3);
}

} // verus!
