use staged_escrow::account::Account;
use staged_escrow::creator::{create_contract, create_contract_handler};
use staged_escrow::error::EscrowError;
use staged_escrow::record::ContractData;

const PROGRAM_ID: [u8; 32] = [7; 32];
const OWNER_KEY: [u8; 32] = [1; 32];
const WORKER_KEY: [u8; 32] = [2; 32];
const SYSTEM: [u8; 32] = [0; 32];
const RENT: u64 = 1_000;

fn party(key: [u8; 32], lamports: u64, is_signer: bool) -> Account {
    Account { key, owner: SYSTEM, lamports, is_signer, data: Vec::new() }
}

fn record_key(contract_id: &str) -> ([u8; 32], u8) {
    staged_escrow::address::derive(&OWNER_KEY, &WORKER_KEY, contract_id, &PROGRAM_ID).unwrap()
}

fn vacant_record(contract_id: &str) -> Account {
    party(record_key(contract_id).0, 0, false)
}

#[test]
fn create_opens_an_escrow_at_step_zero() {
    let mut owner = party(OWNER_KEY, 5_000, true);
    let worker = party(WORKER_KEY, 10, false);
    let mut pda = vacant_record("abc123");
    let done = create_contract_handler(
        &PROGRAM_ID,
        &mut owner,
        &worker,
        &mut pda,
        "abc123".to_string(),
        100,
        RENT,
    );
    assert_eq!(done, Ok(record_key("abc123").1));
    assert_eq!(owner, party(OWNER_KEY, 5_000 - RENT - 100, true));
    assert_eq!(pda.key, record_key("abc123").0);
    assert_eq!(pda.owner, PROGRAM_ID);
    assert_eq!(pda.lamports, RENT + 100);
    assert!(!pda.is_signer);
    assert_eq!(Ok(pda.data.len()), ContractData::get_account_size("abc123"));
    assert_eq!(
        ContractData::deserialize(&pda.data),
        Ok(ContractData {
            contract_id: "abc123".to_string(),
            owner: OWNER_KEY,
            worker: WORKER_KEY,
            total_quantity: 100,
            actual_step: 0,
        })
    );
}

#[test]
fn create_twice_fails_the_second_time() {
    let mut owner = party(OWNER_KEY, 5_000, true);
    let worker = party(WORKER_KEY, 10, false);
    let mut pda = vacant_record("abc123");
    assert!(create_contract_handler(
        &PROGRAM_ID,
        &mut owner,
        &worker,
        &mut pda,
        "abc123".to_string(),
        100,
        RENT
    )
    .is_ok());
    let (owner_before, pda_before) = (owner.clone(), pda.clone());
    assert_eq!(
        create_contract_handler(
            &PROGRAM_ID,
            &mut owner,
            &worker,
            &mut pda,
            "abc123".to_string(),
            100,
            RENT
        ),
        Err(EscrowError::AccountAlreadyInitialized)
    );
    assert_eq!(owner, owner_before);
    assert_eq!(pda, pda_before);
}

#[test]
fn create_rejects_a_deposit_beyond_the_balance() {
    let mut owner = party(OWNER_KEY, 99, true);
    let worker = party(WORKER_KEY, 10, false);
    let mut pda = vacant_record("abc123");
    assert_eq!(
        create_contract_handler(
            &PROGRAM_ID,
            &mut owner,
            &worker,
            &mut pda,
            "abc123".to_string(),
            100,
            0
        ),
        Err(EscrowError::InsufficientFunds)
    );
    assert_eq!(owner, party(OWNER_KEY, 99, true));
    assert_eq!(pda, vacant_record("abc123"));
}

#[test]
fn create_rejects_an_owner_who_cannot_fund_the_reserve_too() {
    let mut owner = party(OWNER_KEY, RENT + 99, true);
    let worker = party(WORKER_KEY, 10, false);
    let mut pda = vacant_record("abc123");
    assert_eq!(
        create_contract_handler(
            &PROGRAM_ID,
            &mut owner,
            &worker,
            &mut pda,
            "abc123".to_string(),
            100,
            RENT
        ),
        Err(EscrowError::InsufficientFunds)
    );
    assert_eq!(owner, party(OWNER_KEY, RENT + 99, true));
    assert_eq!(pda, vacant_record("abc123"));
}

#[test]
fn create_takes_the_whole_balance_when_it_just_covers() {
    let mut owner = party(OWNER_KEY, RENT + 100, true);
    let worker = party(WORKER_KEY, 10, false);
    let mut pda = vacant_record("abc123");
    assert!(create_contract_handler(
        &PROGRAM_ID,
        &mut owner,
        &worker,
        &mut pda,
        "abc123".to_string(),
        100,
        RENT
    )
    .is_ok());
    assert_eq!(owner.lamports, 0);
    assert_eq!(pda.lamports, RENT + 100);
}

#[test]
fn create_rejects_a_reserve_and_deposit_beyond_the_range() {
    let mut owner = party(OWNER_KEY, u64::MAX, true);
    let worker = party(WORKER_KEY, 10, false);
    let mut pda = vacant_record("abc123");
    assert_eq!(
        create_contract_handler(
            &PROGRAM_ID,
            &mut owner,
            &worker,
            &mut pda,
            "abc123".to_string(),
            u64::MAX,
            1
        ),
        Err(EscrowError::InsufficientFunds)
    );
    assert_eq!(owner.lamports, u64::MAX);
}

#[test]
fn create_rejects_an_owner_who_did_not_sign() {
    let mut owner = party(OWNER_KEY, 5_000, false);
    let worker = party(WORKER_KEY, 10, false);
    let mut pda = vacant_record("abc123");
    assert_eq!(
        create_contract_handler(
            &PROGRAM_ID,
            &mut owner,
            &worker,
            &mut pda,
            "abc123".to_string(),
            100,
            RENT
        ),
        Err(EscrowError::Unauthorized)
    );
    assert_eq!(owner, party(OWNER_KEY, 5_000, false));
    assert_eq!(pda, vacant_record("abc123"));
}

#[test]
fn create_rejects_a_record_address_of_another_triple() {
    let worker = party(WORKER_KEY, 10, false);
    for spoofed in [vacant_record("abc124"), party([9; 32], 0, false), party(OWNER_KEY, 0, false)] {
        let mut owner = party(OWNER_KEY, 5_000, true);
        let mut pda = spoofed.clone();
        assert_eq!(
            create_contract_handler(
                &PROGRAM_ID,
                &mut owner,
                &worker,
                &mut pda,
                "abc123".to_string(),
                100,
                RENT
            ),
            Err(EscrowError::AccountMismatch)
        );
        assert_eq!(owner, party(OWNER_KEY, 5_000, true));
        assert_eq!(pda, spoofed);
    }
}

#[test]
fn create_rejects_a_record_address_derived_under_another_program() {
    let mut owner = party(OWNER_KEY, 5_000, true);
    let worker = party(WORKER_KEY, 10, false);
    let mut pda = vacant_record("abc123");
    assert_eq!(
        create_contract_handler(
            &[8; 32],
            &mut owner,
            &worker,
            &mut pda,
            "abc123".to_string(),
            100,
            RENT
        ),
        Err(EscrowError::AccountMismatch)
    );
}

#[test]
fn create_rejects_a_contract_id_that_no_address_is_bound_to() {
    let contract_id = "a".repeat(33);
    let mut owner = party(OWNER_KEY, 5_000, true);
    let worker = party(WORKER_KEY, 10, false);
    let mut pda = party([9; 32], 0, false);
    assert_eq!(
        create_contract_handler(
            &PROGRAM_ID,
            &mut owner,
            &worker,
            &mut pda,
            contract_id,
            100,
            RENT
        ),
        Err(EscrowError::AccountMismatch)
    );
}

#[test]
fn create_asks_for_funds_then_address_then_signature() {
    let worker = party(WORKER_KEY, 10, false);
    let mut poor = party(OWNER_KEY, 5, false);
    let mut elsewhere = party([9; 32], 0, false);
    assert_eq!(
        create_contract_handler(
            &PROGRAM_ID,
            &mut poor,
            &worker,
            &mut elsewhere,
            "abc123".to_string(),
            100,
            RENT
        ),
        Err(EscrowError::InsufficientFunds)
    );
    let mut unsigned = party(OWNER_KEY, 5_000, false);
    assert_eq!(
        create_contract_handler(
            &PROGRAM_ID,
            &mut unsigned,
            &worker,
            &mut elsewhere,
            "abc123".to_string(),
            100,
            RENT
        ),
        Err(EscrowError::AccountMismatch)
    );
}

#[test]
fn create_rejects_an_address_that_holds_funds_or_storage() {
    let worker = party(WORKER_KEY, 10, false);
    let mut funded = vacant_record("abc123");
    funded.lamports = 1;
    let mut allocated = vacant_record("abc123");
    allocated.data = vec![0];
    for occupied in [funded, allocated] {
        let mut owner = party(OWNER_KEY, 5_000, true);
        let mut pda = occupied.clone();
        assert_eq!(
            create_contract_handler(
                &PROGRAM_ID,
                &mut owner,
                &worker,
                &mut pda,
                "abc123".to_string(),
                100,
                RENT
            ),
            Err(EscrowError::AccountAlreadyInitialized)
        );
        assert_eq!(owner, party(OWNER_KEY, 5_000, true));
        assert_eq!(pda, occupied);
    }
}

#[test]
fn create_contract_allocates_without_asking_for_the_address() {
    let mut owner = party(OWNER_KEY, 5_000, false);
    let worker = party(WORKER_KEY, 10, false);
    let mut pda = party([9; 32], 0, false);
    assert_eq!(
        create_contract(
            &PROGRAM_ID,
            &mut owner,
            &worker,
            &mut pda,
            "a contract id of more than thirty-two bytes".to_string(),
            40,
            60
        ),
        Ok(())
    );
    assert_eq!(owner.lamports, 4_900);
    assert_eq!(pda.lamports, 100);
    assert_eq!(pda.owner, PROGRAM_ID);
    assert_eq!(
        ContractData::deserialize(&pda.data).unwrap().contract_id,
        "a contract id of more than thirty-two bytes"
    );
}

#[test]
fn create_accepts_a_deposit_of_zero() {
    let mut owner = party(OWNER_KEY, RENT, true);
    let worker = party(WORKER_KEY, 10, false);
    let mut pda = vacant_record("");
    assert!(create_contract_handler(
        &PROGRAM_ID,
        &mut owner,
        &worker,
        &mut pda,
        String::new(),
        0,
        RENT
    )
    .is_ok());
    assert_eq!(owner.lamports, 0);
    assert_eq!(pda.lamports, RENT);
    assert_eq!(pda.data.len(), 85);
}
