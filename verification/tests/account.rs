use staged_escrow::account::Account;
use staged_escrow::wire::same_text;

#[test]
fn vacant_means_no_funds_and_no_storage() {
    let mut account =
        Account { key: [3; 32], owner: [0; 32], lamports: 0, is_signer: true, data: Vec::new() };
    assert!(account.is_vacant());
    account.lamports = 1;
    assert!(!account.is_vacant());
    account.lamports = 0;
    account.data.push(0);
    assert!(!account.is_vacant());
}

#[test]
fn same_text_compares_strings() {
    assert!(same_text("abc123", "abc123"));
    assert!(same_text("", ""));
    assert!(!same_text("abc123", "abc124"));
    assert!(!same_text("abc", "abc1"));
    assert!(!same_text("\u{e9}", "e"));
}
