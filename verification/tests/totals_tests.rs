use stake_indexer::model::Transaction;
use stake_indexer::totals::{calculate_epoch_transaction_totals, calculate_initial_stakes};

fn tx(hash: &str, amount: &str, method: &str, action: &str, type_: &str, block: u64, delegator: &str) -> Transaction {
    Transaction {
        transaction_hash: hash.to_string(),
        amount: amount.to_string(),
        method: method.to_string(),
        action: action.to_string(),
        type_: type_.to_string(),
        block_height: block,
        timestamp: 1700000000000000000,
        delegator_address: delegator.to_string(),
    }
}

#[test]
fn test_calculate_initial_stakes() {
    let transactions = vec![
        tx("hash1", "100", "deposit_and_stake", "stake", "stake", 1, "user1"),
        tx("hash2", "50", "unstake", "unstake", "unstake", 2, "user1"),
    ];

    let initial_stakes = calculate_initial_stakes(&transactions);

    assert_eq!(
        initial_stakes.get("user1").unwrap().to_string(),
        "50",
        "Initial stake should be 100 - 50 = 50"
    );
}

#[test]
fn test_epoch_totals_round_trip() {
    // Stake 100 at block 1, unstake 50 at block 2, both inside the epoch:
    // the delegator's net delta is 50.
    let transactions = vec![
        tx("h1", "100", "deposit_and_stake", "stake", "stake", 1, "u1"),
        tx("h2", "50", "unstake", "unstake", "unstake", 2, "u1"),
    ];
    let totals = calculate_epoch_transaction_totals(&transactions, 0, 10);
    assert_eq!(totals.get("u1").unwrap().to_string(), "50");
}

#[test]
fn test_epoch_totals_respect_block_range() {
    let transactions = vec![
        tx("h1", "100", "deposit_and_stake", "stake", "stake", 5, "u1"),
        tx("h2", "40", "unstake", "unstake", "unstake", 50, "u1"),
    ];
    let totals = calculate_epoch_transaction_totals(&transactions, 0, 10);
    assert_eq!(totals.get("u1").unwrap().to_string(), "100");
    let totals = calculate_epoch_transaction_totals(&transactions, 20, 60);
    assert_eq!(totals.get("u1").unwrap().to_string(), "-40");
}

#[test]
fn test_initial_stakes_skip_unreadable_amounts() {
    let transactions = vec![tx("h1", "all", "withdraw_all", "unstake", "unstake", 1, "u1")];
    let initial = calculate_initial_stakes(&transactions);
    assert!(initial.get("u1").is_none());
    // The epoch totals keep the entry at zero instead.
    let totals = calculate_epoch_transaction_totals(&transactions, 0, 10);
    assert_eq!(totals.get("u1").unwrap().to_string(), "0");
}

#[test]
fn test_totals_unknown_kind_keeps_entry() {
    let transactions = vec![tx("h1", "100", "transfer", "stake", "other", 1, "u1")];
    let totals = calculate_epoch_transaction_totals(&transactions, 0, 10);
    assert_eq!(totals.get("u1").unwrap().to_string(), "0");
}
