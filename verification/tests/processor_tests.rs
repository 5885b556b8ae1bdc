use stake_indexer::model::{AccountStake, Transaction};
use stake_indexer::processor::{prev_snapshot_block, process_delegator_data};
use stake_indexer::stakemap::StakeMap;

fn acc(id: &str, balance: &str) -> AccountStake {
    AccountStake { account_id: id.to_string(), staked_balance: balance.to_string() }
}

fn tx(amount: &str, type_: &str, block: u64, delegator: &str) -> Transaction {
    Transaction {
        transaction_hash: "h".to_string(),
        amount: amount.to_string(),
        method: type_.to_string(),
        action: type_.to_string(),
        type_: type_.to_string(),
        block_height: block,
        timestamp: 0,
        delegator_address: delegator.to_string(),
    }
}

#[test]
fn test_prev_snapshot_block() {
    let txs = vec![tx("1", "stake", 10, "a"), tx("1", "stake", 90, "a"), tx("1", "stake", 200, "a")];
    assert_eq!(prev_snapshot_block(&txs, 100), 90);
    assert_eq!(prev_snapshot_block(&txs, 5), 0);
}

#[test]
fn test_stake_map_last_wins() {
    let map = StakeMap::from_rows(vec![acc("a", "1"), acc("b", "2"), acc("a", "3")]);
    assert_eq!(map.get("a").unwrap(), "3");
    assert_eq!(map.get("b").unwrap(), "2");
    assert!(map.get("c").is_none());
}

#[test]
fn test_process_epoch_rewards_and_totals() {
    // Delegator "bob" held 26000000000000000000000000, staked another
    // 100000000000000000000000 during the epoch, and ends at
    // 26100008342448094319999999: the difference is reward. Delegator
    // "carol" appears for the first time: no reward.
    let transactions = vec![
        tx("100000000000000000000000", "stake", 105, "bob"),
        tx("26000000000000000000000000", "stake", 110, "carol"),
    ];
    let current = StakeMap::from_rows(vec![
        acc("bob", "26100008342448094319999999"),
        acc("carol", "26000000000000000000000000"),
    ]);
    let prev = StakeMap::from_rows(vec![acc("bob", "26000000000000000000000000")]);

    let (rows, summary) = process_delegator_data(
        "validator.pool",
        100,
        199,
        &transactions,
        3,
        "EPOCH_ID",
        1700000000000,
        &current,
        &prev,
    );

    assert_eq!(rows.len(), 2);
    let bob = &rows[0];
    assert_eq!(bob.delegator_id, "bob");
    assert_eq!(bob.validator_account_id, "validator.pool");
    assert_eq!(bob.epoch, 3);
    assert_eq!(bob.start_block_height, 100);
    assert_eq!(bob.end_block_height, 199);
    assert_eq!(bob.timestamp, 1700000000000);
    assert_eq!(bob.epoch_id, "EPOCH_ID");
    assert_eq!(bob.initial_stake, "100000000000000000000000");
    assert_eq!(bob.auto_compounded_stake, "26100008342448094319999999");
    assert_eq!(bob.last_update_block, 100);
    assert_eq!(bob.rewards, "8342448094319999999");
    // 8342448094319999999 / 26100008342448094319999999 per epoch,
    // annualised: rounds to 0.02%.
    assert_eq!(bob.apy, 2);

    let carol = &rows[1];
    assert_eq!(carol.rewards, "0");
    assert_eq!(carol.apy, 0);
    assert_eq!(carol.initial_stake, "26000000000000000000000000");

    assert_eq!(summary.total_delegators, 2);
    assert_eq!(summary.total_staked, "52100008342448094319999999");
    assert_eq!(summary.total_rewards, "8342448094319999999");
    // The same reward over both delegators' stake: rounds to 0.01%.
    assert_eq!(summary.apy, 1);
}

#[test]
fn test_process_epoch_visible_apy() {
    // The yield is taken against the closing balance: a reward of one part
    // in 1001 annualises to 72.93%.
    let transactions: Vec<Transaction> = vec![];
    let current = StakeMap::from_rows(vec![acc("dave", "26026000000000000000000000")]);
    let prev = StakeMap::from_rows(vec![acc("dave", "26000000000000000000000000")]);
    let (rows, summary) = process_delegator_data(
        "validator.pool",
        100,
        199,
        &transactions,
        1,
        "E",
        0,
        &current,
        &prev,
    );
    assert_eq!(rows[0].rewards, "26000000000000000000000");
    assert_eq!(rows[0].apy, 7293);
    assert_eq!(summary.apy, 7293);
}

#[test]
fn test_process_epoch_clamps_negative_rewards() {
    // The balance fell without an observed unstake: the reward clamps to
    // zero rather than going negative.
    let transactions: Vec<Transaction> = vec![];
    let current = StakeMap::from_rows(vec![acc("eve", "900")]);
    let prev = StakeMap::from_rows(vec![acc("eve", "1000")]);
    let (rows, _) = process_delegator_data(
        "validator.pool",
        100,
        199,
        &transactions,
        1,
        "E",
        0,
        &current,
        &prev,
    );
    assert_eq!(rows[0].rewards, "0");
}
