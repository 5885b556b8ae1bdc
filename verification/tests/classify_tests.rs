use stake_indexer::classify::{
    analyze_function_call, classify_transaction, determine_type, has_unstake_all,
    parse_staking_log, ActionKind, ClassifyError, RawFunctionCall, RawReceipt, RawTransaction,
};

fn raw_tx(top_method: Option<&str>, agg_deposit: Option<&str>) -> RawTransaction {
    RawTransaction {
        transaction_hash: "h".to_string(),
        block_height: 42,
        block_timestamp: "1700000000000000000".to_string(),
        predecessor_account_id: "alice.near".to_string(),
        signer_id: "alice.near".to_string(),
        top_method: top_method.map(|s| s.to_string()),
        agg_deposit: agg_deposit.map(|s| s.to_string()),
    }
}

fn fc(method: &str, deposit: Option<&str>, args: Option<&str>) -> RawFunctionCall {
    RawFunctionCall {
        method_name: method.to_string(),
        deposit: deposit.map(|s| s.to_string()),
        args: args.map(|s| s.to_string()),
    }
}

#[test]
fn test_parse_log_distributor_event() {
    let log = r#"{"event":"dist.stak","amount":"500"}"#;
    let a = parse_staking_log(log).unwrap();
    assert_eq!(a.action, ActionKind::Stake);
    assert_eq!(a.amount, "500");
    assert_eq!(a.method, "distribute_staking");
}

#[test]
fn test_parse_log_distributor_event_without_amount() {
    let log = r#"{"event":"dist.stak"}"#;
    let a = parse_staking_log(log).unwrap();
    assert_eq!(a.amount, "0");
}

#[test]
fn test_parse_log_keywords() {
    let a = parse_staking_log("alice.near deposited 100 tokens").unwrap();
    assert_eq!(a.action, ActionKind::Stake);
    assert_eq!(a.amount, "100");
    assert_eq!(a.method, "unknown");

    let a = parse_staking_log("alice.near withdrew 7 tokens").unwrap();
    assert_eq!(a.action, ActionKind::Unstake);
    assert_eq!(a.amount, "7");
}

#[test]
fn test_parse_log_unstaking_beats_staking() {
    // A line about unstaking also contains the substring "staking"; the
    // longer keyword is matched first, so the unstaking row of the table
    // fires as it should.
    let a = parse_staking_log("alice.near is unstaking 50 tokens").unwrap();
    assert_eq!(a.action, ActionKind::Unstake);
    assert_eq!(a.amount, "50");

    // A plain staking line still reads as a stake.
    let a = parse_staking_log("alice.near is staking 60 tokens").unwrap();
    assert_eq!(a.action, ActionKind::Stake);
    assert_eq!(a.amount, "60");
}

#[test]
fn test_parse_log_unicode_whitespace_separator() {
    // Tokens split on any Unicode whitespace, as split_whitespace does.
    let a = parse_staking_log("alice.near deposited\u{2003}77\u{2003}tokens").unwrap();
    assert_eq!(a.amount, "77");
}

#[test]
fn test_parse_log_without_numeric_token() {
    assert!(parse_staking_log("alice.near deposited tokens").is_none());
    assert!(parse_staking_log("nothing interesting").is_none());
}

#[test]
fn test_function_call_unstake_resolution() {
    let tx = raw_tx(Some("unstake"), Some("33"));

    let a = analyze_function_call(&fc("unstake", None, Some(r#"{"amount":"77"}"#)), &tx, "0")
        .unwrap()
        .unwrap();
    assert_eq!(a.action, ActionKind::Unstake);
    assert_eq!(a.amount, "77");

    let a = analyze_function_call(&fc("unstake", Some("55"), Some("{}")), &tx, "0")
        .unwrap()
        .unwrap();
    assert_eq!(a.amount, "55");

    let a = analyze_function_call(&fc("unstake", None, None), &tx, "0").unwrap().unwrap();
    assert_eq!(a.amount, "33");

    let err = analyze_function_call(&fc("unstake", None, Some("{not json")), &tx, "0");
    assert_eq!(err.unwrap_err(), ClassifyError::InvalidArgs);
}

#[test]
fn test_function_call_unstake_all_uses_balance() {
    let tx = raw_tx(Some("unstake_all"), None);
    let a = analyze_function_call(&fc("unstake_all", None, None), &tx, "12345")
        .unwrap()
        .unwrap();
    assert_eq!(a.action, ActionKind::Unstake);
    assert_eq!(a.amount, "12345");
}

#[test]
fn test_function_call_unrecognised_method() {
    let tx = raw_tx(None, None);
    assert!(analyze_function_call(&fc("transfer", None, None), &tx, "0").unwrap().is_none());
}

#[test]
fn test_classify_stake_via_receipt_log() {
    let tx = raw_tx(Some("deposit_and_stake"), Some("100"));
    let receipts = vec![RawReceipt {
        logs: vec![r#"{"event":"dist.stak","amount":"500"}"#.to_string()],
        function_calls: vec![],
    }];
    let t = classify_transaction(&tx, &receipts, "0").unwrap();
    assert_eq!(t.amount, "500");
    assert_eq!(t.action, "stake");
    assert_eq!(t.type_, "stake");
    assert_eq!(t.method, "deposit_and_stake");
    assert_eq!(t.block_height, 42);
    assert_eq!(t.timestamp, 1700000000000000000);
    assert_eq!(t.delegator_address, "alice.near");
}

#[test]
fn test_classify_sums_same_action_receipts() {
    let tx = raw_tx(Some("deposit_and_stake"), None);
    let receipts = vec![
        RawReceipt {
            logs: vec!["bob deposited 30 tokens".to_string()],
            function_calls: vec![],
        },
        RawReceipt {
            logs: vec!["bob deposited 12 tokens".to_string()],
            function_calls: vec![],
        },
    ];
    let t = classify_transaction(&tx, &receipts, "0").unwrap();
    assert_eq!(t.amount, "42");
    assert_eq!(t.type_, "stake");
}

#[test]
fn test_classify_fallback_without_receipts() {
    let tx = raw_tx(Some("deposit_and_stake"), Some("42"));
    let t = classify_transaction(&tx, &vec![], "0").unwrap();
    assert_eq!(t.amount, "42");
    assert_eq!(t.action, "stake");
    assert_eq!(t.method, "deposit_and_stake");

    // Any other top-level method still falls back to a stake of the
    // aggregated deposit, keeping the method name.
    let tx = raw_tx(Some("transfer"), Some("9"));
    let t = classify_transaction(&tx, &vec![], "0").unwrap();
    assert_eq!(t.amount, "9");
    assert_eq!(t.action, "stake");
    assert_eq!(t.method, "transfer");
}

#[test]
fn test_classify_withdraw_all_fails_amount_parse() {
    let tx = raw_tx(Some("withdraw_all"), None);
    let receipts = vec![RawReceipt {
        logs: vec![],
        function_calls: vec![fc("withdraw_all", None, None)],
    }];
    let err = classify_transaction(&tx, &receipts, "0");
    assert_eq!(err.unwrap_err(), ClassifyError::ParseAmount);
}

#[test]
fn test_classify_bad_timestamp() {
    let mut tx = raw_tx(Some("deposit_and_stake"), Some("1"));
    tx.block_timestamp = "not a number".to_string();
    let err = classify_transaction(&tx, &vec![], "0");
    assert_eq!(err.unwrap_err(), ClassifyError::BadTimestamp);
}

#[test]
fn test_classifier_idempotent() {
    let tx = raw_tx(Some("unstake"), Some("33"));
    let receipts = vec![RawReceipt {
        logs: vec![],
        function_calls: vec![fc("unstake", None, Some(r#"{"amount":"77"}"#))],
    }];
    let t1 = classify_transaction(&tx, &receipts, "0").unwrap();
    let t2 = classify_transaction(&tx, &receipts, "0").unwrap();
    assert_eq!(t1.transaction_hash, t2.transaction_hash);
    assert_eq!(t1.amount, t2.amount);
    assert_eq!(t1.method, t2.method);
    assert_eq!(t1.action, t2.action);
    assert_eq!(t1.type_, t2.type_);
    assert_eq!(t1.block_height, t2.block_height);
    assert_eq!(t1.timestamp, t2.timestamp);
    assert_eq!(t1.delegator_address, t2.delegator_address);
    assert_eq!(t1.amount, "77");
    assert_eq!(t1.type_, "unstake");
}

#[test]
fn test_determine_type_follows_method() {
    assert_eq!(determine_type(ActionKind::Unstake, "anything"), ActionKind::Unstake);
    assert_eq!(determine_type(ActionKind::Stake, "withdraw"), ActionKind::Unstake);
    assert_eq!(determine_type(ActionKind::Stake, "unstake_all"), ActionKind::Unstake);
    assert_eq!(determine_type(ActionKind::Stake, "deposit_and_stake"), ActionKind::Stake);
    assert_eq!(determine_type(ActionKind::Stake, "transfer"), ActionKind::Stake);
}

#[test]
fn test_has_unstake_all() {
    let with = vec![RawReceipt {
        logs: vec![],
        function_calls: vec![fc("unstake_all", None, None)],
    }];
    let without = vec![RawReceipt {
        logs: vec!["x".to_string()],
        function_calls: vec![fc("unstake", None, None)],
    }];
    assert!(has_unstake_all(&with));
    assert!(!has_unstake_all(&without));
}
