use stake_indexer::classify::RawTransaction;
use stake_indexer::fetcher::{
    min_block_height, FetchError, PageEvent, PagerDirective, PagerStatus, TxPager,
};
use stake_indexer::gateway::{
    AccountsPager, BlockFetchState, FetchDirective, RetryDirective, RetryState, RpcFailure,
};
use stake_indexer::model::{AccountStake, Transaction};

fn raw(height: u64) -> RawTransaction {
    RawTransaction {
        transaction_hash: format!("h{}", height),
        block_height: height,
        block_timestamp: "1".to_string(),
        predecessor_account_id: "a".to_string(),
        signer_id: "a".to_string(),
        top_method: None,
        agg_deposit: None,
    }
}

#[test]
fn test_block_fetch_backoff_ladder() {
    let mut s = BlockFetchState::new(7);
    assert_eq!(s.on_failure(RpcFailure::RateLimited), FetchDirective::Backoff(1));
    assert_eq!(s.on_failure(RpcFailure::Other), FetchDirective::Backoff(2));
    assert_eq!(s.on_failure(RpcFailure::RateLimited), FetchDirective::Backoff(4));
    assert_eq!(s.on_failure(RpcFailure::RateLimited), FetchDirective::Backoff(8));
    assert_eq!(s.height, 7);
    // The fifth charged failure moves on to the next height.
    assert_eq!(s.on_failure(RpcFailure::RateLimited), FetchDirective::Retry);
    assert_eq!(s.height, 8);
    assert_eq!(s.backoff_secs, 1);
}

#[test]
fn test_block_fetch_unknown_block_advances_free() {
    let mut s = BlockFetchState::new(7);
    s.on_failure(RpcFailure::RateLimited);
    assert_eq!(s.on_failure(RpcFailure::UnknownBlock), FetchDirective::Retry);
    assert_eq!(s.height, 8);
    assert_eq!(s.retry_count, 0);
    assert_eq!(s.backoff_secs, 1);
}

#[test]
fn test_retry_state_gives_up() {
    // The validators query: three retries, starting at five seconds.
    let mut s = RetryState::new(3, 5);
    assert_eq!(s.on_failure(), RetryDirective::Backoff(5));
    assert_eq!(s.on_failure(), RetryDirective::Backoff(10));
    assert_eq!(s.on_failure(), RetryDirective::GiveUp);
}

#[test]
fn test_accounts_pager() {
    let mut p = AccountsPager::new();
    let full: Vec<AccountStake> = (0..1000)
        .map(|i| AccountStake {
            account_id: format!("a{}", i),
            staked_balance: "1".to_string(),
        })
        .collect();
    p.on_page(full);
    assert!(!p.done);
    assert_eq!(p.from_index, 1000);
    let short = vec![AccountStake {
        account_id: "last".to_string(),
        staked_balance: "2".to_string(),
    }];
    p.on_page(short);
    assert!(p.done);
    assert_eq!(p.accounts.len(), 1001);
    assert_eq!(p.accounts[1000].account_id, "last");
}

#[test]
fn test_tx_pager_collects_pages() {
    let mut p = TxPager::new(10);
    assert_eq!(p.on_event(PageEvent::RateLimited), PagerDirective::SleepThenRetry);
    assert_eq!(p.on_event(PageEvent::Received(vec![raw(11), raw(12)])), PagerDirective::Proceed);
    assert_eq!(p.page, 2);
    assert_eq!(p.attempt, 0);
    assert_eq!(p.on_event(PageEvent::Received(vec![raw(13)])), PagerDirective::Proceed);
    assert_eq!(p.on_event(PageEvent::Received(vec![])), PagerDirective::Stop);
    assert_eq!(p.status, PagerStatus::Done);
    let heights: Vec<u64> = p.collected.iter().map(|t| t.block_height).collect();
    assert_eq!(heights, vec![11, 12, 13]);
    // Resumability: nothing at or below the persisted bound.
    assert!(heights.iter().all(|h| *h > p.after_block));
}

#[test]
fn test_tx_pager_fails_after_five_bad_pages() {
    let mut p = TxPager::new(0);
    for _ in 0..4 {
        assert_eq!(p.on_event(PageEvent::BadShape), PagerDirective::SleepThenRetry);
    }
    assert_eq!(p.on_event(PageEvent::BadShape), PagerDirective::Stop);
    assert_eq!(p.status, PagerStatus::Failed(FetchError::UnexpectedResponse));
}

#[test]
fn test_tx_pager_fails_after_five_rate_limits() {
    let mut p = TxPager::new(0);
    for _ in 0..4 {
        assert_eq!(p.on_event(PageEvent::RateLimited), PagerDirective::SleepThenRetry);
    }
    assert_eq!(p.on_event(PageEvent::RateLimited), PagerDirective::Stop);
    assert_eq!(p.status, PagerStatus::Failed(FetchError::RateLimitExhausted));
}

#[test]
fn test_min_block_height() {
    let tx = |h: u64| Transaction {
        transaction_hash: "h".to_string(),
        amount: "1".to_string(),
        method: "m".to_string(),
        action: "stake".to_string(),
        type_: "stake".to_string(),
        block_height: h,
        timestamp: 0,
        delegator_address: "d".to_string(),
    };
    assert_eq!(min_block_height(&vec![]), None);
    assert_eq!(min_block_height(&vec![tx(5), tx(3), tx(9)]), Some(3));
}
