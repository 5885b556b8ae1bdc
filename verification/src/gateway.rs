//! The retry and pagination policies of the RPC gateway: gap-tolerant block
//! fetching with exponential backoff, the generic bounded-retry loop, and
//! the `get_accounts` pager. Each is a decision machine; the caller makes
//! the network call and reports how it went.

use vstd::prelude::*;
use crate::model::AccountStake;

verus! {

/// How a chain RPC call failed.
#[derive(PartialEq, Eq, Structural, Clone, Copy, Debug)]
pub enum RpcFailure {
    /// The chain does not know the requested block height.
    UnknownBlock,
    /// A rate limit was hit on both endpoints.
    RateLimited,
    /// Any other error.
    Other,
}

/// What to do before the next block probe.
#[derive(PartialEq, Eq, Structural, Clone, Copy, Debug)]
pub enum FetchDirective {
    /// Probe the machine's current height at once.
    Retry,
    /// Sleep this many seconds, then probe again.
    Backoff(u64),
}

/// The exponential backoff ladder: doubled once per charged retry.
pub open spec fn backoff_of(retry_count: u32) -> u64 {
    if retry_count == 0 {
        1
    } else if retry_count == 1 {
        2
    } else if retry_count == 2 {
        4
    } else if retry_count == 3 {
        8
    } else {
        16
    }
}

/// The gap-tolerant block fetch: an unknown height advances by one without
/// charging a retry; other failures back off exponentially, and after five
/// of them the fetch moves on to the next height.
pub struct BlockFetchState {
    /// The height to probe next.
    pub height: u64,
    pub retry_count: u32,
    pub backoff_secs: u64,
}

/// One block-fetch transition.
pub open spec fn block_fetch_step(s: BlockFetchState, f: RpcFailure) -> (
    BlockFetchState,
    FetchDirective,
) {
    match f {
        RpcFailure::UnknownBlock => (
            BlockFetchState { height: (s.height + 1) as u64, retry_count: 0, backoff_secs: 1 },
            FetchDirective::Retry,
        ),
        _ => {
            if s.retry_count + 1 >= 5 {
                (
                    BlockFetchState {
                        height: (s.height + 1) as u64,
                        retry_count: 0,
                        backoff_secs: 1,
                    },
                    FetchDirective::Retry,
                )
            } else {
                (
                    BlockFetchState {
                        height: s.height,
                        retry_count: (s.retry_count + 1) as u32,
                        backoff_secs: (s.backoff_secs * 2) as u64,
                    },
                    FetchDirective::Backoff(s.backoff_secs),
                )
            }
        },
    }
}

impl BlockFetchState {
    pub open spec fn wf(self) -> bool {
        &&& self.retry_count <= 4
        &&& self.backoff_secs == backoff_of(self.retry_count)
    }

    /// A fresh fetch aimed at `height`.
    pub fn new(height: u64) -> (r: BlockFetchState)
        ensures
            r.wf(),
            r.height == height,
            r.retry_count == 0,
            r.backoff_secs == 1,
    {
        BlockFetchState { height, retry_count: 0, backoff_secs: 1 }
    }

    /// Reacts to a failed probe of `self.height`.
    pub fn on_failure(&mut self, f: RpcFailure) -> (r: FetchDirective)
        requires
            old(self).wf(),
            old(self).height < u64::MAX,
        ensures
            final(self).wf(),
            (*final(self), r) == block_fetch_step(*old(self), f),
    {
        match f {
            RpcFailure::UnknownBlock => {
                self.height = self.height + 1;
                self.retry_count = 0;
                self.backoff_secs = 1;
                FetchDirective::Retry
            }
            _ => {
                if self.retry_count + 1 >= 5 {
                    self.height = self.height + 1;
                    self.retry_count = 0;
                    self.backoff_secs = 1;
                    FetchDirective::Retry
                } else {
                    let wait = self.backoff_secs;
                    self.retry_count = self.retry_count + 1;
                    self.backoff_secs = self.backoff_secs * 2;
                    FetchDirective::Backoff(wait)
                }
            }
        }
    }
}

/// What a bounded-retry loop decides after a failure.
#[derive(PartialEq, Eq, Structural, Clone, Copy, Debug)]
pub enum RetryDirective {
    /// Sleep this many seconds and try again.
    Backoff(u64),
    /// The retries are exhausted; surface the error.
    GiveUp,
}

/// A bounded retry loop with exponential backoff, as the validators query
/// uses: a fixed retry cap and a configurable starting backoff.
pub struct RetryState {
    pub max_retries: u32,
    pub retry_count: u32,
    pub backoff_secs: u64,
}

/// One retry transition: the failure is charged; once the cap is reached
/// the loop gives up, otherwise it sleeps the current backoff and doubles
/// it (saturating far above any reachable value).
pub open spec fn retry_step(s: RetryState) -> (RetryState, RetryDirective) {
    let charged = RetryState { retry_count: (s.retry_count + 1) as u32, ..s };
    if s.retry_count + 1 >= s.max_retries {
        (charged, RetryDirective::GiveUp)
    } else {
        (
            RetryState {
                backoff_secs: if s.backoff_secs <= u64::MAX / 2 {
                    (s.backoff_secs * 2) as u64
                } else {
                    s.backoff_secs
                },
                ..charged
            },
            RetryDirective::Backoff(s.backoff_secs),
        )
    }
}

impl RetryState {
    /// A fresh loop allowing `max_retries` failures, starting its backoff
    /// at `backoff_secs`.
    pub fn new(max_retries: u32, backoff_secs: u64) -> (r: RetryState)
        ensures
            r.max_retries == max_retries,
            r.retry_count == 0,
            r.backoff_secs == backoff_secs,
    {
        RetryState { max_retries, retry_count: 0, backoff_secs }
    }

    /// Charges one failure.
    pub fn on_failure(&mut self) -> (r: RetryDirective)
        requires
            old(self).retry_count < old(self).max_retries,
        ensures
            (*final(self), r) == retry_step(*old(self)),
    {
        self.retry_count = self.retry_count + 1;
        if self.retry_count >= self.max_retries {
            RetryDirective::GiveUp
        } else {
            let wait = self.backoff_secs;
            if self.backoff_secs <= u64::MAX / 2 {
                self.backoff_secs = self.backoff_secs * 2;
            }
            RetryDirective::Backoff(wait)
        }
    }
}

/// The page size of the validator contract's `get_accounts` view.
pub const ACCOUNTS_PAGE_LIMIT: u64 = 1000;

/// The `get_accounts` pager: accumulates pages of delegator balances until
/// a short page signals the end.
pub struct AccountsPager {
    pub from_index: u64,
    pub accounts: Vec<AccountStake>,
    pub done: bool,
}

impl AccountsPager {
    /// A fresh pager.
    pub fn new() -> (r: AccountsPager)
        ensures
            r.from_index == 0,
            r.accounts@.len() == 0,
            !r.done,
    {
        AccountsPager { from_index: 0, accounts: Vec::new(), done: false }
    }

    /// Takes in the page served at `self.from_index`.
    pub fn on_page(&mut self, page: Vec<AccountStake>)
        requires
            !old(self).done,
            old(self).from_index + ACCOUNTS_PAGE_LIMIT <= u64::MAX,
        ensures
            final(self).accounts@ == old(self).accounts@ + page@,
            page@.len() < ACCOUNTS_PAGE_LIMIT ==> final(self).done && final(self).from_index
                == old(self).from_index,
            page@.len() >= ACCOUNTS_PAGE_LIMIT ==> !final(self).done && final(self).from_index
                == old(self).from_index + ACCOUNTS_PAGE_LIMIT,
    {
        let short = (page.len() as u64) < ACCOUNTS_PAGE_LIMIT;
        let mut page = page;
        self.accounts.append(&mut page);
        if short {
            self.done = true;
        } else {
            self.from_index = self.from_index + ACCOUNTS_PAGE_LIMIT;
        }
    }
}

} // verus!
