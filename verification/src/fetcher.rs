//! The transaction source's pagination machine: pulls the history API one
//! page at a time, strictly after the highest persisted block, with a fixed
//! sleep on rate limits and a bounded number of attempts per page.

use vstd::prelude::*;
use crate::classify::RawTransaction;
use crate::model::Transaction;

verus! {

/// Why fetching stopped early.
#[derive(PartialEq, Eq, Structural, Clone, Copy, Debug)]
pub enum FetchError {
    /// Five attempts at one page all hit the rate limit.
    RateLimitExhausted,
    /// Five attempts at one page all came back in an unexpected shape.
    UnexpectedResponse,
}

/// Where the pager stands.
#[derive(PartialEq, Eq, Structural, Clone, Copy, Debug)]
pub enum PagerStatus {
    InProgress,
    /// An empty page ended the listing.
    Done,
    Failed(FetchError),
}

/// What to do before the next request.
#[derive(PartialEq, Eq, Structural, Clone, Copy, Debug)]
pub enum PagerDirective {
    /// Sleep sixty seconds, then retry the same page.
    SleepThenRetry,
    /// Request the next page at once.
    Proceed,
    /// The pager is finished; consult its status.
    Stop,
}

/// How one page request went.
pub enum PageEvent {
    /// The API answered with a rate-limit response.
    RateLimited,
    /// The API served these transactions (possibly none).
    Received(Vec<RawTransaction>),
    /// The response had an unexpected shape.
    BadShape,
}

/// The transaction pager.
pub struct TxPager {
    /// The strict lower bound on block heights: the highest already
    /// persisted.
    pub after_block: u64,
    /// The page to request next, starting at one.
    pub page: u64,
    /// Failed attempts at the current page.
    pub attempt: u32,
    pub collected: Vec<RawTransaction>,
    pub status: PagerStatus,
}

/// The ghost shape of the pager: collected transactions are tracked by
/// their block heights.
pub struct PagerModel {
    pub after_block: u64,
    pub page: int,
    pub attempt: int,
    pub heights: Seq<u64>,
    pub status: PagerStatus,
}

/// The ghost shape of a page event.
pub enum PagerEventModel {
    RateLimited,
    Received(Seq<u64>),
    BadShape,
}

/// The block heights of a transaction list.
pub open spec fn heights_of(txs: Seq<RawTransaction>) -> Seq<u64> {
    txs.map(|i: int, t: RawTransaction| t.block_height)
}

/// The ghost shape of a pager.
pub open spec fn pager_model(p: TxPager) -> PagerModel {
    PagerModel {
        after_block: p.after_block,
        page: p.page as int,
        attempt: p.attempt as int,
        heights: heights_of(p.collected@),
        status: p.status,
    }
}

/// The ghost shape of an event.
pub open spec fn event_model(e: PageEvent) -> PagerEventModel {
    match e {
        PageEvent::RateLimited => PagerEventModel::RateLimited,
        PageEvent::Received(txs) => PagerEventModel::Received(heights_of(txs@)),
        PageEvent::BadShape => PagerEventModel::BadShape,
    }
}

/// One pager transition: rate limits and malformed responses charge an
/// attempt (five of either fail the fetch); an empty page ends it; a full
/// page is collected and moves to the next page.
pub open spec fn pager_step(m: PagerModel, e: PagerEventModel) -> (PagerModel, PagerDirective) {
    match e {
        PagerEventModel::RateLimited => {
            if m.attempt + 1 >= 5 {
                (
                    PagerModel {
                        attempt: m.attempt + 1,
                        status: PagerStatus::Failed(FetchError::RateLimitExhausted),
                        ..m
                    },
                    PagerDirective::Stop,
                )
            } else {
                (PagerModel { attempt: m.attempt + 1, ..m }, PagerDirective::SleepThenRetry)
            }
        },
        PagerEventModel::BadShape => {
            if m.attempt + 1 >= 5 {
                (
                    PagerModel {
                        attempt: m.attempt + 1,
                        status: PagerStatus::Failed(FetchError::UnexpectedResponse),
                        ..m
                    },
                    PagerDirective::Stop,
                )
            } else {
                (PagerModel { attempt: m.attempt + 1, ..m }, PagerDirective::SleepThenRetry)
            }
        },
        PagerEventModel::Received(hs) => {
            if hs.len() == 0 {
                (PagerModel { status: PagerStatus::Done, ..m }, PagerDirective::Stop)
            } else {
                (
                    PagerModel { heights: m.heights + hs, page: m.page + 1, attempt: 0, ..m },
                    PagerDirective::Proceed,
                )
            }
        },
    }
}

impl TxPager {
    pub open spec fn wf(self) -> bool {
        &&& self.attempt <= 4
        &&& self.page >= 1
    }

    /// A fresh pager fetching everything strictly after `after_block`.
    pub fn new(after_block: u64) -> (r: TxPager)
        ensures
            r.wf(),
            r.after_block == after_block,
            r.page == 1,
            r.attempt == 0,
            r.collected@.len() == 0,
            r.status == PagerStatus::InProgress,
    {
        TxPager {
            after_block,
            page: 1,
            attempt: 0,
            collected: Vec::new(),
            status: PagerStatus::InProgress,
        }
    }

    /// Takes in the outcome of requesting page `self.page`.
    pub fn on_event(&mut self, e: PageEvent) -> (r: PagerDirective)
        requires
            old(self).wf(),
            old(self).status == PagerStatus::InProgress,
            old(self).page < u64::MAX,
        ensures
            (pager_model(*final(self)), r) == pager_step(pager_model(*old(self)), event_model(e)),
            final(self).after_block == old(self).after_block,
            e matches PageEvent::Received(txs) ==> final(self).collected@ == (if txs@.len() > 0 {
                old(self).collected@ + txs@
            } else {
                old(self).collected@
            }),
            !(e is Received) ==> final(self).collected@ == old(self).collected@,
            final(self).status == PagerStatus::InProgress ==> final(self).wf(),
    {
        match e {
            PageEvent::RateLimited => {
                self.attempt = self.attempt + 1;
                if self.attempt >= 5 {
                    self.status = PagerStatus::Failed(FetchError::RateLimitExhausted);
                    PagerDirective::Stop
                } else {
                    PagerDirective::SleepThenRetry
                }
            }
            PageEvent::BadShape => {
                self.attempt = self.attempt + 1;
                if self.attempt >= 5 {
                    self.status = PagerStatus::Failed(FetchError::UnexpectedResponse);
                    PagerDirective::Stop
                } else {
                    PagerDirective::SleepThenRetry
                }
            }
            PageEvent::Received(txs) => {
                if txs.len() == 0 {
                    self.status = PagerStatus::Done;
                    PagerDirective::Stop
                } else {
                    let ghost old_collected = self.collected@;
                    let ghost incoming = txs@;
                    let mut txs = txs;
                    self.collected.append(&mut txs);
                    self.page = self.page + 1;
                    self.attempt = 0;
                    proof {
                        assert(self.collected@ == old_collected + incoming);
                        assert(heights_of(old_collected + incoming) =~= heights_of(old_collected)
                            + heights_of(incoming));
                    }
                    PagerDirective::Proceed
                }
            }
        }
    }
}

/// Folds a run of events through the pager.
pub open spec fn pager_run(m: PagerModel, events: Seq<PagerEventModel>) -> PagerModel
    decreases events.len(),
{
    if events.len() == 0 {
        m
    } else {
        pager_run(pager_step(m, events[0]).0, events.drop_first())
    }
}

/// Transaction resumability: a pager started strictly after a block bound,
/// fed pages whose transactions all lie beyond that bound, never holds a
/// transaction at or below the bound, whatever mixture of rate limits,
/// malformed responses and data pages it sees.
pub proof fn lemma_resumability(m0: PagerModel, events: Seq<PagerEventModel>)
    requires
        forall|h: u64| m0.heights.contains(h) ==> h > m0.after_block,
        forall|k: int|
            0 <= k < events.len() ==> ((#[trigger] events[k]) matches PagerEventModel::Received(hs)
                ==> forall|h: u64| hs.contains(h) ==> h > m0.after_block),
    ensures
        pager_run(m0, events).after_block == m0.after_block,
        forall|h: u64| pager_run(m0, events).heights.contains(h) ==> h > m0.after_block,
    decreases events.len(),
{
    if events.len() > 0 {
        let m1 = pager_step(m0, events[0]).0;
        assert(m1.after_block == m0.after_block);
        assert forall|h: u64| m1.heights.contains(h) implies h > m0.after_block by {
            match events[0] {
                PagerEventModel::Received(hs) => {
                    if hs.len() > 0 {
                        let i = choose|i: int|
                            0 <= i < m1.heights.len() && m1.heights[i] == h;
                        if i < m0.heights.len() {
                            assert(m0.heights.contains(h));
                        } else {
                            assert(hs[i - m0.heights.len()] == h);
                            assert(hs.contains(h));
                        }
                    }
                },
                _ => {},
            }
        }
        assert(forall|k: int|
            0 <= k < events.drop_first().len() ==> #[trigger] events.drop_first()[k]
                == events[k + 1]);
        lemma_resumability(m1, events.drop_first());
    }
}

/// The least block height among the given transactions.
pub fn min_block_height(transactions: &Vec<Transaction>) -> (r: Option<u64>)
    ensures
        r is None <==> transactions@.len() == 0,
        r matches Some(m) ==> (exists|i: int|
            0 <= i < transactions@.len() && (#[trigger] transactions@[i].block_height) == m)
            && (forall|i: int|
            0 <= i < transactions@.len() ==> (#[trigger] transactions@[i].block_height) >= m),
{
    if transactions.len() == 0 {
        return None;
    }
    let mut best: u64 = transactions[0].block_height;
    let mut i: usize = 1;
    while i < transactions.len()
        invariant
            1 <= i <= transactions@.len(),
            exists|j: int|
                0 <= j < i && (#[trigger] transactions@[j].block_height) == best,
            forall|j: int| 0 <= j < i ==> (#[trigger] transactions@[j].block_height) >= best,
        decreases transactions@.len() - i,
    {
        if transactions[i].block_height < best {
            best = transactions[i].block_height;
        }
        i += 1;
    }
    Some(best)
}

} // verus!
