//! Per-delegator signed transaction totals: an association list keyed by
//! delegator address with arbitrary-precision values, and the folds that
//! fill it from a transaction list.

use vstd::prelude::*;
use num_bigint::BigInt;
use crate::amount::{str_value_or_zero, valid_bigint_str};
use crate::bigint::{big_add, big_from_str, big_sub, big_value, big_zero};
use crate::model::Transaction;
use crate::strutil::string_eq;

verus! {

/// One delegator's running total.
pub struct DelegatorTotal {
    pub delegator: String,
    pub total: BigInt,
}

/// `Some` of the value stored under `k`, searched from the back.
pub open spec fn assoc_get(s: Seq<DelegatorTotal>, k: Seq<char>) -> Option<int>
    decreases s.len(),
{
    if s.len() == 0 {
        None
    } else if s.last().delegator@ == k {
        Some(big_value(s.last().total))
    } else {
        assoc_get(s.drop_last(), k)
    }
}

/// Pairwise-distinct delegator keys.
pub open spec fn unique_keys(s: Seq<DelegatorTotal>) -> bool {
    forall|i: int, j: int| 0 <= i < j < s.len() ==> s[i].delegator@ != s[j].delegator@
}

/// Zero when absent.
pub open spec fn opt_or_zero(o: Option<int>) -> int {
    match o {
        Option::None => 0,
        Option::Some(v) => v,
    }
}

proof fn lemma_assoc_get_found(s: Seq<DelegatorTotal>, i: int, k: Seq<char>)
    requires
        unique_keys(s),
        0 <= i < s.len(),
        s[i].delegator@ == k,
    ensures
        assoc_get(s, k) == Some(big_value(s[i].total)),
    decreases s.len(),
{
    if i < s.len() - 1 {
        assert(s[i].delegator@ != s[s.len() - 1].delegator@);
        assert(s.drop_last()[i] == s[i]);
        lemma_assoc_get_found(s.drop_last(), i, k);
    }
}

proof fn lemma_assoc_get_absent(s: Seq<DelegatorTotal>, k: Seq<char>)
    requires
        forall|j: int| 0 <= j < s.len() ==> s[j].delegator@ != k,
    ensures
        assoc_get(s, k) is None,
    decreases s.len(),
{
    if s.len() > 0 {
        assert(s.drop_last() =~= s.subrange(0, s.len() - 1));
        lemma_assoc_get_absent(s.drop_last(), k);
    }
}

proof fn lemma_assoc_get_update(s: Seq<DelegatorTotal>, i: int, e: DelegatorTotal, k: Seq<char>)
    requires
        0 <= i < s.len(),
        s[i].delegator@ == e.delegator@,
        k != e.delegator@,
    ensures
        assoc_get(s.update(i, e), k) == assoc_get(s, k),
    decreases s.len(),
{
    let s2 = s.update(i, e);
    if i == s.len() - 1 {
        assert(s2.last() == e);
        assert(s2.drop_last() =~= s.drop_last());
    } else {
        assert(s2.last() == s.last());
        if s.last().delegator@ == k {
        } else {
            assert(s2.drop_last() =~= s.drop_last().update(i, e));
            assert(s.drop_last()[i] == s[i]);
            lemma_assoc_get_update(s.drop_last(), i, e, k);
        }
    }
}

/// The running totals of all delegators seen so far.
pub struct DelegatorTotals {
    entries: Vec<DelegatorTotal>,
}

impl DelegatorTotals {
    /// Keys are pairwise distinct.
    pub closed spec fn wf(self) -> bool {
        unique_keys(self.entries@)
    }

    /// The total stored under `k`, if any.
    pub closed spec fn spec_get(self, k: Seq<char>) -> Option<int> {
        assoc_get(self.entries@, k)
    }

    /// An empty map.
    pub fn new() -> (r: DelegatorTotals)
        ensures
            r.wf(),
            forall|k: Seq<char>| r.spec_get(k) is None,
    {
        let r = DelegatorTotals { entries: Vec::new() };
        proof {
            assert(forall|k: Seq<char>| r.spec_get(k) is None);
        }
        r
    }

    fn find(&self, delegator: &str) -> (r: Option<usize>)
        ensures
            r matches Some(i) ==> i < self.entries@.len()
                && self.entries@[i as int].delegator@ == delegator@,
            r is None ==> forall|j: int|
                0 <= j < self.entries@.len() ==> self.entries@[j].delegator@ != delegator@,
    {
        let mut i: usize = 0;
        while i < self.entries.len()
            invariant
                i <= self.entries@.len(),
                forall|j: int| 0 <= j < i ==> self.entries@[j].delegator@ != delegator@,
            decreases self.entries@.len() - i,
        {
            if string_eq(&self.entries[i].delegator, delegator) {
                return Some(i);
            }
            i += 1;
        }
        None
    }

    /// A borrow of the total stored under `delegator`, if any.
    pub fn get(&self, delegator: &str) -> (r: Option<&BigInt>)
        requires
            self.wf(),
        ensures
            r is Some <==> self.spec_get(delegator@) is Some,
            r matches Some(b) ==> self.spec_get(delegator@) == Some(big_value(*b)),
    {
        match self.find(delegator) {
            Some(i) => {
                proof {
                    lemma_assoc_get_found(self.entries@, i as int, delegator@);
                }
                Some(&self.entries[i].total)
            }
            None => {
                proof {
                    lemma_assoc_get_absent(self.entries@, delegator@);
                }
                None
            }
        }
    }

    /// Adds `delta` (negated when `negate`) to the total under `delegator`,
    /// creating the entry at zero first when absent.
    pub fn accumulate(&mut self, delegator: &str, delta: &BigInt, negate: bool)
        requires
            old(self).wf(),
        ensures
            final(self).wf(),
            final(self).spec_get(delegator@) == Some(
                opt_or_zero(old(self).spec_get(delegator@)) + if negate {
                    -big_value(*delta)
                } else {
                    big_value(*delta)
                },
            ),
            forall|k: Seq<char>|
                k != delegator@ ==> final(self).spec_get(k) == old(self).spec_get(k),
    {
        match self.find(delegator) {
            Some(i) => {
                proof {
                    lemma_assoc_get_found(self.entries@, i as int, delegator@);
                }
                let name = self.entries[i].delegator.clone();
                let new_total = if negate {
                    big_sub(&self.entries[i].total, delta)
                } else {
                    big_add(&self.entries[i].total, delta)
                };
                let ghost old_entries = self.entries@;
                let e = DelegatorTotal { delegator: name, total: new_total };
                proof {
                    assert(e.delegator@ == delegator@);
                }
                self.entries[i] = e;
                proof {
                    assert(self.entries@ =~= old_entries.update(i as int, e));
                    assert forall|a: int, b: int|
                        0 <= a < b < self.entries@.len() implies self.entries@[a].delegator@
                        != self.entries@[b].delegator@ by {
                        assert(old_entries[a].delegator@ != old_entries[b].delegator@);
                    }
                    lemma_assoc_get_found(self.entries@, i as int, delegator@);
                    assert forall|k: Seq<char>| k != delegator@ implies assoc_get(
                        self.entries@,
                        k,
                    ) == assoc_get(old_entries, k) by {
                        lemma_assoc_get_update(old_entries, i as int, e, k);
                    }
                }
            }
            None => {
                proof {
                    lemma_assoc_get_absent(self.entries@, delegator@);
                }
                let z = big_zero();
                let new_total = if negate {
                    big_sub(&z, delta)
                } else {
                    big_add(&z, delta)
                };
                let e = DelegatorTotal { delegator: delegator.to_owned(), total: new_total };
                let ghost old_entries = self.entries@;
                self.entries.push(e);
                proof {
                    assert(self.entries@ =~= old_entries.push(e));
                    assert(self.entries@.last() == e);
                    assert(self.entries@.drop_last() =~= old_entries);
                    assert forall|a: int, b: int|
                        0 <= a < b < self.entries@.len() implies self.entries@[a].delegator@
                        != self.entries@[b].delegator@ by {
                        if b < self.entries@.len() - 1 {
                            assert(old_entries[a].delegator@ != old_entries[b].delegator@);
                        } else {
                            assert(old_entries[a].delegator@ != delegator@);
                        }
                    }
                }
            }
        }
    }
}

/// The signed delta a transaction contributes: its amount for kind "stake",
/// the negated amount for kind "unstake", nothing for other kinds.
pub open spec fn tx_delta(t: Transaction) -> int {
    if t.type_@ == "stake"@ {
        str_value_or_zero(t.amount@)
    } else if t.type_@ == "unstake"@ {
        -str_value_or_zero(t.amount@)
    } else {
        0
    }
}

/// The total stored under `k` after folding the transactions of
/// `txs` whose block height lies in `[lo, hi]`. With `skip_invalid`, a
/// transaction whose amount does not parse leaves the map untouched;
/// without it, it still creates the entry.
pub open spec fn totals_get(
    txs: Seq<Transaction>,
    lo: u64,
    hi: u64,
    skip_invalid: bool,
    k: Seq<char>,
) -> Option<int>
    decreases txs.len(),
{
    if txs.len() == 0 {
        None
    } else {
        let prev = totals_get(txs.drop_last(), lo, hi, skip_invalid, k);
        let t = txs.last();
        if t.delegator_address@ == k && lo <= t.block_height && t.block_height <= hi {
            if !valid_bigint_str(t.amount@) && skip_invalid {
                prev
            } else {
                Some(opt_or_zero(prev) + tx_delta(t))
            }
        } else {
            prev
        }
    }
}

/// Folds the in-range transactions into per-delegator signed totals.
pub fn signed_totals(
    transactions: &Vec<Transaction>,
    lo: u64,
    hi: u64,
    skip_invalid: bool,
) -> (r: DelegatorTotals)
    ensures
        r.wf(),
        forall|k: Seq<char>| r.spec_get(k) == totals_get(transactions@, lo, hi, skip_invalid, k),
{
    let mut totals = DelegatorTotals::new();
    let mut i: usize = 0;
    while i < transactions.len()
        invariant
            i <= transactions@.len(),
            totals.wf(),
            forall|k: Seq<char>| totals.spec_get(k) == totals_get(
                transactions@.take(i as int),
                lo,
                hi,
                skip_invalid,
                k,
            ),
        decreases transactions@.len() - i,
    {
        let t = &transactions[i];
        let ghost pre = totals;
        if t.block_height >= lo && t.block_height <= hi {
            match big_from_str(t.amount.as_str()) {
                Some(a) => {
                    if string_eq(&t.type_, "stake") {
                        totals.accumulate(t.delegator_address.as_str(), &a, false);
                    } else if string_eq(&t.type_, "unstake") {
                        totals.accumulate(t.delegator_address.as_str(), &a, true);
                    } else {
                        let z = big_zero();
                        totals.accumulate(t.delegator_address.as_str(), &z, false);
                    }
                }
                None => {
                    if !skip_invalid {
                        let z = big_zero();
                        totals.accumulate(t.delegator_address.as_str(), &z, false);
                    }
                }
            }
        }
        proof {
            let txs = transactions@;
            assert(txs.take(i + 1).drop_last() =~= txs.take(i as int));
            assert(txs.take(i + 1).last() == txs[i as int]);
            assert forall|k: Seq<char>| totals.spec_get(k) == totals_get(
                txs.take(i + 1),
                lo,
                hi,
                skip_invalid,
                k,
            ) by {
                let prev = totals_get(txs.take(i as int), lo, hi, skip_invalid, k);
                if txs[i as int].delegator_address@ == k && lo <= txs[i as int].block_height
                    && txs[i as int].block_height <= hi {
                    if !valid_bigint_str(txs[i as int].amount@) && skip_invalid {
                        assert(totals.spec_get(k) == prev);
                    }
                } else {
                    assert(totals.spec_get(k) == prev);
                }
            }
        }
        i += 1;
    }
    proof {
        assert(transactions@.take(transactions@.len() as int) =~= transactions@);
    }
    totals
}

/// Net signed stake per delegator over the whole given list; a transaction
/// whose amount does not parse is skipped.
pub fn calculate_initial_stakes(transactions: &Vec<Transaction>) -> (r: DelegatorTotals)
    ensures
        r.wf(),
        forall|k: Seq<char>| r.spec_get(k) == totals_get(transactions@, 0, u64::MAX, true, k),
{
    signed_totals(transactions, 0, u64::MAX, true)
}

/// Net signed stake per delegator over the transactions inside the block
/// range `[start, end]`; an unparseable amount counts as zero.
pub fn calculate_epoch_transaction_totals(
    transactions: &Vec<Transaction>,
    start: u64,
    end: u64,
) -> (r: DelegatorTotals)
    ensures
        r.wf(),
        forall|k: Seq<char>| r.spec_get(k) == totals_get(transactions@, start, end, false, k),
{
    signed_totals(transactions, start, end, false)
}

} // verus!
