//! A snapshot of per-delegator staked balances, keyed by account id. Built
//! from the pages the validator contract's `get_accounts` view hands back;
//! a later page wins where an account repeats.

use vstd::prelude::*;
use crate::model::AccountStake;
use crate::strutil::string_eq;

verus! {

/// The balance recorded for `k` in `s`, searching from the back (so the
/// last occurrence wins).
pub open spec fn stake_lookup(s: Seq<AccountStake>, k: Seq<char>) -> Option<Seq<char>>
    decreases s.len(),
{
    if s.len() == 0 {
        None
    } else if s.last().account_id@ == k {
        Some(s.last().staked_balance@)
    } else {
        stake_lookup(s.drop_last(), k)
    }
}

/// Pairwise-distinct account ids.
pub open spec fn unique_account_ids(s: Seq<AccountStake>) -> bool {
    forall|i: int, j: int| 0 <= i < j < s.len() ==> s[i].account_id@ != s[j].account_id@
}

proof fn lemma_stake_lookup_found(s: Seq<AccountStake>, i: int, k: Seq<char>)
    requires
        unique_account_ids(s),
        0 <= i < s.len(),
        s[i].account_id@ == k,
    ensures
        stake_lookup(s, k) == Some(s[i].staked_balance@),
    decreases s.len(),
{
    if i < s.len() - 1 {
        assert(s[i].account_id@ != s[s.len() - 1].account_id@);
        assert(s.drop_last()[i] == s[i]);
        lemma_stake_lookup_found(s.drop_last(), i, k);
    }
}

proof fn lemma_stake_lookup_absent(s: Seq<AccountStake>, k: Seq<char>)
    requires
        forall|j: int| 0 <= j < s.len() ==> s[j].account_id@ != k,
    ensures
        stake_lookup(s, k) is None,
    decreases s.len(),
{
    if s.len() > 0 {
        lemma_stake_lookup_absent(s.drop_last(), k);
    }
}

proof fn lemma_stake_lookup_update(s: Seq<AccountStake>, i: int, e: AccountStake, k: Seq<char>)
    requires
        0 <= i < s.len(),
        s[i].account_id@ == e.account_id@,
        k != e.account_id@,
    ensures
        stake_lookup(s.update(i, e), k) == stake_lookup(s, k),
    decreases s.len(),
{
    let s2 = s.update(i, e);
    if i == s.len() - 1 {
        assert(s2.last() == e);
        assert(s2.drop_last() =~= s.drop_last());
    } else {
        assert(s2.last() == s.last());
        if s.last().account_id@ != k {
            assert(s2.drop_last() =~= s.drop_last().update(i, e));
            assert(s.drop_last()[i] == s[i]);
            lemma_stake_lookup_update(s.drop_last(), i, e, k);
        }
    }
}

/// A per-account balance snapshot with distinct account ids.
pub struct StakeMap {
    entries: Vec<AccountStake>,
}

impl StakeMap {
    /// Account ids are pairwise distinct.
    pub closed spec fn wf(self) -> bool {
        unique_account_ids(self.entries@)
    }

    /// The rows of the snapshot.
    pub closed spec fn rows(self) -> Seq<AccountStake> {
        self.entries@
    }

    /// The balance recorded under `k`, if any.
    pub open spec fn spec_get(self, k: Seq<char>) -> Option<Seq<char>> {
        stake_lookup(self.rows(), k)
    }

    /// An empty snapshot.
    pub fn new() -> (r: StakeMap)
        ensures
            r.wf(),
            r.rows() =~= Seq::<AccountStake>::empty(),
    {
        StakeMap { entries: Vec::new() }
    }

    /// How many accounts the snapshot holds.
    pub fn len(&self) -> (r: usize)
        ensures
            r == self.rows().len(),
    {
        self.entries.len()
    }

    /// A borrow of row `i`.
    pub fn row_at(&self, i: usize) -> (r: &AccountStake)
        requires
            i < self.rows().len(),
        ensures
            *r == self.rows()[i as int],
    {
        &self.entries[i]
    }

    fn find(&self, account_id: &str) -> (r: Option<usize>)
        ensures
            r matches Some(i) ==> i < self.rows().len() && self.rows()[i as int].account_id@
                == account_id@,
            r is None ==> forall|j: int|
                0 <= j < self.rows().len() ==> self.rows()[j].account_id@ != account_id@,
    {
        let mut i: usize = 0;
        while i < self.entries.len()
            invariant
                i <= self.entries@.len(),
                forall|j: int| 0 <= j < i ==> self.entries@[j].account_id@ != account_id@,
            decreases self.entries@.len() - i,
        {
            if string_eq(&self.entries[i].account_id, account_id) {
                return Some(i);
            }
            i += 1;
        }
        None
    }

    /// A borrow of the balance recorded under `account_id`, if any.
    pub fn get(&self, account_id: &str) -> (r: Option<&String>)
        requires
            self.wf(),
        ensures
            r is Some <==> self.spec_get(account_id@) is Some,
            r matches Some(b) ==> self.spec_get(account_id@) == Some(b@),
    {
        match self.find(account_id) {
            Some(i) => {
                proof {
                    lemma_stake_lookup_found(self.entries@, i as int, account_id@);
                }
                Some(&self.entries[i].staked_balance)
            }
            None => {
                proof {
                    lemma_stake_lookup_absent(self.entries@, account_id@);
                }
                None
            }
        }
    }

    /// Records `row`, replacing any earlier balance of the same account.
    pub fn upsert(&mut self, row: AccountStake)
        requires
            old(self).wf(),
        ensures
            final(self).wf(),
            final(self).spec_get(row.account_id@) == Some(row.staked_balance@),
            forall|k: Seq<char>|
                k != row.account_id@ ==> final(self).spec_get(k) == old(self).spec_get(k),
    {
        match self.find(row.account_id.as_str()) {
            Some(i) => {
                let ghost old_entries = self.entries@;
                let ghost e = row;
                self.entries[i] = row;
                proof {
                    assert(self.entries@ =~= old_entries.update(i as int, e));
                    assert forall|a: int, b: int|
                        0 <= a < b < self.entries@.len() implies self.entries@[a].account_id@
                        != self.entries@[b].account_id@ by {
                        assert(old_entries[a].account_id@ != old_entries[b].account_id@);
                    }
                    lemma_stake_lookup_found(self.entries@, i as int, e.account_id@);
                    assert forall|k: Seq<char>| k != e.account_id@ implies stake_lookup(
                        self.entries@,
                        k,
                    ) == stake_lookup(old_entries, k) by {
                        lemma_stake_lookup_update(old_entries, i as int, e, k);
                    }
                }
            }
            None => {
                proof {
                    lemma_stake_lookup_absent(self.entries@, row.account_id@);
                }
                let ghost old_entries = self.entries@;
                let ghost e = row;
                self.entries.push(row);
                proof {
                    assert(self.entries@ =~= old_entries.push(e));
                    assert(self.entries@.drop_last() =~= old_entries);
                    assert forall|a: int, b: int|
                        0 <= a < b < self.entries@.len() implies self.entries@[a].account_id@
                        != self.entries@[b].account_id@ by {
                        if b < self.entries@.len() - 1 {
                            assert(old_entries[a].account_id@ != old_entries[b].account_id@);
                        } else {
                            assert(old_entries[a].account_id@ != e.account_id@);
                        }
                    }
                }
            }
        }
    }

    /// A well-formed snapshot's rows carry pairwise-distinct account ids,
    /// so there is exactly one row per account.
    pub proof fn lemma_rows_distinct(&self)
        requires
            self.wf(),
        ensures
            unique_account_ids(self.rows()),
    {
    }

    /// Each row's balance is what the lookup reports for its account.
    pub proof fn lemma_row_lookup(&self, i: int)
        requires
            self.wf(),
            0 <= i < self.rows().len(),
        ensures
            self.spec_get(self.rows()[i].account_id@) == Some(self.rows()[i].staked_balance@),
    {
        lemma_stake_lookup_found(self.entries@, i, self.rows()[i].account_id@);
    }

    /// An account has a row exactly when the lookup knows it.
    pub proof fn lemma_key_has_row(&self, k: Seq<char>)
        ensures
            (self.spec_get(k) is Some) <==> exists|i: int|
                0 <= i < self.rows().len() && (#[trigger] self.rows()[i].account_id@) == k,
    {
        lemma_lookup_has_row(self.entries@, k);
    }

    /// Builds a snapshot from rows in arrival order; a later row of the
    /// same account replaces the earlier one. The result holds exactly one
    /// row per distinct account of the input, carrying the balance the
    /// input's last row for that account carries.
    pub fn from_rows(rows: Vec<AccountStake>) -> (r: StakeMap)
        ensures
            r.wf(),
            unique_account_ids(r.rows()),
            forall|k: Seq<char>| r.spec_get(k) == stake_lookup(rows@, k),
            forall|i: int|
                0 <= i < r.rows().len() ==> r.spec_get(#[trigger] r.rows()[i].account_id@)
                    == Some(r.rows()[i].staked_balance@),
            forall|i: int|
                0 <= i < r.rows().len() ==> stake_lookup(
                    rows@,
                    #[trigger] r.rows()[i].account_id@,
                ) is Some,
            forall|j: int|
                #![trigger rows@[j]]
                0 <= j < rows@.len() ==> exists|i: int|
                    0 <= i < r.rows().len() && (#[trigger] r.rows()[i].account_id@)
                        == rows@[j].account_id@,
    {
        let mut map = StakeMap::new();
        proof {
            assert(forall|k: Seq<char>| map.spec_get(k) is None);
        }
        let mut i: usize = 0;
        while i < rows.len()
            invariant
                i <= rows@.len(),
                map.wf(),
                forall|k: Seq<char>| map.spec_get(k) == stake_lookup(rows@.take(i as int), k),
            decreases rows@.len() - i,
        {
            let row = AccountStake {
                account_id: rows[i].account_id.clone(),
                staked_balance: rows[i].staked_balance.clone(),
            };
            proof {
                assert(row.account_id@ == rows@[i as int].account_id@);
                assert(row.staked_balance@ == rows@[i as int].staked_balance@);
            }
            map.upsert(row);
            proof {
                assert(rows@.take(i + 1).drop_last() =~= rows@.take(i as int));
                assert(rows@.take(i + 1).last() == rows@[i as int]);
            }
            i += 1;
        }
        proof {
            assert(rows@.take(rows@.len() as int) =~= rows@);
            assert forall|i: int|
                0 <= i < map.rows().len() implies map.spec_get(
                #[trigger] map.rows()[i].account_id@,
            ) == Some(map.rows()[i].staked_balance@) by {
                map.lemma_row_lookup(i);
            }
            assert forall|j: int| #![trigger rows@[j]] 0 <= j < rows@.len() implies exists|i: int|
                0 <= i < map.rows().len() && (#[trigger] map.rows()[i].account_id@)
                    == rows@[j].account_id@ by {
                lemma_lookup_has_row(rows@, rows@[j].account_id@);
                map.lemma_key_has_row(rows@[j].account_id@);
            }
        }
        map
    }
}

proof fn lemma_lookup_has_row(s: Seq<AccountStake>, k: Seq<char>)
    ensures
        (stake_lookup(s, k) is Some) <==> exists|i: int|
            0 <= i < s.len() && (#[trigger] s[i].account_id@) == k,
    decreases s.len(),
{
    if s.len() > 0 {
        lemma_lookup_has_row(s.drop_last(), k);
        if s.last().account_id@ == k {
            assert(s[s.len() - 1].account_id@ == k);
        } else {
            if stake_lookup(s, k) is Some {
                let i = choose|i: int|
                    0 <= i < s.drop_last().len() && (#[trigger] s.drop_last()[i].account_id@)
                        == k;
                assert(s[i].account_id@ == k);
            }
            if exists|i: int| 0 <= i < s.len() && (#[trigger] s[i].account_id@) == k {
                let i = choose|i: int| 0 <= i < s.len() && (#[trigger] s[i].account_id@) == k;
                assert(i < s.len() - 1);
                assert(s.drop_last()[i].account_id@ == k);
            }
        }
    }
}

} // verus!
