//! The epoch processor: given an epoch window, the transaction history, and
//! the balance snapshots at the epoch start and at the previous snapshot
//! block, derives every delegator's reward and annualised yield and the
//! validator-wide totals.

use vstd::prelude::*;
use crate::amount::{bigint_str_value, canonical_dec_str, str_value_or_zero, valid_bigint_str};
use crate::bigint::{big_add, big_from_str, big_to_string, big_value, big_zero};
use crate::model::{AccountStake, DelegatorData, EpochSummary, Transaction};
use crate::rewards::{apy_value, calculate_apy, calculate_rewards, rewards_value};
use crate::stakemap::StakeMap;
use crate::totals::{calculate_epoch_transaction_totals, opt_or_zero, signed_totals, totals_get};

verus! {

/// The greatest block height below `start` among the given transactions,
/// or zero where there is none.
pub open spec fn prev_block_spec(txs: Seq<Transaction>, start: u64) -> u64
    decreases txs.len(),
{
    if txs.len() == 0 {
        0
    } else {
        let rest = prev_block_spec(txs.drop_last(), start);
        let t = txs.last();
        if t.block_height < start && t.block_height > rest {
            t.block_height
        } else {
            rest
        }
    }
}

/// Locates the block at which the previous balance snapshot is taken: the
/// greatest transaction block height strictly below the epoch start. Zero
/// means there is no previous snapshot.
pub fn prev_snapshot_block(transactions: &Vec<Transaction>, start: u64) -> (r: u64)
    ensures
        r == prev_block_spec(transactions@, start),
{
    let mut best: u64 = 0;
    let mut i: usize = 0;
    while i < transactions.len()
        invariant
            i <= transactions@.len(),
            best == prev_block_spec(transactions@.take(i as int), start),
        decreases transactions@.len() - i,
    {
        let h = transactions[i].block_height;
        if h < start && h > best {
            best = h;
        }
        proof {
            assert(transactions@.take(i + 1).drop_last() =~= transactions@.take(i as int));
            assert(transactions@.take(i + 1).last() == transactions@[i as int]);
        }
        i += 1;
    }
    proof {
        assert(transactions@.take(transactions@.len() as int) =~= transactions@);
    }
    best
}

/// The previous balance of an account, read from the previous snapshot:
/// absent stays absent, an unreadable balance reads as zero.
pub open spec fn prev_opt_value(prev: StakeMap, k: Seq<char>) -> Option<int> {
    match prev.spec_get(k) {
        Option::None => None,
        Option::Some(s) => Some(str_value_or_zero(s)),
    }
}

/// The previous balance of an account, with absence reading as zero (for
/// the sums, where only recorded balances matter).
pub open spec fn prev_value_of(prev: StakeMap, k: Seq<char>) -> int {
    opt_or_zero(prev_opt_value(prev, k))
}

/// The net signed transaction delta of an account inside the epoch window.
pub open spec fn epoch_txd(txs: Seq<Transaction>, start: u64, end: u64, k: Seq<char>) -> int {
    opt_or_zero(totals_get(txs, start, end, false, k))
}

/// The reward derived for one snapshot row.
pub open spec fn row_rewards(
    txs: Seq<Transaction>,
    start: u64,
    end: u64,
    prev: StakeMap,
    acc: AccountStake,
) -> int {
    rewards_value(
        str_value_or_zero(acc.staked_balance@),
        prev_opt_value(prev, acc.account_id@),
        epoch_txd(txs, start, end, acc.account_id@),
    )
}

/// Sum of the snapshotted balances.
pub open spec fn sum_staked(s: Seq<AccountStake>) -> int
    decreases s.len(),
{
    if s.len() == 0 {
        0
    } else {
        sum_staked(s.drop_last()) + str_value_or_zero(s.last().staked_balance@)
    }
}

/// Sum of the previous balances of the rows.
pub open spec fn sum_prev(prev: StakeMap, s: Seq<AccountStake>) -> int
    decreases s.len(),
{
    if s.len() == 0 {
        0
    } else {
        sum_prev(prev, s.drop_last()) + prev_value_of(prev, s.last().account_id@)
    }
}

/// Sum of the in-window transaction deltas of the rows.
pub open spec fn sum_txd(txs: Seq<Transaction>, start: u64, end: u64, s: Seq<AccountStake>) -> int
    decreases s.len(),
{
    if s.len() == 0 {
        0
    } else {
        sum_txd(txs, start, end, s.drop_last()) + epoch_txd(
            txs,
            start,
            end,
            s.last().account_id@,
        )
    }
}

/// Sum of the derived rewards of the rows.
pub open spec fn sum_rewards(
    txs: Seq<Transaction>,
    start: u64,
    end: u64,
    prev: StakeMap,
    s: Seq<AccountStake>,
) -> int
    decreases s.len(),
{
    if s.len() == 0 {
        0
    } else {
        sum_rewards(txs, start, end, prev, s.drop_last()) + row_rewards(
            txs,
            start,
            end,
            prev,
            s.last(),
        )
    }
}

/// What one produced delegator row must hold.
pub open spec fn row_ok(
    d: DelegatorData,
    acc: AccountStake,
    txs: Seq<Transaction>,
    validator: Seq<char>,
    start: u64,
    end: u64,
    epoch_number: u64,
    epoch_id: Seq<char>,
    epoch_timestamp: u64,
    prev: StakeMap,
) -> bool {
    &&& d.delegator_id@ == acc.account_id@
    &&& d.validator_account_id@ == validator
    &&& d.epoch == epoch_number
    &&& d.start_block_height == start
    &&& d.end_block_height == end
    &&& d.timestamp == epoch_timestamp
    &&& d.last_update_block == start
    &&& d.epoch_id@ == epoch_id
    &&& d.auto_compounded_stake@ == acc.staked_balance@
    &&& valid_bigint_str(d.initial_stake@)
    &&& canonical_dec_str(d.initial_stake@)
    &&& bigint_str_value(d.initial_stake@) == opt_or_zero(
        totals_get(txs, start, end, true, acc.account_id@),
    )
    &&& valid_bigint_str(d.rewards@)
    &&& canonical_dec_str(d.rewards@)
    &&& bigint_str_value(d.rewards@) == row_rewards(txs, start, end, prev, acc)
    &&& d.apy as int == {
        let v = apy_value(
            row_rewards(txs, start, end, prev, acc),
            str_value_or_zero(acc.staked_balance@),
        );
        if v <= u64::MAX { v } else { u64::MAX as int }
    }
}

/// Derives the delegator rows and the validator-wide summary for one epoch.
///
/// `current_stakes` is the balance snapshot at the epoch start and defines
/// the delegator set; `prev_stakes` is the snapshot at the previous
/// snapshot block, empty where there is none.
pub fn process_delegator_data(
    validator_account_id: &str,
    start_block_height: u64,
    end_block_height: u64,
    transactions: &Vec<Transaction>,
    epoch_number: u64,
    epoch_id: &str,
    epoch_timestamp: u64,
    current_stakes: &StakeMap,
    prev_stakes: &StakeMap,
) -> (r: (Vec<DelegatorData>, EpochSummary))
    requires
        current_stakes.wf(),
        prev_stakes.wf(),
    ensures
        r.0@.len() == current_stakes.rows().len(),
        crate::stakemap::unique_account_ids(current_stakes.rows()),
        forall|i: int| 0 <= i < r.0@.len() ==> row_ok(
            #[trigger] r.0@[i],
            current_stakes.rows()[i],
            transactions@,
            validator_account_id@,
            start_block_height,
            end_block_height,
            epoch_number,
            epoch_id@,
            epoch_timestamp,
            *prev_stakes,
        ),
        valid_bigint_str(r.1.total_staked@),
        canonical_dec_str(r.1.total_staked@),
        bigint_str_value(r.1.total_staked@) == sum_staked(current_stakes.rows()),
        valid_bigint_str(r.1.total_rewards@),
        canonical_dec_str(r.1.total_rewards@),
        bigint_str_value(r.1.total_rewards@) == sum_rewards(
            transactions@,
            start_block_height,
            end_block_height,
            *prev_stakes,
            current_stakes.rows(),
        ),
        r.1.total_delegators == current_stakes.rows().len(),
        r.1.apy as int == {
            let v = apy_value(
                sum_rewards(
                    transactions@,
                    start_block_height,
                    end_block_height,
                    *prev_stakes,
                    current_stakes.rows(),
                ),
                sum_staked(current_stakes.rows()),
            );
            if v <= u64::MAX { v } else { u64::MAX as int }
        },
{
    let initial_stakes = signed_totals(transactions, start_block_height, end_block_height, true);
    let epoch_totals = calculate_epoch_transaction_totals(
        transactions,
        start_block_height,
        end_block_height,
    );
    let mut rows: Vec<DelegatorData> = Vec::new();
    let mut total_staked = big_zero();
    let mut total_rewards = big_zero();
    let n = current_stakes.len();
    let mut i: usize = 0;
    while i < n
        invariant
            current_stakes.wf(),
            prev_stakes.wf(),
            n == current_stakes.rows().len(),
            i <= n,
            initial_stakes.wf(),
            epoch_totals.wf(),
            forall|k: Seq<char>| initial_stakes.spec_get(k) == totals_get(
                transactions@,
                start_block_height,
                end_block_height,
                true,
                k,
            ),
            forall|k: Seq<char>| epoch_totals.spec_get(k) == totals_get(
                transactions@,
                start_block_height,
                end_block_height,
                false,
                k,
            ),
            rows@.len() == i,
            forall|j: int| 0 <= j < i ==> row_ok(
                #[trigger] rows@[j],
                current_stakes.rows()[j],
                transactions@,
                validator_account_id@,
                start_block_height,
                end_block_height,
                epoch_number,
                epoch_id@,
                epoch_timestamp,
                *prev_stakes,
            ),
            big_value(total_staked) == sum_staked(current_stakes.rows().take(i as int)),
            big_value(total_rewards) == sum_rewards(
                transactions@,
                start_block_height,
                end_block_height,
                *prev_stakes,
                current_stakes.rows().take(i as int),
            ),
        decreases n - i,
    {
        let acc = current_stakes.row_at(i);
        let prev_balance = prev_stakes.get(acc.account_id.as_str());
        let tx_total = epoch_totals.get(acc.account_id.as_str());
        let rewards = calculate_rewards(acc.staked_balance.as_str(), prev_balance, tx_total);
        let apy = calculate_apy(rewards.as_str(), acc.staked_balance.as_str());
        let initial_stake = match initial_stakes.get(acc.account_id.as_str()) {
            Some(b) => big_to_string(b),
            None => {
                let z = big_zero();
                big_to_string(&z)
            }
        };
        let rewards_big = match big_from_str(rewards.as_str()) {
            Some(b) => b,
            None => {
                proof {
                    assert(false);
                }
                big_zero()
            }
        };
        let balance_big = match big_from_str(acc.staked_balance.as_str()) {
            Some(b) => b,
            None => big_zero(),
        };
        total_staked = big_add(&total_staked, &balance_big);
        total_rewards = big_add(&total_rewards, &rewards_big);
        let row = DelegatorData {
            delegator_id: acc.account_id.clone(),
            validator_account_id: validator_account_id.to_owned(),
            epoch: epoch_number,
            start_block_height,
            end_block_height,
            timestamp: epoch_timestamp,
            initial_stake,
            auto_compounded_stake: acc.staked_balance.clone(),
            last_update_block: start_block_height,
            epoch_id: epoch_id.to_owned(),
            rewards,
            apy,
        };
        rows.push(row);
        proof {
            let cur_rows = current_stakes.rows();
            assert(cur_rows.take(i + 1).drop_last() =~= cur_rows.take(i as int));
            assert(cur_rows.take(i + 1).last() == cur_rows[i as int]);
        }
        i += 1;
    }
    proof {
        assert(current_stakes.rows().take(n as int) =~= current_stakes.rows());
        current_stakes.lemma_rows_distinct();
    }
    let total_staked_str = big_to_string(&total_staked);
    let total_rewards_str = big_to_string(&total_rewards);
    let apy = calculate_apy(total_rewards_str.as_str(), total_staked_str.as_str());
    proof {
        assert(str_value_or_zero(total_rewards_str@) == big_value(total_rewards));
        assert(str_value_or_zero(total_staked_str@) == big_value(total_staked));
    }
    let summary = EpochSummary {
        total_staked: total_staked_str,
        total_rewards: total_rewards_str,
        total_delegators: n,
        apy,
    };
    (rows, summary)
}

/// Conservation: over rows that all carry a previous balance and whose
/// rewards were not clamped, the balance growth of the epoch splits exactly
/// into the net transaction delta plus the rewards, so the net delta never
/// exceeds the growth.
pub proof fn lemma_epoch_conservation(
    txs: Seq<Transaction>,
    start: u64,
    end: u64,
    prev: StakeMap,
    rows: Seq<AccountStake>,
)
    requires
        forall|i: int| 0 <= i < rows.len() ==> prev.spec_get(
            #[trigger] rows[i].account_id@,
        ) is Some,
        forall|i: int| 0 <= i < rows.len() ==> row_rewards(txs, start, end, prev, #[trigger] rows[i])
            == str_value_or_zero(rows[i].staked_balance@) - (prev_value_of(
            prev,
            rows[i].account_id@,
        ) + epoch_txd(txs, start, end, rows[i].account_id@)),
    ensures
        sum_txd(txs, start, end, rows) + sum_rewards(txs, start, end, prev, rows) == sum_staked(
            rows,
        ) - sum_prev(prev, rows),
        sum_txd(txs, start, end, rows) <= sum_staked(rows) - sum_prev(prev, rows),
    decreases rows.len(),
{
    if rows.len() > 0 {
        let front = rows.drop_last();
        assert(forall|i: int| 0 <= i < front.len() ==> front[i] == rows[i]);
        lemma_epoch_conservation(txs, start, end, prev, front);
        assert(rows[rows.len() - 1] == rows.last());
        crate::rewards::lemma_reward_non_negativity(
            str_value_or_zero(rows.last().staked_balance@),
            prev_opt_value(prev, rows.last().account_id@),
            epoch_txd(txs, start, end, rows.last().account_id@),
        );
    }
}

} // verus!
