//! The persisted entities of the indexer, held as plain values. Timestamps
//! are integers: nanoseconds since the Unix epoch on transactions (as the
//! history API hands them out), milliseconds on epochs and delegator rows.

use vstd::prelude::*;

verus! {

/// A classified staking transaction.
#[derive(Debug)]
pub struct Transaction {
    pub transaction_hash: String,
    /// Decimal string of the amount in base units.
    pub amount: String,
    pub method: String,
    /// "stake" or "unstake", as the classifier resolved it.
    pub action: String,
    /// The canonical kind: "stake" or "unstake".
    pub type_: String,
    pub block_height: u64,
    /// Nanoseconds since the Unix epoch.
    pub timestamp: i64,
    pub delegator_address: String,
}

/// One delegator's derived figures for one epoch.
#[derive(Debug)]
pub struct DelegatorData {
    pub delegator_id: String,
    pub validator_account_id: String,
    pub epoch: u64,
    pub start_block_height: u64,
    pub end_block_height: u64,
    /// Milliseconds since the Unix epoch.
    pub timestamp: u64,
    /// Net transaction delta within the epoch, as a decimal string.
    pub initial_stake: String,
    /// The staked balance snapshotted at the epoch start, as a decimal string.
    pub auto_compounded_stake: String,
    pub last_update_block: u64,
    pub epoch_id: String,
    /// Non-negative decimal string.
    pub rewards: String,
    /// Annualised yield in hundredths of a percent.
    pub apy: u64,
}

/// A discovered epoch window.
#[derive(Debug)]
pub struct EpochInfo {
    pub start_block: u64,
    pub end_block: Option<u64>,
    pub epoch_id: String,
    /// Milliseconds since the Unix epoch of the block that starts the epoch.
    pub timestamp: u64,
}

/// One delegator's staked balance as the validator contract reports it.
#[derive(Debug)]
pub struct AccountStake {
    pub account_id: String,
    /// Decimal string of the staked balance in base units.
    pub staked_balance: String,
}

/// Validator-wide figures for one epoch.
#[derive(Debug)]
pub struct EpochSummary {
    /// Decimal string: the sum of all snapshotted balances.
    pub total_staked: String,
    /// Decimal string: the sum of all derived rewards.
    pub total_rewards: String,
    pub total_delegators: usize,
    /// Annualised validator-wide yield in hundredths of a percent.
    pub apy: u64,
}

} // verus!
