//! The run configuration: required endpoints and account, and the numeric
//! knobs with their defaults. Built from plain optional strings; the
//! process environment is read outside the library.

use vstd::prelude::*;
use crate::amount::{parse_u64_spec, parse_u64_str};

verus! {

/// The indexer's configuration.
#[derive(Debug)]
pub struct Config {
    pub validator_account_id: String,
    pub primary_rpc: String,
    pub secondary_rpc: String,
    pub parallel_limit: usize,
    pub batch_size: usize,
    pub epoch_blocks: u64,
    pub delegator_batch_size: usize,
}

/// Which configuration value is missing or unreadable.
#[derive(PartialEq, Eq, Structural, Clone, Copy, Debug)]
pub enum ConfigError {
    MissingValidatorAccountId,
    MissingPrimaryRpc,
    MissingSecondaryRpc,
    BadParallelLimit,
    BadBatchSize,
    BadEpochBlocks,
    BadDelegatorBatchSize,
}

/// The value of an optional numeric setting: its default where absent, its
/// parsed value where present and readable, nothing otherwise.
pub open spec fn num_field(o: Option<String>, default: int) -> Option<int> {
    match o {
        Option::None => Some(default),
        Option::Some(s) => parse_u64_spec(s@),
    }
}

/// A numeric setting that must also fit a `usize`.
pub open spec fn usize_field(o: Option<String>, default: int) -> Option<int> {
    match num_field(o, default) {
        Option::None => None,
        Option::Some(v) => if v <= usize::MAX {
            Some(v)
        } else {
            None
        },
    }
}

fn read_u64_field(o: Option<String>, default: u64) -> (r: Option<u64>)
    ensures
        r is Some <==> num_field(o, default as int) is Some,
        r matches Some(v) ==> num_field(o, default as int) == Some(v as int),
{
    match o {
        None => Some(default),
        Some(s) => parse_u64_str(s.as_str()),
    }
}

fn read_usize_field(o: Option<String>, default: u64) -> (r: Option<usize>)
    requires
        default <= usize::MAX,
    ensures
        r is Some <==> usize_field(o, default as int) is Some,
        r matches Some(v) ==> usize_field(o, default as int) == Some(v as int),
{
    match read_u64_field(o, default) {
        None => None,
        Some(v) => {
            if v <= usize::MAX as u64 {
                Some(v as usize)
            } else {
                None
            }
        }
    }
}

impl Config {
    /// Assembles a configuration from the raw setting values. The account
    /// and the two endpoints are required; the numeric settings fall back
    /// to their defaults (35 parallel tasks, probe batches of 10, epochs of
    /// 43200 blocks, delegator upserts in chunks of 1000) and are rejected
    /// where present but unreadable.
    pub fn from_values(
        validator_account_id: Option<String>,
        primary_rpc: Option<String>,
        secondary_rpc: Option<String>,
        parallel_limit: Option<String>,
        batch_size: Option<String>,
        epoch_blocks: Option<String>,
        delegator_batch_size: Option<String>,
    ) -> (r: Result<Config, ConfigError>)
        ensures
            r matches Err(e) ==> e == (if validator_account_id is None {
                ConfigError::MissingValidatorAccountId
            } else if primary_rpc is None {
                ConfigError::MissingPrimaryRpc
            } else if secondary_rpc is None {
                ConfigError::MissingSecondaryRpc
            } else if usize_field(parallel_limit, 35) is None {
                ConfigError::BadParallelLimit
            } else if usize_field(batch_size, 10) is None {
                ConfigError::BadBatchSize
            } else if num_field(epoch_blocks, 43200) is None {
                ConfigError::BadEpochBlocks
            } else {
                ConfigError::BadDelegatorBatchSize
            }),
            r is Ok <==> (validator_account_id is Some && primary_rpc is Some && secondary_rpc
                is Some && usize_field(parallel_limit, 35) is Some && usize_field(batch_size, 10)
                is Some && num_field(epoch_blocks, 43200) is Some && usize_field(
                delegator_batch_size,
                1000,
            ) is Some),
            r matches Ok(c) ==> ({
                &&& validator_account_id matches Some(v) && c.validator_account_id == v
                &&& primary_rpc matches Some(p) && c.primary_rpc == p
                &&& secondary_rpc matches Some(s) && c.secondary_rpc == s
                &&& usize_field(parallel_limit, 35) == Some(c.parallel_limit as int)
                &&& usize_field(batch_size, 10) == Some(c.batch_size as int)
                &&& num_field(epoch_blocks, 43200) == Some(c.epoch_blocks as int)
                &&& usize_field(delegator_batch_size, 1000) == Some(
                    c.delegator_batch_size as int,
                )
            }),
    {
        let validator_account_id = match validator_account_id {
            None => {
                return Err(ConfigError::MissingValidatorAccountId);
            },
            Some(v) => v,
        };
        let primary_rpc = match primary_rpc {
            None => {
                return Err(ConfigError::MissingPrimaryRpc);
            },
            Some(v) => v,
        };
        let secondary_rpc = match secondary_rpc {
            None => {
                return Err(ConfigError::MissingSecondaryRpc);
            },
            Some(v) => v,
        };
        let parallel_limit = match read_usize_field(parallel_limit, 35) {
            None => {
                return Err(ConfigError::BadParallelLimit);
            },
            Some(v) => v,
        };
        let batch_size = match read_usize_field(batch_size, 10) {
            None => {
                return Err(ConfigError::BadBatchSize);
            },
            Some(v) => v,
        };
        let epoch_blocks = match read_u64_field(epoch_blocks, 43200) {
            None => {
                return Err(ConfigError::BadEpochBlocks);
            },
            Some(v) => v,
        };
        let delegator_batch_size = match read_usize_field(delegator_batch_size, 1000) {
            None => {
                return Err(ConfigError::BadDelegatorBatchSize);
            },
            Some(v) => v,
        };
        Ok(
            Config {
                validator_account_id,
                primary_rpc,
                secondary_rpc,
                parallel_limit,
                batch_size,
                epoch_blocks,
                delegator_batch_size,
            },
        )
    }
}

} // verus!
