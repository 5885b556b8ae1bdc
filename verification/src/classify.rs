//! The staking-transaction classifier: reduces a raw transaction and its
//! execution receipts to one canonical staking record. Evidence is weighed
//! in priority order: receipt logs first, then function-call actions inside
//! receipts, then the transaction's own top-level action.

use vstd::prelude::*;
use crate::amount::{
    bigint_str_value, canonical_dec_str, lemma_canonical_dec_unique, lemma_normalize_of_valid,
    normalize_amount, normalized_amount, parse_i64_spec, parse_i64_str, valid_bigint_str,
};
use crate::bigint::{big_add, big_from_str, big_to_string, big_value, big_zero};
use crate::model::Transaction;
use crate::strutil::{find_numeric_token, first_numeric_token, str_contains, string_eq, contains_seq};

verus! {

/// What the text names under a key when it parses as JSON: `None` where the
/// text is not JSON, `Some(None)` where it is JSON without a string at that
/// key, `Some(Some(v))` where the key holds the string `v`.
pub uninterp spec fn json_field_of(s: Seq<char>, key: Seq<char>) -> Option<Option<Seq<char>>>;

/// The inner layer of a `json_field_of` answer.
pub open spec fn json_inner(m: Option<Option<Seq<char>>>) -> Option<Seq<char>> {
    match m {
        Option::Some(x) => x,
        Option::None => None,
    }
}

/// Relies on `serde_json::from_str::<Value>` and `Value::get` / `as_str`:
/// whether the text parses as JSON, and if so the string under the given
/// key; both depend on the text and key alone.
#[verifier::external_body]
fn json_str_field(s: &str, key: &str) -> (r: Option<Option<String>>)
    ensures
        r is Some <==> json_field_of(s@, key@) is Some,
        r matches Some(inner) ==> ((inner is Some) == (json_inner(json_field_of(s@, key@))
            is Some)),
        r matches Some(inner) && inner matches Some(t) ==> json_inner(json_field_of(s@, key@))
            == Some(t@),
{
    match serde_json::from_str::<serde_json::Value>(s) {
        Ok(v) => Some(
            match v.get(key) {
                Some(field) => match field.as_str() {
                    Some(t) => Some(t.to_string()),
                    None => None,
                },
                None => None,
            },
        ),
        Err(_) => None,
    }
}

/// Stake or unstake.
#[derive(PartialEq, Eq, Structural, Clone, Copy, Debug)]
pub enum ActionKind {
    Stake,
    Unstake,
}

/// One piece of resolved staking evidence.
#[derive(Debug)]
pub struct StakingAction {
    pub action: ActionKind,
    /// The amount as the evidence spells it; normalized later.
    pub amount: String,
    pub method: String,
}

/// The ghost shape of a `StakingAction`.
pub struct ActionModel {
    pub action: ActionKind,
    pub amount: Seq<char>,
    pub method: Seq<char>,
}

/// The ghost view of a resolved action.
pub open spec fn action_model(a: StakingAction) -> ActionModel {
    ActionModel { action: a.action, amount: a.amount@, method: a.method@ }
}

/// A function call carried by a receipt action.
pub struct RawFunctionCall {
    pub method_name: String,
    /// The attached deposit, as a decimal string, where the call carries one.
    pub deposit: Option<String>,
    /// The decoded `args` JSON text, where the call carries one.
    pub args: Option<String>,
}

/// One execution receipt: its log lines and its function calls.
pub struct RawReceipt {
    pub logs: Vec<String>,
    pub function_calls: Vec<RawFunctionCall>,
}

/// A raw transaction as the history API reports it.
pub struct RawTransaction {
    pub transaction_hash: String,
    pub block_height: u64,
    /// Nanoseconds since the Unix epoch, as a decimal string.
    pub block_timestamp: String,
    pub predecessor_account_id: String,
    pub signer_id: String,
    /// The method of the first top-level action, where there is one.
    pub top_method: Option<String>,
    /// The aggregated deposit of the transaction, where the API reports one.
    pub agg_deposit: Option<String>,
}

/// Why a transaction could not be classified.
#[derive(PartialEq, Eq, Structural, Clone, Copy, Debug)]
pub enum ClassifyError {
    /// An amount did not read as a decimal integer.
    ParseAmount,
    /// The `args` of an unstake call did not parse as JSON.
    InvalidArgs,
    /// The block timestamp did not read as an integer.
    BadTimestamp,
}

/// What a receipt log line yields: a distributor-contract event with its
/// JSON amount, else the first keyword of the table with the line's first
/// numeric token. "unstaking" is tested before its substring "staking" so
/// that each row of the table can fire.
pub open spec fn parse_log_spec(log: Seq<char>) -> Option<ActionModel> {
    if contains_seq(log, "\"event\":\"dist.stak\""@) && json_field_of(log, "amount"@) is Some {
        Some(
            ActionModel {
                action: ActionKind::Stake,
                amount: match json_inner(json_field_of(log, "amount"@)) {
                    Option::Some(a) => a,
                    Option::None => "0"@,
                },
                method: "distribute_staking"@,
            },
        )
    } else {
        match first_numeric_token(log) {
            Option::None => None,
            Option::Some(tok) => {
                if contains_seq(log, "deposited"@) {
                    Some(ActionModel { action: ActionKind::Stake, amount: tok, method: "unknown"@ })
                } else if contains_seq(log, "unstaking"@) {
                    Some(
                        ActionModel { action: ActionKind::Unstake, amount: tok, method: "unknown"@ },
                    )
                } else if contains_seq(log, "staking"@) {
                    Some(ActionModel { action: ActionKind::Stake, amount: tok, method: "unknown"@ })
                } else if contains_seq(log, "withdrew"@) {
                    Some(
                        ActionModel { action: ActionKind::Unstake, amount: tok, method: "unknown"@ },
                    )
                } else {
                    None
                }
            },
        }
    }
}

/// Reads one receipt log line.
pub fn parse_staking_log(log: &str) -> (r: Option<StakingAction>)
    ensures
        r is Some <==> parse_log_spec(log@) is Some,
        r matches Some(a) ==> parse_log_spec(log@) == Some(action_model(a)),
{
    if str_contains(log, "\"event\":\"dist.stak\"") {
        match json_str_field(log, "amount") {
            Some(amount_opt) => {
                let amount = match amount_opt {
                    Some(a) => a,
                    None => String::from_str("0"),
                };
                return Some(
                    StakingAction {
                        action: ActionKind::Stake,
                        amount,
                        method: String::from_str("distribute_staking"),
                    },
                );
            }
            None => {}
        }
    }
    match find_numeric_token(log) {
        None => None,
        Some(tok) => {
            if str_contains(log, "deposited") {
                Some(
                    StakingAction {
                        action: ActionKind::Stake,
                        amount: tok,
                        method: String::from_str("unknown"),
                    },
                )
            } else if str_contains(log, "unstaking") {
                Some(
                    StakingAction {
                        action: ActionKind::Unstake,
                        amount: tok,
                        method: String::from_str("unknown"),
                    },
                )
            } else if str_contains(log, "staking") {
                Some(
                    StakingAction {
                        action: ActionKind::Stake,
                        amount: tok,
                        method: String::from_str("unknown"),
                    },
                )
            } else if str_contains(log, "withdrew") {
                Some(
                    StakingAction {
                        action: ActionKind::Unstake,
                        amount: tok,
                        method: String::from_str("unknown"),
                    },
                )
            } else {
                None
            }
        }
    }
}

/// The deposit fallback chain: the call's own deposit, else the
/// transaction's aggregated deposit, else zero.
pub open spec fn deposit_chain(fc: RawFunctionCall, tx: RawTransaction) -> Seq<char> {
    match fc.deposit {
        Option::Some(d) => d@,
        Option::None => match tx.agg_deposit {
            Option::Some(a) => a@,
            Option::None => "0"@,
        },
    }
}

/// What a function call yields under the staking-method table. The amount
/// of an `unstake` is its `args.amount`, else the deposit chain; of
/// `unstake_all`, the delegator's balance before the block; of
/// `withdraw_all`, the literal "all" (which later fails normalization).
pub open spec fn afc_spec(fc: RawFunctionCall, tx: RawTransaction, bal: Seq<char>) -> Result<
    Option<ActionModel>,
    ClassifyError,
> {
    let m = fc.method_name@;
    if m == "deposit_and_stake"@ || m == "stake"@ || m == "distribute_staking"@ {
        Ok(Some(ActionModel { action: ActionKind::Stake, amount: deposit_chain(fc, tx), method: m }))
    } else if m == "unstake"@ {
        match fc.args {
            Option::Some(a) => match json_field_of(a@, "amount"@) {
                Option::None => Err(ClassifyError::InvalidArgs),
                Option::Some(inner) => match inner {
                    Option::Some(amt) => Ok(
                        Some(ActionModel { action: ActionKind::Unstake, amount: amt, method: m }),
                    ),
                    Option::None => Ok(
                        Some(
                            ActionModel {
                                action: ActionKind::Unstake,
                                amount: deposit_chain(fc, tx),
                                method: m,
                            },
                        ),
                    ),
                },
            },
            Option::None => Ok(
                Some(
                    ActionModel {
                        action: ActionKind::Unstake,
                        amount: deposit_chain(fc, tx),
                        method: m,
                    },
                ),
            ),
        }
    } else if m == "unstake_all"@ {
        Ok(Some(ActionModel { action: ActionKind::Unstake, amount: bal, method: m }))
    } else if m == "withdraw"@ {
        Ok(Some(ActionModel { action: ActionKind::Unstake, amount: deposit_chain(fc, tx), method: m }))
    } else if m == "withdraw_all"@ {
        Ok(Some(ActionModel { action: ActionKind::Unstake, amount: "all"@, method: m }))
    } else {
        Ok(None)
    }
}

fn deposit_chain_exec(fc: &RawFunctionCall, tx: &RawTransaction) -> (r: String)
    ensures
        r@ == deposit_chain(*fc, *tx),
{
    match &fc.deposit {
        Some(d) => d.clone(),
        None => match &tx.agg_deposit {
            Some(a) => a.clone(),
            None => String::from_str("0"),
        },
    }
}

/// Resolves one function call against the staking-method table.
/// `unstake_all_balance` is the caller's staked balance at the block before
/// the transaction, as `get_account` reports it.
pub fn analyze_function_call(
    fc: &RawFunctionCall,
    tx: &RawTransaction,
    unstake_all_balance: &str,
) -> (r: Result<Option<StakingAction>, ClassifyError>)
    ensures
        r is Ok <==> afc_spec(*fc, *tx, unstake_all_balance@) is Ok,
        r matches Ok(o) ==> ({
            let m = afc_spec(*fc, *tx, unstake_all_balance@);
            &&& (o is Some <==> (m matches Ok(mo) && mo is Some))
            &&& (o matches Some(a) ==> (m matches Ok(mo) && mo == Some(action_model(a))))
        }),
        r matches Err(e) ==> afc_spec(*fc, *tx, unstake_all_balance@) == Err::<
            Option<ActionModel>,
            ClassifyError,
        >(e),
{
    if string_eq(&fc.method_name, "deposit_and_stake") || string_eq(&fc.method_name, "stake")
        || string_eq(&fc.method_name, "distribute_staking") {
        let amount = deposit_chain_exec(fc, tx);
        Ok(
            Some(
                StakingAction {
                    action: ActionKind::Stake,
                    amount,
                    method: fc.method_name.clone(),
                },
            ),
        )
    } else if string_eq(&fc.method_name, "unstake") {
        match &fc.args {
            Some(a) => match json_str_field(a.as_str(), "amount") {
                None => Err(ClassifyError::InvalidArgs),
                Some(inner) => match inner {
                    Some(amt) => Ok(
                        Some(
                            StakingAction {
                                action: ActionKind::Unstake,
                                amount: amt,
                                method: fc.method_name.clone(),
                            },
                        ),
                    ),
                    None => {
                        let amount = deposit_chain_exec(fc, tx);
                        Ok(
                            Some(
                                StakingAction {
                                    action: ActionKind::Unstake,
                                    amount,
                                    method: fc.method_name.clone(),
                                },
                            ),
                        )
                    }
                },
            },
            None => {
                let amount = deposit_chain_exec(fc, tx);
                Ok(
                    Some(
                        StakingAction {
                            action: ActionKind::Unstake,
                            amount,
                            method: fc.method_name.clone(),
                        },
                    ),
                )
            }
        }
    } else if string_eq(&fc.method_name, "unstake_all") {
        Ok(
            Some(
                StakingAction {
                    action: ActionKind::Unstake,
                    amount: unstake_all_balance.to_owned(),
                    method: fc.method_name.clone(),
                },
            ),
        )
    } else if string_eq(&fc.method_name, "withdraw") {
        let amount = deposit_chain_exec(fc, tx);
        Ok(
            Some(
                StakingAction {
                    action: ActionKind::Unstake,
                    amount,
                    method: fc.method_name.clone(),
                },
            ),
        )
    } else if string_eq(&fc.method_name, "withdraw_all") {
        Ok(
            Some(
                StakingAction {
                    action: ActionKind::Unstake,
                    amount: String::from_str("all"),
                    method: fc.method_name.clone(),
                },
            ),
        )
    } else {
        Ok(None)
    }
}

/// The first log line of the list that yields an action.
pub open spec fn logs_spec(logs: Seq<String>) -> Option<ActionModel>
    decreases logs.len(),
{
    if logs.len() == 0 {
        None
    } else {
        match parse_log_spec(logs[0]@) {
            Option::Some(a) => Some(a),
            Option::None => logs_spec(logs.drop_first()),
        }
    }
}

/// The first function call of the list that yields an action, or the first
/// error.
pub open spec fn fcs_spec(
    fcs: Seq<RawFunctionCall>,
    tx: RawTransaction,
    bal: Seq<char>,
) -> Result<Option<ActionModel>, ClassifyError>
    decreases fcs.len(),
{
    if fcs.len() == 0 {
        Ok(None)
    } else {
        match afc_spec(fcs[0], tx, bal) {
            Result::Err(e) => Err(e),
            Result::Ok(o) => match o {
                Option::Some(a) => Ok(Some(a)),
                Option::None => fcs_spec(fcs.drop_first(), tx, bal),
            },
        }
    }
}

/// What one receipt yields: its logs take precedence over its function
/// calls.
pub open spec fn receipt_spec(rc: RawReceipt, tx: RawTransaction, bal: Seq<char>) -> Result<
    Option<ActionModel>,
    ClassifyError,
> {
    match logs_spec(rc.logs@) {
        Option::Some(a) => Ok(Some(a)),
        Option::None => fcs_spec(rc.function_calls@, tx, bal),
    }
}

/// Resolves one receipt: log lines first, then function calls.
pub fn analyze_receipt(rc: &RawReceipt, tx: &RawTransaction, unstake_all_balance: &str) -> (r:
    Result<Option<StakingAction>, ClassifyError>)
    ensures
        r is Ok <==> receipt_spec(*rc, *tx, unstake_all_balance@) is Ok,
        r matches Ok(o) ==> ({
            let m = receipt_spec(*rc, *tx, unstake_all_balance@);
            &&& (o is Some <==> (m matches Ok(mo) && mo is Some))
            &&& (o matches Some(a) ==> (m matches Ok(mo) && mo == Some(action_model(a))))
        }),
        r matches Err(e) ==> receipt_spec(*rc, *tx, unstake_all_balance@) == Err::<
            Option<ActionModel>,
            ClassifyError,
        >(e),
{
    let mut i: usize = 0;
    proof {
        assert(rc.logs@.skip(0) =~= rc.logs@);
    }
    while i < rc.logs.len()
        invariant
            i <= rc.logs@.len(),
            logs_spec(rc.logs@) == logs_spec(rc.logs@.skip(i as int)),
        decreases rc.logs@.len() - i,
    {
        let ghost rest = rc.logs@.skip(i as int);
        proof {
            assert(rest[0] == rc.logs@[i as int]);
        }
        match parse_staking_log(rc.logs[i].as_str()) {
            Some(a) => {
                return Ok(Some(a));
            }
            None => {}
        }
        proof {
            assert(rest.drop_first() =~= rc.logs@.skip(i + 1));
        }
        i += 1;
    }
    proof {
        assert(rc.logs@.skip(rc.logs@.len() as int).len() == 0);
    }
    let mut j: usize = 0;
    proof {
        assert(rc.function_calls@.skip(0) =~= rc.function_calls@);
    }
    while j < rc.function_calls.len()
        invariant
            j <= rc.function_calls@.len(),
            logs_spec(rc.logs@) is None,
            fcs_spec(rc.function_calls@, *tx, unstake_all_balance@) == fcs_spec(
                rc.function_calls@.skip(j as int),
                *tx,
                unstake_all_balance@,
            ),
        decreases rc.function_calls@.len() - j,
    {
        let ghost rest = rc.function_calls@.skip(j as int);
        proof {
            assert(rest[0] == rc.function_calls@[j as int]);
        }
        match analyze_function_call(&rc.function_calls[j], tx, unstake_all_balance) {
            Err(e) => {
                return Err(e);
            }
            Ok(Some(a)) => {
                return Ok(Some(a));
            }
            Ok(None) => {}
        }
        proof {
            assert(rest.drop_first() =~= rc.function_calls@.skip(j + 1));
        }
        j += 1;
    }
    proof {
        assert(rc.function_calls@.skip(rc.function_calls@.len() as int).len() == 0);
    }
    Ok(None)
}

/// The running totals over the receipts of one transaction: the stake and
/// unstake sums and the action of the last receipt that yielded one.
pub struct FoldModel {
    pub stake_total: int,
    pub unstake_total: int,
    pub action: Option<ActionKind>,
}

/// Folds the receipts in order: each resolved action has its amount
/// normalized and added to the total of its kind; the first failure stops
/// the fold.
pub open spec fn receipts_fold(
    receipts: Seq<RawReceipt>,
    tx: RawTransaction,
    bal: Seq<char>,
) -> Result<FoldModel, ClassifyError>
    decreases receipts.len(),
{
    if receipts.len() == 0 {
        Ok(FoldModel { stake_total: 0, unstake_total: 0, action: None })
    } else {
        match receipts_fold(receipts.drop_last(), tx, bal) {
            Result::Err(e) => Err(e),
            Result::Ok(acc) => match receipt_spec(receipts.last(), tx, bal) {
                Result::Err(e) => Err(e),
                Result::Ok(o) => match o {
                    Option::None => Ok(acc),
                    Option::Some(am) => match normalized_amount(am.amount) {
                        Option::None => Err(ClassifyError::ParseAmount),
                        Option::Some(v) => match am.action {
                            ActionKind::Stake => Ok(
                                FoldModel {
                                    stake_total: acc.stake_total + v,
                                    unstake_total: acc.unstake_total,
                                    action: Some(ActionKind::Stake),
                                },
                            ),
                            ActionKind::Unstake => Ok(
                                FoldModel {
                                    stake_total: acc.stake_total,
                                    unstake_total: acc.unstake_total + v,
                                    action: Some(ActionKind::Unstake),
                                },
                            ),
                        },
                    },
                },
            },
        }
    }
}

proof fn lemma_fold_err_persists(
    receipts: Seq<RawReceipt>,
    tx: RawTransaction,
    bal: Seq<char>,
    m: int,
)
    requires
        0 <= m <= receipts.len(),
        receipts_fold(receipts.take(m), tx, bal) is Err,
    ensures
        receipts_fold(receipts, tx, bal) == receipts_fold(receipts.take(m), tx, bal),
    decreases receipts.len() - m,
{
    if m == receipts.len() {
        assert(receipts.take(m) =~= receipts);
    } else {
        assert(receipts.take(m + 1).drop_last() =~= receipts.take(m));
        lemma_fold_err_persists(receipts, tx, bal, m + 1);
    }
}

/// The method of the transaction's first top-level action, or "unknown".
pub open spec fn top_method_or_unknown(tx: RawTransaction) -> Seq<char> {
    match tx.top_method {
        Option::Some(m) => m@,
        Option::None => "unknown"@,
    }
}

/// The transaction's aggregated deposit, or zero.
pub open spec fn agg_deposit_or_zero(tx: RawTransaction) -> Seq<char> {
    match tx.agg_deposit {
        Option::Some(d) => d@,
        Option::None => "0"@,
    }
}

/// The record a transaction reduces to: its action and amount.
pub struct RecModel {
    pub action: ActionKind,
    /// The summed amount in base units.
    pub amount: int,
    pub method: Seq<char>,
}

/// What the receipts of a transaction reduce to: the totals of the fold
/// under the last action seen, and where no receipt yielded anything, a
/// stake of the transaction's aggregated deposit.
pub open spec fn receipts_result_spec(
    tx: RawTransaction,
    receipts: Seq<RawReceipt>,
    bal: Seq<char>,
) -> Result<RecModel, ClassifyError> {
    match receipts_fold(receipts, tx, bal) {
        Result::Err(e) => Err(e),
        Result::Ok(acc) => match acc.action {
            Option::Some(k) => Ok(
                RecModel {
                    action: k,
                    amount: if k == ActionKind::Stake {
                        acc.stake_total
                    } else {
                        acc.unstake_total
                    },
                    method: top_method_or_unknown(tx),
                },
            ),
            Option::None => match normalized_amount(agg_deposit_or_zero(tx)) {
                Option::None => Err(ClassifyError::ParseAmount),
                Option::Some(v) => Ok(
                    RecModel {
                        action: ActionKind::Stake,
                        amount: v,
                        method: top_method_or_unknown(tx),
                    },
                ),
            },
        },
    }
}

/// Reduces a transaction's receipts to one staking record, summing the
/// amounts of receipts that resolve to the same action.
pub fn analyze_receipts(
    tx: &RawTransaction,
    receipts: &Vec<RawReceipt>,
    unstake_all_balance: &str,
) -> (r: Result<StakingAction, ClassifyError>)
    ensures
        r is Ok <==> receipts_result_spec(*tx, receipts@, unstake_all_balance@) is Ok,
        r matches Ok(a) ==> (receipts_result_spec(*tx, receipts@, unstake_all_balance@)
            matches Ok(rec) && ({
            &&& a.action == rec.action
            &&& valid_bigint_str(a.amount@)
            &&& canonical_dec_str(a.amount@)
            &&& bigint_str_value(a.amount@) == rec.amount
            &&& a.method@ == rec.method
        })),
        r matches Err(e) ==> receipts_result_spec(*tx, receipts@, unstake_all_balance@) == Err::<
            RecModel,
            ClassifyError,
        >(e),
{
    let ghost bal = unstake_all_balance@;
    let mut total_stake = big_zero();
    let mut total_unstake = big_zero();
    let mut action: Option<ActionKind> = None;
    let mut i: usize = 0;
    proof {
        assert(receipts@.take(0) =~= Seq::<RawReceipt>::empty());
    }
    while i < receipts.len()
        invariant
            i <= receipts@.len(),
            receipts_fold(receipts@.take(i as int), *tx, bal) == Ok::<FoldModel, ClassifyError>(
                FoldModel {
                    stake_total: big_value(total_stake),
                    unstake_total: big_value(total_unstake),
                    action: action,
                },
            ),
            bal == unstake_all_balance@,
        decreases receipts@.len() - i,
    {
        proof {
            assert(receipts@.take(i + 1).drop_last() =~= receipts@.take(i as int));
            assert(receipts@.take(i + 1).last() == receipts@[i as int]);
        }
        match analyze_receipt(&receipts[i], tx, unstake_all_balance) {
            Err(e) => {
                proof {
                    lemma_fold_err_persists(receipts@, *tx, bal, i + 1);
                }
                return Err(e);
            }
            Ok(Some(sa)) => {
                match normalize_amount(sa.amount.as_str()) {
                    Err(_) => {
                        proof {
                            lemma_fold_err_persists(receipts@, *tx, bal, i + 1);
                        }
                        return Err(ClassifyError::ParseAmount);
                    }
                    Ok(ns) => {
                        let v = match big_from_str(ns.as_str()) {
                            Some(b) => b,
                            None => {
                                proof {
                                    assert(false);
                                }
                                big_zero()
                            }
                        };
                        match sa.action {
                            ActionKind::Stake => {
                                total_stake = big_add(&total_stake, &v);
                                action = Some(ActionKind::Stake);
                            }
                            ActionKind::Unstake => {
                                total_unstake = big_add(&total_unstake, &v);
                                action = Some(ActionKind::Unstake);
                            }
                        }
                    }
                }
            }
            Ok(None) => {}
        }
        i += 1;
    }
    proof {
        assert(receipts@.take(receipts@.len() as int) =~= receipts@);
    }
    match action {
        Some(k) => {
            let amount = match k {
                ActionKind::Stake => big_to_string(&total_stake),
                ActionKind::Unstake => big_to_string(&total_unstake),
            };
            let method = match &tx.top_method {
                Some(m) => m.clone(),
                None => String::from_str("unknown"),
            };
            Ok(StakingAction { action: k, amount, method })
        }
        None => {
            let agg = match &tx.agg_deposit {
                Some(d) => d.clone(),
                None => String::from_str("0"),
            };
            match normalize_amount(agg.as_str()) {
                Err(_) => Err(ClassifyError::ParseAmount),
                Ok(ns) => {
                    let method = match &tx.top_method {
                        Some(m) => m.clone(),
                        None => String::from_str("unknown"),
                    };
                    Ok(StakingAction { action: ActionKind::Stake, amount: ns, method })
                }
            }
        }
    }
}

/// The canonical kind of a record: "unstake" exactly where the action is
/// unstake or the method is one of the withdrawing ones.
pub open spec fn determine_type_spec(action: ActionKind, method: Seq<char>) -> ActionKind {
    if action == ActionKind::Unstake || method == "unstake"@ || method == "unstake_all"@
        || method == "withdraw"@ || method == "withdraw_all"@ {
        ActionKind::Unstake
    } else {
        ActionKind::Stake
    }
}

/// Decides the canonical kind of a record.
pub fn determine_type(action: ActionKind, method: &str) -> (r: ActionKind)
    ensures
        r == determine_type_spec(action, method@),
{
    match action {
        ActionKind::Unstake => ActionKind::Unstake,
        ActionKind::Stake => {
            if crate::strutil::str_eq(method, "unstake") || crate::strutil::str_eq(
                method,
                "unstake_all",
            ) || crate::strutil::str_eq(method, "withdraw") || crate::strutil::str_eq(
                method,
                "withdraw_all",
            ) {
                ActionKind::Unstake
            } else {
                ActionKind::Stake
            }
        }
    }
}

/// The word for a kind.
pub open spec fn kind_str(k: ActionKind) -> Seq<char> {
    match k {
        ActionKind::Stake => "stake"@,
        ActionKind::Unstake => "unstake"@,
    }
}

/// The word for a kind, as an owned string.
pub fn kind_string(k: ActionKind) -> (r: String)
    ensures
        r@ == kind_str(k),
{
    match k {
        ActionKind::Stake => String::from_str("stake"),
        ActionKind::Unstake => String::from_str("unstake"),
    }
}

/// Everything a classified transaction is made of.
pub struct RecFinal {
    pub amount: int,
    pub method: Seq<char>,
    pub action: ActionKind,
    pub kind: ActionKind,
    /// Nanoseconds since the Unix epoch.
    pub timestamp: int,
}

/// What classification reduces the evidence to.
pub open spec fn classify_spec(
    tx: RawTransaction,
    receipts: Seq<RawReceipt>,
    bal: Seq<char>,
) -> Result<RecFinal, ClassifyError> {
    match receipts_result_spec(tx, receipts, bal) {
        Result::Err(e) => Err(e),
        Result::Ok(rec) => match parse_i64_spec(tx.block_timestamp@) {
            Option::None => Err(ClassifyError::BadTimestamp),
            Option::Some(ts) => Ok(
                RecFinal {
                    amount: rec.amount,
                    method: rec.method,
                    action: rec.action,
                    kind: determine_type_spec(rec.action, rec.method),
                    timestamp: ts,
                },
            ),
        },
    }
}

/// A persisted transaction agrees with what classification reduces the
/// evidence to.
pub open spec fn classified_ok(
    t: Transaction,
    tx: RawTransaction,
    receipts: Seq<RawReceipt>,
    bal: Seq<char>,
) -> bool {
    classify_spec(tx, receipts, bal) matches Ok(rec) && ({
        &&& t.transaction_hash@ == tx.transaction_hash@
        &&& valid_bigint_str(t.amount@)
        &&& canonical_dec_str(t.amount@)
        &&& bigint_str_value(t.amount@) == rec.amount
        &&& t.method@ == rec.method
        &&& t.action@ == kind_str(rec.action)
        &&& t.type_@ == kind_str(rec.kind)
        &&& t.block_height == tx.block_height
        &&& t.timestamp as int == rec.timestamp
        &&& t.delegator_address@ == tx.predecessor_account_id@
    })
}

/// Classifies one raw transaction with its receipts into a persisted
/// `Transaction`. `unstake_all_balance` is the signer's staked balance at
/// the block before the transaction, used only by `unstake_all` calls.
pub fn classify_transaction(
    tx: &RawTransaction,
    receipts: &Vec<RawReceipt>,
    unstake_all_balance: &str,
) -> (r: Result<Transaction, ClassifyError>)
    ensures
        r is Ok <==> classify_spec(*tx, receipts@, unstake_all_balance@) is Ok,
        r matches Ok(t) ==> classified_ok(t, *tx, receipts@, unstake_all_balance@),
        r matches Err(e) ==> classify_spec(*tx, receipts@, unstake_all_balance@) == Err::<
            RecFinal,
            ClassifyError,
        >(e),
{
    let sa = match analyze_receipts(tx, receipts, unstake_all_balance) {
        Err(e) => {
            return Err(e);
        }
        Ok(sa) => sa,
    };
    let ts = match parse_i64_str(tx.block_timestamp.as_str()) {
        None => {
            return Err(ClassifyError::BadTimestamp);
        }
        Some(ts) => ts,
    };
    proof {
        lemma_normalize_of_valid(sa.amount@);
    }
    let amount = match normalize_amount(sa.amount.as_str()) {
        Err(_) => {
            proof {
                assert(false);
            }
            return Err(ClassifyError::ParseAmount);
        }
        Ok(ns) => ns,
    };
    let kind = determine_type(sa.action, sa.method.as_str());
    Ok(
        Transaction {
            transaction_hash: tx.transaction_hash.clone(),
            amount,
            method: sa.method,
            action: kind_string(sa.action),
            type_: kind_string(kind),
            block_height: tx.block_height,
            timestamp: ts,
            delegator_address: tx.predecessor_account_id.clone(),
        },
    )
}

/// Classifier idempotence: the record is a function of the evidence alone,
/// so any two classifications of the same evidence agree in every
/// observable field.
pub proof fn lemma_classifier_idempotent(
    t1: Transaction,
    t2: Transaction,
    tx: RawTransaction,
    receipts: Seq<RawReceipt>,
    bal: Seq<char>,
)
    requires
        classified_ok(t1, tx, receipts, bal),
        classified_ok(t2, tx, receipts, bal),
    ensures
        t1.transaction_hash@ == t2.transaction_hash@,
        t1.amount@ == t2.amount@,
        t1.method@ == t2.method@,
        t1.action@ == t2.action@,
        t1.type_@ == t2.type_@,
        t1.block_height == t2.block_height,
        t1.timestamp == t2.timestamp,
        t1.delegator_address@ == t2.delegator_address@,
{
    lemma_canonical_dec_unique(t1.amount@, t2.amount@);
}

/// Whether any receipt carries an `unstake_all` call, so that the caller
/// must look up the signer's previous balance first.
pub open spec fn receipts_have_unstake_all(receipts: Seq<RawReceipt>) -> bool {
    exists|i: int, j: int|
        0 <= i < receipts.len() && 0 <= j < receipts[i].function_calls@.len()
            && receipts[i].function_calls@[j].method_name@ == "unstake_all"@
}

/// Decides whether classification will need the signer's previous balance.
pub fn has_unstake_all(receipts: &Vec<RawReceipt>) -> (r: bool)
    ensures
        r == receipts_have_unstake_all(receipts@),
{
    let mut i: usize = 0;
    while i < receipts.len()
        invariant
            i <= receipts@.len(),
            forall|a: int, b: int|
                0 <= a < i && 0 <= b < receipts@[a].function_calls@.len()
                    ==> receipts@[a].function_calls@[b].method_name@ != "unstake_all"@,
        decreases receipts@.len() - i,
    {
        let fcs = &receipts[i].function_calls;
        let mut j: usize = 0;
        while j < fcs.len()
            invariant
                i < receipts@.len(),
                fcs@ == receipts@[i as int].function_calls@,
                j <= fcs@.len(),
                forall|b: int| 0 <= b < j ==> fcs@[b].method_name@ != "unstake_all"@,
            decreases fcs@.len() - j,
        {
            if string_eq(&fcs[j].method_name, "unstake_all") {
                proof {
                    assert(receipts@[i as int].function_calls@[j as int].method_name@
                        == "unstake_all"@);
                }
                return true;
            }
            j += 1;
        }
        i += 1;
    }
    false
}

} // verus!
