use std::str::FromStr;

use num_bigint::BigInt;
use num_traits::Zero;
use stake_indexer::rewards::{calculate_apy, calculate_rewards};

#[test]
fn test_calculate_rewards() {
    // Test case 1: Normal reward calculation
    assert_eq!(
        calculate_rewards(
            "26000008342448094319999999",
            Some(&"26000000000000000000000000".to_string()),
            Some(&BigInt::zero())
        ),
        "8342448094319999999"
    );

    // Test case 2: First epoch (no previous stake)
    assert_eq!(
        calculate_rewards(
            "26000000000000000000000000",
            None,
            Some(&BigInt::from_str("26000000000000000000000000").unwrap())
        ),
        "0"
    );

    // Test case 3: With transaction
    assert_eq!(
        calculate_rewards(
            "26100008342448094319999999",
            Some(&"26000000000000000000000000".to_string()),
            Some(&BigInt::from_str("100000000000000000000000").unwrap())
        ),
        "8342448094319999999"
    );
}

#[test]
fn test_rewards_clamped_to_zero() {
    // An unobserved unstake would make the algebraic reward negative; it is
    // clamped.
    assert_eq!(
        calculate_rewards("90", Some(&"100".to_string()), Some(&BigInt::zero())),
        "0"
    );
}

#[test]
fn test_rewards_present_zero_previous_uses_general_rule() {
    // A recorded previous balance of zero is not a first stake: the
    // general rule applies and the unexplained growth is reward.
    assert_eq!(
        calculate_rewards("5", Some(&"0".to_string()), Some(&BigInt::from(3))),
        "2"
    );
    // An absent previous snapshot is a first stake: no reward.
    assert_eq!(calculate_rewards("5", None, Some(&BigInt::from(3))), "0");
}

#[test]
fn test_rewards_zero_previous_large_delta() {
    // Reward non-negativity: with no previous stake and a transaction delta
    // covering the whole balance, the reward is zero.
    assert_eq!(
        calculate_rewards("5", Some(&"0".to_string()), Some(&BigInt::from(7))),
        "0"
    );
}

#[test]
fn test_rewards_absent_inputs_default_to_zero() {
    assert_eq!(calculate_rewards("0", None, None), "0");
    assert_eq!(calculate_rewards("unreadable", Some(&"0".to_string()), None), "0");
}

#[test]
fn test_calculate_apy() {
    // ~0.1% growth per epoch, annualised over 730 epochs: 73.00%, held as
    // hundredths of a percent.
    assert_eq!(
        calculate_apy("26000000000000000000000", "26000000000000000000000000"),
        7300
    );

    // No rewards
    assert_eq!(calculate_apy("0", "26000000000000000000000000"), 0);

    // No stake
    assert_eq!(calculate_apy("1000000000000000000000", "0"), 0);
}

#[test]
fn test_apy_monotone_in_rewards() {
    let stake = "26000000000000000000000000";
    let low = calculate_apy("13000000000000000000000", stake);
    let high = calculate_apy("26000000000000000000000", stake);
    assert!(low <= high);
    assert_eq!(low, 3650);
}

#[test]
fn test_apy_rounds_to_nearest_hundredth() {
    // 1 / 1000 of a unit per epoch: exactly 7300 hundredths; 1 / 3000
    // rounds to 2433 (24.33%).
    assert_eq!(calculate_apy("1", "1000"), 7300);
    assert_eq!(calculate_apy("1", "3000"), 2433);
}
