use stake_indexer::config::{Config, ConfigError};

fn s(v: &str) -> Option<String> {
    Some(v.to_string())
}

#[test]
fn test_config_defaults() {
    let c = Config::from_values(
        s("validator.pool"),
        s("https://rpc.primary"),
        s("https://rpc.secondary"),
        None,
        None,
        None,
        None,
    )
    .unwrap();
    assert_eq!(c.validator_account_id, "validator.pool");
    assert_eq!(c.primary_rpc, "https://rpc.primary");
    assert_eq!(c.secondary_rpc, "https://rpc.secondary");
    assert_eq!(c.parallel_limit, 35);
    assert_eq!(c.batch_size, 10);
    assert_eq!(c.epoch_blocks, 43200);
    assert_eq!(c.delegator_batch_size, 1000);
}

#[test]
fn test_config_overrides() {
    let c = Config::from_values(
        s("v"),
        s("p"),
        s("q"),
        s("7"),
        s("20"),
        s("100"),
        s("500"),
    )
    .unwrap();
    assert_eq!(c.parallel_limit, 7);
    assert_eq!(c.batch_size, 20);
    assert_eq!(c.epoch_blocks, 100);
    assert_eq!(c.delegator_batch_size, 500);
}

#[test]
fn test_config_missing_required() {
    assert_eq!(
        Config::from_values(None, s("p"), s("q"), None, None, None, None).unwrap_err(),
        ConfigError::MissingValidatorAccountId
    );
    assert_eq!(
        Config::from_values(s("v"), None, s("q"), None, None, None, None).unwrap_err(),
        ConfigError::MissingPrimaryRpc
    );
    assert_eq!(
        Config::from_values(s("v"), s("p"), None, None, None, None, None).unwrap_err(),
        ConfigError::MissingSecondaryRpc
    );
}

#[test]
fn test_config_bad_numbers() {
    assert_eq!(
        Config::from_values(s("v"), s("p"), s("q"), s("x"), None, None, None).unwrap_err(),
        ConfigError::BadParallelLimit
    );
    assert_eq!(
        Config::from_values(s("v"), s("p"), s("q"), None, s("-1"), None, None).unwrap_err(),
        ConfigError::BadBatchSize
    );
    assert_eq!(
        Config::from_values(s("v"), s("p"), s("q"), None, None, s(""), None).unwrap_err(),
        ConfigError::BadEpochBlocks
    );
    assert_eq!(
        Config::from_values(s("v"), s("p"), s("q"), None, None, None, s("9.5")).unwrap_err(),
        ConfigError::BadDelegatorBatchSize
    );
}
