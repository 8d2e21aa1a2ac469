use poolrank::config::{answer_is_yes, enabled_pools, Config, ConfigError, PoolConfig};
use poolrank::pools::{pool_url, PoolId, POOL_COUNT};

#[test]
fn zero_hashrate_is_rejected_at_validation() {
    let mut cfg = Config::new();
    cfg.pools[0] = PoolConfig {
        enabled: true,
        wallet: "0xabc".to_string(),
        hashrate_milli: 0,
        starting_balance_wei: 0,
    };
    let r = cfg.validate();
    assert!(r.is_err());
    assert_eq!(r.unwrap_err(), ConfigError::ZeroHashrate);
}

#[test]
fn zero_hashrate_on_a_disabled_pool_is_still_rejected() {
    let mut cfg = Config::new();
    cfg.pools[5].hashrate_milli = 0;
    assert!(cfg.validate().is_err());
}

#[test]
fn default_config_is_valid_and_disabled() {
    let cfg = Config::new();
    assert!(cfg.validate().is_ok());
    assert_eq!(enabled_pools(&cfg).len(), 0);
    for p in cfg.pools.iter() {
        assert!(!p.enabled);
        assert_eq!(p.hashrate_milli, 1000);
        assert_eq!(p.starting_balance_wei, 0);
    }
}

#[test]
fn wrong_pool_count_is_rejected() {
    let mut cfg = Config::new();
    cfg.pools.pop();
    let r = cfg.validate();
    assert_eq!(r.unwrap_err(), ConfigError::WrongPoolCount);
}

#[test]
fn out_of_range_starting_balance_is_rejected() {
    let mut cfg = Config::new();
    cfg.pools[2].starting_balance_wei = 2_000_000_000_000_000_000_000_000_000;
    let r = cfg.validate();
    assert_eq!(r.unwrap_err(), ConfigError::StartingBalanceOutOfRange);
}

#[test]
fn enabled_pools_keep_the_canonical_order() {
    let mut cfg = Config::new();
    cfg.pools[5].enabled = true; // Nanopool
    cfg.pools[0].enabled = true; // Flexpool
    cfg.pools[3].enabled = true; // F2Pool
    let pools = enabled_pools(&cfg);
    assert_eq!(pools.len(), 3);
    assert!(matches!(pools[0], PoolId::Flexpool));
    assert!(matches!(pools[1], PoolId::F2Pool));
    assert!(matches!(pools[2], PoolId::Nanopool));
}

#[test]
fn pool_config_lookup_follows_canonical_positions() {
    let mut cfg = Config::new();
    cfg.pools[4].hashrate_milli = 4200;
    assert_eq!(cfg.get_pool_config(PoolId::Hiveon).hashrate_milli, 4200);
    assert_eq!(cfg.get_pool_config(PoolId::Flexpool).hashrate_milli, 1000);
}

#[test]
fn there_are_seven_pools_with_stable_keys() {
    assert_eq!(POOL_COUNT, 7);
    assert_eq!(PoolId::Flexpool.key(), "flexpool");
    assert_eq!(PoolId::Ethermine.key(), "ethermine");
    assert_eq!(PoolId::TwoMiners.key(), "2miners");
    assert_eq!(PoolId::F2Pool.key(), "f2pool");
    assert_eq!(PoolId::Hiveon.key(), "hiveon");
    assert_eq!(PoolId::Nanopool.key(), "nanopool");
    assert_eq!(PoolId::SparkPool.key(), "sparkpool");
}

#[test]
fn display_names_match_the_report() {
    assert_eq!(PoolId::Flexpool.name(), "Flexpool");
    assert_eq!(PoolId::TwoMiners.name(), "2miners");
    assert_eq!(PoolId::F2Pool.name(), "F2Pool");
}

#[test]
fn urls_interpolate_the_wallet() {
    assert_eq!(
        pool_url(PoolId::Flexpool, "0xabc"),
        "https://flexpool.io/api/v1/miner/0xabc/balance/"
    );
    assert_eq!(
        pool_url(PoolId::Ethermine, "0xabc"),
        "https://api.ethermine.org/miner/0xabc/currentStats"
    );
    assert_eq!(
        pool_url(PoolId::TwoMiners, "0xabc"),
        "https://eth.2miners.com/api/accounts/0xabc"
    );
    assert_eq!(pool_url(PoolId::F2Pool, "w1"), "https://api.f2pool.com/eth/w1");
    assert_eq!(
        pool_url(PoolId::Nanopool, "0xabc"),
        "https://api.nanopool.org/v1/eth/balance/0xabc"
    );
    assert_eq!(
        pool_url(PoolId::SparkPool, "0xabc"),
        "https://www.sparkpool.com/v1/bill/stats?miner=0xabc&currency=ETH"
    );
}

#[test]
fn hiveon_url_strips_the_two_character_prefix() {
    assert_eq!(
        pool_url(PoolId::Hiveon, "0xABCDEF"),
        "https://hiveon.net/api/v1/stats/miner/ABCDEF/ETH/billing-acc"
    );
    assert_eq!(
        pool_url(PoolId::Hiveon, "0x"),
        "https://hiveon.net/api/v1/stats/miner//ETH/billing-acc"
    );
    assert_eq!(
        pool_url(PoolId::Hiveon, "a"),
        "https://hiveon.net/api/v1/stats/miner//ETH/billing-acc"
    );
}

#[test]
fn yes_answers_contain_the_letter_y() {
    assert!(answer_is_yes("y\n"));
    assert!(answer_is_yes("Yes"));
    assert!(answer_is_yes("Y"));
    assert!(!answer_is_yes("no\n"));
    assert!(!answer_is_yes(""));
    assert!(!answer_is_yes("ok"));
}
