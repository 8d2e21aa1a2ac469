use poolrank::balance::{normalize, NormalizedYield, RawBalance};
use poolrank::config::{Config, PoolConfig};
use poolrank::display::{amount_to_text, percent_to_text};
use poolrank::fetch::{balance_or_zero, parse_balance};
use poolrank::pools::PoolId;
use poolrank::rank::rank;
use poolrank::report::evaluate_amounts;

fn pool_entry(enabled: bool, hashrate_milli: u64, starting_balance_wei: i128) -> PoolConfig {
    PoolConfig {
        enabled,
        wallet: String::new(),
        hashrate_milli,
        starting_balance_wei,
    }
}

fn default_config() -> Config {
    Config::new()
}

#[test]
fn flexpool_scenario_normalizes_to_one_and_a_half_eth() {
    // 2 ETH raw in wei, hashrate 100, starting balance 0.5 ETH
    let body = "{\"error\":null,\"result\":2000000000000000000}";
    let raw = parse_balance(PoolId::Flexpool, body).unwrap();
    let cfg = pool_entry(true, 100_000, 500_000_000_000_000_000);
    let y = normalize(&raw, &cfg);
    assert_eq!(y.value, 1_500_000_000_000_000_000);
    assert_eq!(amount_to_text(y.value), "1.5");
}

#[test]
fn f2pool_scenario_normalizes_to_five_point_four_eth() {
    // 3.2 ETH raw, hashrate 50, starting balance 1 ETH
    let body = "{\"balance\":3.2}";
    let raw = parse_balance(PoolId::F2Pool, body).unwrap();
    let cfg = pool_entry(true, 50_000, 1_000_000_000_000_000_000);
    let y = normalize(&raw, &cfg);
    assert_eq!(y.value, 5_400_000_000_000_000_000);
    assert_eq!(amount_to_text(y.value), "5.4");
}

#[test]
fn two_pools_rank_with_percent_of_top() {
    let ys = vec![
        NormalizedYield { pool: PoolId::Flexpool, value: 1_500_000_000_000_000_000 },
        NormalizedYield { pool: PoolId::F2Pool, value: 5_400_000_000_000_000_000 },
    ];
    let ranked = rank(&ys);
    assert_eq!(ranked.len(), 2);
    assert!(matches!(ranked[0].pool, PoolId::F2Pool));
    assert_eq!(ranked[0].value, 5_400_000_000_000_000_000);
    assert_eq!(ranked[0].percent_of_top, None);
    assert!(matches!(ranked[1].pool, PoolId::Flexpool));
    assert_eq!(ranked[1].value, 1_500_000_000_000_000_000);
    assert_eq!(ranked[1].percent_of_top, Some(-7222));
    assert_eq!(percent_to_text(-7222), "-72.22");
}

#[test]
fn ranking_ignores_input_order() {
    let a = vec![
        NormalizedYield { pool: PoolId::Flexpool, value: 10 },
        NormalizedYield { pool: PoolId::Hiveon, value: 30 },
        NormalizedYield { pool: PoolId::F2Pool, value: 20 },
    ];
    let b = vec![a[2], a[0], a[1]];
    let ra = rank(&a);
    let rb = rank(&b);
    assert_eq!(ra.len(), rb.len());
    for i in 0..ra.len() {
        assert_eq!(ra[i].value, rb[i].value);
        assert_eq!(ra[i].percent_of_top, rb[i].percent_of_top);
        assert_eq!(ra[i].pool.index(), rb[i].pool.index());
    }
}

#[test]
fn ranking_is_non_increasing_and_breaks_ties_canonically() {
    let ys = vec![
        NormalizedYield { pool: PoolId::Nanopool, value: 5 },
        NormalizedYield { pool: PoolId::Ethermine, value: 5 },
        NormalizedYield { pool: PoolId::Flexpool, value: -3 },
        NormalizedYield { pool: PoolId::Hiveon, value: 9 },
    ];
    let ranked = rank(&ys);
    for i in 1..ranked.len() {
        assert!(ranked[i - 1].value >= ranked[i].value);
    }
    // the two fives keep the canonical order: Ethermine before Nanopool
    assert!(matches!(ranked[1].pool, PoolId::Ethermine));
    assert!(matches!(ranked[2].pool, PoolId::Nanopool));
}

#[test]
fn negative_values_sort_below_positive_ones() {
    let ys = vec![
        NormalizedYield { pool: PoolId::Flexpool, value: -1_000_000_000_000_000_000 },
        NormalizedYield { pool: PoolId::F2Pool, value: 2_000_000_000_000_000_000 },
    ];
    let ranked = rank(&ys);
    assert!(matches!(ranked[0].pool, PoolId::F2Pool));
    assert!(matches!(ranked[1].pool, PoolId::Flexpool));
}

#[test]
fn non_positive_top_omits_percentages() {
    let ys = vec![
        NormalizedYield { pool: PoolId::Flexpool, value: 0 },
        NormalizedYield { pool: PoolId::F2Pool, value: -5 },
    ];
    let ranked = rank(&ys);
    assert_eq!(ranked[0].percent_of_top, None);
    assert_eq!(ranked[1].percent_of_top, None);
}

#[test]
fn empty_input_ranks_empty() {
    let ranked = rank(&vec![]);
    assert_eq!(ranked.len(), 0);
}

#[test]
fn report_lines_match_the_documented_format() {
    let mut cfg = default_config();
    cfg.pools[3] = pool_entry(true, 1000, 0); // F2Pool
    cfg.pools[0] = pool_entry(true, 1000, 0); // Flexpool
    assert!(cfg.validate().is_ok());
    let raws = vec![
        RawBalance { pool: PoolId::F2Pool, wei: 54_000_000_000_000_000 },
        RawBalance { pool: PoolId::Flexpool, wei: 15_000_000_000_000_000 },
    ];
    // hashrate 1.0: value = raw * 100
    let lines = evaluate_amounts(&cfg, &raws);
    assert_eq!(lines.len(), 2);
    assert_eq!(lines[0], "F2Pool: 5.4 ETH");
    assert_eq!(lines[1], "Flexpool: 1.5 ETH (-72.22%)");
}

#[test]
fn degenerate_top_renders_placeholder() {
    let mut cfg = default_config();
    cfg.pools[0] = pool_entry(true, 1000, 1_000_000_000_000_000_000);
    cfg.pools[3] = pool_entry(true, 1000, 2_000_000_000_000_000_000);
    let raws = vec![
        RawBalance { pool: PoolId::Flexpool, wei: 0 },
        RawBalance { pool: PoolId::F2Pool, wei: 0 },
    ];
    let lines = evaluate_amounts(&cfg, &raws);
    assert_eq!(lines[0], "Flexpool: -1 ETH");
    assert_eq!(lines[1], "F2Pool: -2 ETH (n/a)");
}

#[test]
fn one_failed_fetch_leaves_the_other_entries_alone() {
    let mut cfg = default_config();
    cfg.pools[0] = pool_entry(true, 2000, 100_000_000_000_000_000); // Flexpool
    cfg.pools[3] = pool_entry(true, 1000, 0); // F2Pool
    cfg.pools[4] = pool_entry(true, 4000, 0); // Hiveon
    let ok = vec![
        RawBalance { pool: PoolId::Flexpool, wei: 40_000_000_000_000_000 },
        balance_or_zero(PoolId::F2Pool, &Some("{\"balance\":0.02}".to_string())),
        RawBalance { pool: PoolId::Hiveon, wei: 80_000_000_000_000_000 },
    ];
    // the same run, except F2Pool's fetch failed
    let failed = vec![
        ok[0],
        balance_or_zero(PoolId::F2Pool, &None),
        ok[2],
    ];
    assert_eq!(failed[1].wei, 0);
    let lines_ok = evaluate_amounts(&cfg, &ok);
    let lines_failed = evaluate_amounts(&cfg, &failed);
    // Flexpool: 0.04*100/2 - 0.1 = 1.9; Hiveon: 0.08*100/4 = 2
    assert!(lines_ok.iter().any(|l| l.starts_with("Hiveon: 2 ETH")));
    assert!(lines_failed.iter().any(|l| l.starts_with("Hiveon: 2 ETH")));
    assert!(lines_ok.iter().any(|l| l.starts_with("Flexpool: 1.9 ETH")));
    assert!(lines_failed.iter().any(|l| l.starts_with("Flexpool: 1.9 ETH")));
    // the failed pool reports the negation of its starting balance (here 0)
    assert!(lines_failed.iter().any(|l| l.starts_with("F2Pool: 0 ETH")));
}

#[test]
fn failed_pool_reports_minus_starting_balance() {
    let raw = balance_or_zero(PoolId::F2Pool, &None);
    assert_eq!(raw.wei, 0);
    let cfg = pool_entry(true, 1000, 750_000_000_000_000_000);
    let y = normalize(&raw, &cfg);
    assert_eq!(y.value, -750_000_000_000_000_000);
}

#[test]
fn unreadable_body_degrades_to_zero() {
    let raw = balance_or_zero(PoolId::Flexpool, &Some("not json".to_string()));
    assert_eq!(raw.wei, 0);
    assert!(matches!(raw.pool, PoolId::Flexpool));
}

#[test]
fn amounts_render_with_trimmed_fractions() {
    assert_eq!(amount_to_text(2_000_000_000_000_000_000), "2");
    assert_eq!(amount_to_text(0), "0");
    assert_eq!(amount_to_text(-250_000_000_000_000_000), "-0.25");
    assert_eq!(amount_to_text(1), "0.000000000000000001");
    assert_eq!(amount_to_text(1_230_000_000_000_000_000), "1.23");
    assert_eq!(amount_to_text(1_000_000_000_000_000_100), "1.0000000000000001");
}

#[test]
fn percents_render_with_two_decimals() {
    assert_eq!(percent_to_text(0), "0.00");
    assert_eq!(percent_to_text(5), "0.05");
    assert_eq!(percent_to_text(-5), "-0.05");
    assert_eq!(percent_to_text(12345), "123.45");
    assert_eq!(percent_to_text(-7222), "-72.22");
}
