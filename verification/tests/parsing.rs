use poolrank::decimal::parse_decimal_wei;
use poolrank::fetch::parse_balance;
use poolrank::pools::PoolId;

#[test]
fn wei_integer_text_parses_unscaled() {
    assert_eq!(parse_decimal_wei("2000000000000000000", 0), Some(2_000_000_000_000_000_000));
}

#[test]
fn eth_fraction_scales_to_wei() {
    assert_eq!(parse_decimal_wei("3.2", 18), Some(3_200_000_000_000_000_000));
}

#[test]
fn gwei_integer_scales_to_wei() {
    assert_eq!(parse_decimal_wei("3200000000", 9), Some(3_200_000_000_000_000_000));
}

#[test]
fn one_wei_is_the_smallest_amount() {
    assert_eq!(parse_decimal_wei("0.000000000000000001", 18), Some(1));
}

#[test]
fn negative_values_parse() {
    assert_eq!(parse_decimal_wei("-1.5", 18), Some(-1_500_000_000_000_000_000));
}

#[test]
fn positive_exponent_scales_up() {
    assert_eq!(parse_decimal_wei("2e3", 0), Some(2000));
    assert_eq!(parse_decimal_wei("1E2", 0), Some(100));
}

#[test]
fn negative_exponent_scales_down() {
    assert_eq!(parse_decimal_wei("5e-7", 18), Some(500_000_000_000));
    assert_eq!(parse_decimal_wei("5e+2", 0), Some(500));
}

#[test]
fn zero_mantissa_survives_any_exponent() {
    assert_eq!(parse_decimal_wei("0e999", 0), Some(0));
    assert_eq!(parse_decimal_wei("0", 18), Some(0));
    assert_eq!(parse_decimal_wei("-0", 18), Some(0));
}

#[test]
fn huge_exponent_is_out_of_range() {
    assert_eq!(parse_decimal_wei("1e400", 0), None);
}

#[test]
fn four_exponent_digits_are_rejected() {
    assert_eq!(parse_decimal_wei("1e1000", 0), None);
}

#[test]
fn malformed_texts_are_rejected() {
    assert_eq!(parse_decimal_wei("", 18), None);
    assert_eq!(parse_decimal_wei("-", 18), None);
    assert_eq!(parse_decimal_wei("+5", 18), None);
    assert_eq!(parse_decimal_wei(".5", 18), None);
    assert_eq!(parse_decimal_wei("5.", 18), None);
    assert_eq!(parse_decimal_wei("1.2.3", 18), None);
    assert_eq!(parse_decimal_wei("1e", 18), None);
    assert_eq!(parse_decimal_wei("1e+", 18), None);
    assert_eq!(parse_decimal_wei("1e2e3", 18), None);
    assert_eq!(parse_decimal_wei("abc", 18), None);
    assert_eq!(parse_decimal_wei("1 2", 18), None);
}

#[test]
fn leading_zeros_are_tolerated() {
    assert_eq!(parse_decimal_wei("00.5", 18), Some(500_000_000_000_000_000));
}

#[test]
fn range_cap_is_one_billion_eth() {
    // exactly the cap, in wei
    assert_eq!(
        parse_decimal_wei("1000000000000000000000000000", 0),
        Some(1_000_000_000_000_000_000_000_000_000)
    );
    assert_eq!(parse_decimal_wei("1000000000000000000000000001", 0), None);
}

#[test]
fn more_than_38_mantissa_digits_are_rejected() {
    assert_eq!(parse_decimal_wei("123456789012345678901234567890123456789", 0), None);
}

#[test]
fn sub_wei_digits_truncate_toward_zero() {
    assert_eq!(parse_decimal_wei("1.9999999999999999999", 18), Some(1_999_999_999_999_999_999));
    assert_eq!(parse_decimal_wei("-1.9999999999999999999", 18), Some(-1_999_999_999_999_999_999));
}

#[test]
fn flexpool_body_reads_result_in_wei() {
    let body = "{\"error\":null,\"result\":2000000000000000000}";
    let b = parse_balance(PoolId::Flexpool, body).unwrap();
    assert_eq!(b.wei, 2_000_000_000_000_000_000);
    assert!(matches!(b.pool, PoolId::Flexpool));
}

#[test]
fn ethermine_body_reads_nested_unpaid_in_wei() {
    let body = "{\"status\":\"OK\",\"data\":{\"time\":1,\"unpaid\":123450000000000000}}";
    let b = parse_balance(PoolId::Ethermine, body).unwrap();
    assert_eq!(b.wei, 123_450_000_000_000_000);
}

#[test]
fn two_miners_body_reads_stats_balance_in_gwei() {
    let body = "{\"hashrate\":0,\"stats\":{\"balance\":3200000000}}";
    let b = parse_balance(PoolId::TwoMiners, body).unwrap();
    assert_eq!(b.wei, 3_200_000_000_000_000_000);
}

#[test]
fn f2pool_body_reads_balance_in_eth() {
    let body = "{\"balance\":3.2}";
    let b = parse_balance(PoolId::F2Pool, body).unwrap();
    assert_eq!(b.wei, 3_200_000_000_000_000_000);
}

#[test]
fn hiveon_body_reads_total_unpaid_in_eth() {
    let body = "{\"totalUnpaid\":0.5,\"pendingPayouts\":[]}";
    let b = parse_balance(PoolId::Hiveon, body).unwrap();
    assert_eq!(b.wei, 500_000_000_000_000_000);
}

#[test]
fn nanopool_body_reads_data_in_eth() {
    let body = "{\"status\":true,\"data\":1.25}";
    let b = parse_balance(PoolId::Nanopool, body).unwrap();
    assert_eq!(b.wei, 1_250_000_000_000_000_000);
}

#[test]
fn sparkpool_body_reads_nested_balance_in_eth() {
    let body = "{\"code\":200,\"data\":{\"balance\":0.75}}";
    let b = parse_balance(PoolId::SparkPool, body).unwrap();
    assert_eq!(b.wei, 750_000_000_000_000_000);
}

#[test]
fn missing_field_is_a_fetch_failure() {
    assert!(parse_balance(PoolId::Flexpool, "{\"error\":null}").is_err());
    assert!(parse_balance(PoolId::Ethermine, "{\"data\":{}}").is_err());
}

#[test]
fn malformed_json_is_a_fetch_failure() {
    assert!(parse_balance(PoolId::Flexpool, "{not json").is_err());
    assert!(parse_balance(PoolId::Flexpool, "").is_err());
}

#[test]
fn non_numeric_field_is_a_fetch_failure() {
    assert!(parse_balance(PoolId::Flexpool, "{\"result\":\"2\"}").is_err());
    assert!(parse_balance(PoolId::F2Pool, "{\"balance\":null}").is_err());
}

#[test]
fn negative_balance_is_a_fetch_failure() {
    assert!(parse_balance(PoolId::F2Pool, "{\"balance\":-1.0}").is_err());
}

#[test]
fn integer_pool_rejects_fractional_figures() {
    // Flexpool and Ethermine report wei, 2Miners reports Gwei: the
    // field must be a bare integer numeral
    assert!(parse_balance(PoolId::Flexpool, "{\"result\":3.2}").is_err());
    assert!(parse_balance(PoolId::Ethermine, "{\"data\":{\"unpaid\":1.5}}").is_err());
    assert!(parse_balance(PoolId::TwoMiners, "{\"stats\":{\"balance\":2.5}}").is_err());
}

#[test]
fn integer_pool_rejects_exponent_figures() {
    assert!(parse_balance(PoolId::Flexpool, "{\"result\":2e3}").is_err());
}

#[test]
fn eth_pool_accepts_integer_figures() {
    let b = parse_balance(PoolId::F2Pool, "{\"balance\":3}").unwrap();
    assert_eq!(b.wei, 3_000_000_000_000_000_000);
}

#[test]
fn eth_pool_accepts_exponent_figures() {
    // a dust balance serializes in exponent form
    let b = parse_balance(PoolId::Hiveon, "{\"totalUnpaid\":5e-7}").unwrap();
    assert_eq!(b.wei, 500_000_000_000);
}
