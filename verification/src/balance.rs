//! Fixed-point amounts and the normalization formula.
//!
//! Every ETH quantity is held as a signed count of wei (10^-18 ETH), so
//! the pipeline's arithmetic is exact. A configured hashrate is held in
//! thousandths of its unit. Normalizing a raw balance scales it to a
//! "per 100 units of hashrate" figure and subtracts the configured
//! starting balance:
//!
//!   value = raw_wei * 100 / hashrate = raw_wei * 100_000 / hashrate_milli,
//!   then minus starting_balance_wei.
//!
//! The division truncates; raw balances are nonnegative, so truncation
//! and rounding toward zero agree.

use vstd::prelude::*;
use crate::pools::PoolId;
use crate::config::PoolConfig;

verus! {

/// Wei per ETH: amounts carry 18 decimal places.
pub const WEI_PER_ETH: i128 = 1_000_000_000_000_000_000;

/// Largest raw balance the pipeline accepts, in wei (one billion ETH).
/// A fetched figure beyond it is treated as a failed fetch.
pub const MAX_RAW_WEI: i128 = 1_000_000_000_000_000_000_000_000_000;

/// Factor applied to a raw wei balance before dividing by the hashrate in
/// milli-units: 100 (percent basis) times 1000 (milli).
pub const YIELD_SCALE: i128 = 100_000;

/// Bound on a normalized yield's magnitude: the largest raw balance times
/// `YIELD_SCALE` (at the minimum hashrate of one milli-unit) plus the
/// largest starting balance.
pub const VALUE_MAX: i128 = 200_000_000_000_000_000_000_000_000_000_000;

/// One pool's balance as fetched, converted to wei.
#[derive(Clone, Copy, Debug, PartialEq, Eq, Structural)]
pub struct RawBalance {
    pub pool: PoolId,
    pub wei: i128,
}

impl RawBalance {
    /// Fetched balances are nonnegative and within the accepted range.
    pub open spec fn wf(self) -> bool {
        0 <= self.wei <= MAX_RAW_WEI
    }
}

/// One pool's comparable net yield.
#[derive(Clone, Copy, Debug, PartialEq, Eq, Structural)]
pub struct NormalizedYield {
    pub pool: PoolId,
    pub value: i128,
}

impl NormalizedYield {
    pub open spec fn wf(self) -> bool {
        -VALUE_MAX <= self.value <= VALUE_MAX
    }
}

/// The normalization formula, over mathematical integers. The division is
/// on nonnegative operands, so it truncates toward zero.
pub open spec fn spec_normalized(raw_wei: int, hashrate_milli: int, starting_wei: int) -> int {
    raw_wei * YIELD_SCALE / hashrate_milli - starting_wei
}

/// Applies the configured hashrate scaling and starting-balance baseline
/// to a fetched balance. A hashrate of zero never reaches this function:
/// configuration validation rejects it.
pub fn normalize(raw: &RawBalance, cfg: &PoolConfig) -> (r: NormalizedYield)
    requires
        raw.wf(),
        cfg.wf(),
    ensures
        r.pool == raw.pool,
        r.value == spec_normalized(raw.wei as int, cfg.hashrate_milli as int, cfg.starting_balance_wei as int),
        r.wf(),
{
    let scaled: u128 = (raw.wei as u128) * (YIELD_SCALE as u128);
    let q: u128 = scaled / (cfg.hashrate_milli as u128);
    assert(q <= scaled) by (nonlinear_arith)
        requires
            q == scaled / (cfg.hashrate_milli as u128),
            cfg.hashrate_milli >= 1,
    ;
    let value: i128 = (q as i128) - cfg.starting_balance_wei;
    NormalizedYield { pool: raw.pool, value }
}

} // verus!
