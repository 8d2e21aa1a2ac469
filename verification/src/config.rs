//! Run configuration: one entry per pool, kept in canonical pool order.
//!
//! A configuration is validated once, right after it is loaded or built
//! by the caller's wizard; the pipeline then requires a validated value,
//! so a zero hashrate can never reach the normalization formula.

use vstd::prelude::*;
use crate::pools::{PoolId, pool_index, pool_at, pool_from_index, POOL_COUNT};
use crate::balance::MAX_RAW_WEI;

verus! {

/// Default hashrate: 1.0 units, held in milli-units.
pub const DEFAULT_HASHRATE_MILLI: u64 = 1000;

/// One pool's configuration. The hashrate is in thousandths of the
/// configured unit; the starting balance is in wei.
#[derive(Debug)]
pub struct PoolConfig {
    pub enabled: bool,
    pub wallet: String,
    pub hashrate_milli: u64,
    pub starting_balance_wei: i128,
}

impl PoolConfig {
    /// A usable entry: the hashrate is positive (so the normalization
    /// divisor is never zero) and the starting balance is a plausible
    /// amount.
    pub open spec fn wf(&self) -> bool {
        &&& self.hashrate_milli >= 1
        &&& -MAX_RAW_WEI <= self.starting_balance_wei <= MAX_RAW_WEI
    }
}

impl Default for PoolConfig {
    /// A disabled entry with the documented defaults: hashrate 1.0,
    /// starting balance 0.
    fn default() -> (r: Self)
        ensures
            !r.enabled,
            r.wallet@ == Seq::<char>::empty(),
            r.hashrate_milli == DEFAULT_HASHRATE_MILLI,
            r.starting_balance_wei == 0,
            r.wf(),
    {
        PoolConfig {
            enabled: false,
            wallet: String::new(),
            hashrate_milli: DEFAULT_HASHRATE_MILLI,
            starting_balance_wei: 0,
        }
    }
}

/// Why a configuration was rejected.
#[derive(Clone, Copy, Debug, PartialEq, Eq, Structural)]
pub enum ConfigError {
    /// An enabled or disabled entry carries a hashrate of zero.
    ZeroHashrate,
    /// A starting balance lies outside the accepted amount range.
    StartingBalanceOutOfRange,
    /// The configuration does not hold exactly one entry per pool.
    WrongPoolCount,
}

impl ConfigError {
    pub fn message(&self) -> (r: &'static str)
        ensures
            r@ == self.spec_message(),
    {
        match self {
            ConfigError::ZeroHashrate => "hashrate must be positive",
            ConfigError::StartingBalanceOutOfRange => "starting balance is out of range",
            ConfigError::WrongPoolCount => "expected one entry per pool",
        }
    }

    pub open spec fn spec_message(&self) -> Seq<char> {
        match self {
            ConfigError::ZeroHashrate => "hashrate must be positive"@,
            ConfigError::StartingBalanceOutOfRange => "starting balance is out of range"@,
            ConfigError::WrongPoolCount => "expected one entry per pool"@,
        }
    }
}

/// The whole run's configuration: entry `i` belongs to the pool at
/// canonical position `i`.
#[derive(Debug)]
pub struct Config {
    pub pools: Vec<PoolConfig>,
}

impl Config {
    pub open spec fn wf(&self) -> bool {
        &&& self.pools@.len() == POOL_COUNT
        &&& forall|i: int| 0 <= i < self.pools@.len() ==> (#[trigger] self.pools@[i]).wf()
    }

    /// A configuration with every pool disabled and at its defaults.
    pub fn new() -> (r: Self)
        ensures
            r.wf(),
            forall|i: int| 0 <= i < POOL_COUNT ==> !(#[trigger] r.pools@[i]).enabled,
    {
        let mut pools: Vec<PoolConfig> = Vec::new();
        let mut i: usize = 0;
        while i < POOL_COUNT
            invariant
                i <= POOL_COUNT,
                pools@.len() == i,
                forall|j: int| 0 <= j < i ==> (#[trigger] pools@[j]).wf(),
                forall|j: int| 0 <= j < i ==> !(#[trigger] pools@[j]).enabled,
            decreases POOL_COUNT - i,
        {
            pools.push(PoolConfig::default());
            i += 1;
        }
        Config { pools }
    }

    /// Checks a loaded configuration before the pipeline may use it.
    /// Accepts exactly the well-formed configurations; in particular a
    /// zero hashrate anywhere is rejected here, so it can never reach
    /// the normalizer.
    pub fn validate(&self) -> (r: Result<(), ConfigError>)
        ensures
            r is Ok <==> self.wf(),
            r == Err::<(), ConfigError>(ConfigError::WrongPoolCount) <==> self.pools@.len() != POOL_COUNT,
            r == Err::<(), ConfigError>(ConfigError::ZeroHashrate)
                ==> exists|i: int| 0 <= i < self.pools@.len()
                    && (#[trigger] self.pools@[i]).hashrate_milli == 0,
            r == Err::<(), ConfigError>(ConfigError::StartingBalanceOutOfRange)
                ==> exists|i: int| 0 <= i < self.pools@.len()
                    && !(-MAX_RAW_WEI <= (#[trigger] self.pools@[i]).starting_balance_wei <= MAX_RAW_WEI),
    {
        if self.pools.len() != POOL_COUNT {
            return Err(ConfigError::WrongPoolCount);
        }
        let mut i: usize = 0;
        while i < POOL_COUNT
            invariant
                i <= POOL_COUNT,
                self.pools@.len() == POOL_COUNT,
                forall|j: int| 0 <= j < i ==> (#[trigger] self.pools@[j]).wf(),
            decreases POOL_COUNT - i,
        {
            let c = &self.pools[i];
            if c.hashrate_milli < 1 {
                assert(self.pools@[i as int].hashrate_milli == 0);
                return Err(ConfigError::ZeroHashrate);
            }
            if c.starting_balance_wei < -MAX_RAW_WEI || c.starting_balance_wei > MAX_RAW_WEI {
                assert(!(-MAX_RAW_WEI <= self.pools@[i as int].starting_balance_wei <= MAX_RAW_WEI));
                return Err(ConfigError::StartingBalanceOutOfRange);
            }
            i += 1;
        }
        Ok(())
    }

    /// The entry belonging to one pool.
    pub fn get_pool_config(&self, p: PoolId) -> (r: &PoolConfig)
        requires
            self.wf(),
        ensures
            r == self.pools@[pool_index(p)],
    {
        &self.pools[p.index()]
    }
}

/// The enabled pools among the first `n` canonical positions, in
/// canonical order.
pub open spec fn enabled_upto(cfg: &Config, n: nat) -> Seq<PoolId>
    decreases n,
{
    if n == 0 {
        Seq::empty()
    } else {
        let rest = enabled_upto(cfg, (n - 1) as nat);
        if cfg.pools@[n - 1].enabled {
            rest.push(pool_at(n - 1))
        } else {
            rest
        }
    }
}

/// The pools a run will query, in canonical order.
pub open spec fn spec_enabled_pools(cfg: &Config) -> Seq<PoolId> {
    enabled_upto(cfg, POOL_COUNT as nat)
}

proof fn lemma_enabled_upto_props(cfg: &Config, n: nat)
    requires
        n <= POOL_COUNT,
    ensures
        forall|t: int| 0 <= t < enabled_upto(cfg, n).len()
            ==> 0 <= pool_index(#[trigger] enabled_upto(cfg, n)[t]) < n,
        forall|t1: int, t2: int| 0 <= t1 < t2 < enabled_upto(cfg, n).len()
            ==> pool_index(#[trigger] enabled_upto(cfg, n)[t1]) < pool_index(#[trigger] enabled_upto(cfg, n)[t2]),
        forall|t: int| 0 <= t < enabled_upto(cfg, n).len()
            ==> cfg.pools[pool_index(#[trigger] enabled_upto(cfg, n)[t])].enabled,
        forall|q: PoolId| 0 <= #[trigger] pool_index(q) < n && cfg.pools[pool_index(q)].enabled
            ==> enabled_upto(cfg, n).contains(q),
    decreases n,
{
    if n > 0 {
        lemma_enabled_upto_props(cfg, (n - 1) as nat);
        let rest = enabled_upto(cfg, (n - 1) as nat);
        let whole = enabled_upto(cfg, n);
        assert(pool_index(pool_at(n - 1)) == n - 1);
        if cfg.pools[n - 1].enabled {
            assert(whole == rest.push(pool_at(n - 1)));
            assert forall|q: PoolId|
                0 <= #[trigger] pool_index(q) < n && cfg.pools[pool_index(q)].enabled
                implies whole.contains(q) by {
                crate::pools::lemma_pool_index_injective(q, q);
                if pool_index(q) == n - 1 {
                    assert(whole[whole.len() - 1] == pool_at(n - 1));
                    assert(pool_at(pool_index(q)) == q);
                } else {
                    assert(rest.contains(q));
                    let w = choose|w: int| 0 <= w < rest.len() && rest[w] == q;
                    assert(whole[w] == q);
                }
            }
        } else {
            assert forall|q: PoolId|
                0 <= #[trigger] pool_index(q) < n && cfg.pools[pool_index(q)].enabled
                implies whole.contains(q) by {
                if pool_index(q) == n - 1 {
                    crate::pools::lemma_pool_index_injective(q, q);
                    assert(pool_at(pool_index(q)) == q);
                    assert(cfg.pools[n - 1].enabled);
                } else {
                    assert(rest.contains(q));
                    let w = choose|w: int| 0 <= w < rest.len() && rest[w] == q;
                    assert(whole[w] == q);
                }
            }
        }
    }
}

/// The registry is a pure filter over the enabled flags: a pool is
/// listed exactly when its entry is enabled, and the listing keeps the
/// fixed canonical order, whatever order the configuration was built
/// in.
pub proof fn lemma_enabled_pools_characterization(cfg: &Config)
    ensures
        forall|q: PoolId| #[trigger] spec_enabled_pools(cfg).contains(q)
            <==> cfg.pools[pool_index(q)].enabled,
        forall|t1: int, t2: int| 0 <= t1 < t2 < spec_enabled_pools(cfg).len()
            ==> pool_index(#[trigger] spec_enabled_pools(cfg)[t1])
                < pool_index(#[trigger] spec_enabled_pools(cfg)[t2]),
{
    lemma_enabled_upto_props(cfg, POOL_COUNT as nat);
    assert forall|q: PoolId| #[trigger] spec_enabled_pools(cfg).contains(q)
        implies cfg.pools[pool_index(q)].enabled by {
        let w = choose|w: int| 0 <= w < spec_enabled_pools(cfg).len() && spec_enabled_pools(cfg)[w] == q;
    }
    assert forall|q: PoolId| cfg.pools[pool_index(q)].enabled
        implies #[trigger] spec_enabled_pools(cfg).contains(q) by {
        crate::pools::lemma_pool_index_injective(q, q);
    }
}

/// Lists the enabled pools in the fixed canonical order, independent of
/// how the configuration was produced.
pub fn enabled_pools(cfg: &Config) -> (r: Vec<PoolId>)
    requires
        cfg.wf(),
    ensures
        r@ == spec_enabled_pools(cfg),
{
    let mut out: Vec<PoolId> = Vec::new();
    let mut i: usize = 0;
    while i < POOL_COUNT
        invariant
            i <= POOL_COUNT,
            cfg.wf(),
            out@ == enabled_upto(cfg, i as nat),
        decreases POOL_COUNT - i,
    {
        if cfg.pools[i].enabled {
            out.push(pool_from_index(i));
        }
        i += 1;
    }
    out
}

/// Whether an interactive answer counts as a yes: it holds the letter
/// `y` in either case, anywhere.
pub fn answer_is_yes(s: &str) -> (r: bool)
    ensures
        r == exists|i: int| 0 <= i < s@.len() && (s@[i] == 'y' || s@[i] == 'Y'),
{
    let n = s.unicode_len();
    let mut i: usize = 0;
    while i < n
        invariant
            i <= n,
            n == s@.len(),
            forall|j: int| 0 <= j < i ==> !(s@[j] == 'y' || s@[j] == 'Y'),
        decreases n - i,
    {
        let c = s.get_char(i);
        if c == 'y' || c == 'Y' {
            return true;
        }
        i += 1;
    }
    false
}

} // verus!
