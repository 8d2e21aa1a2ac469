//! The fixed set of supported pools and their per-pool facts: canonical
//! ordering, display names, configuration keys, the power of ten that
//! turns a raw reported figure into wei, the JSON field holding the
//! balance, and the endpoint URL shape.

use vstd::prelude::*;

verus! {

/// Number of supported pools.
pub const POOL_COUNT: usize = 7;

/// Identifies one mining pool.
#[derive(Clone, Copy, Debug, PartialEq, Eq, Structural)]
pub enum PoolId {
    Flexpool,
    Ethermine,
    TwoMiners,
    F2Pool,
    Hiveon,
    Nanopool,
    SparkPool,
}

/// Canonical position of a pool: the order configuration entries are kept
/// in and the order used to break ranking ties.
pub open spec fn pool_index(p: PoolId) -> int {
    match p {
        PoolId::Flexpool => 0,
        PoolId::Ethermine => 1,
        PoolId::TwoMiners => 2,
        PoolId::F2Pool => 3,
        PoolId::Hiveon => 4,
        PoolId::Nanopool => 5,
        PoolId::SparkPool => 6,
    }
}

/// The pool standing at a canonical position.
pub open spec fn pool_at(i: int) -> PoolId {
    if i == 0 {
        PoolId::Flexpool
    } else if i == 1 {
        PoolId::Ethermine
    } else if i == 2 {
        PoolId::TwoMiners
    } else if i == 3 {
        PoolId::F2Pool
    } else if i == 4 {
        PoolId::Hiveon
    } else if i == 5 {
        PoolId::Nanopool
    } else {
        PoolId::SparkPool
    }
}

pub proof fn lemma_pool_index_injective(p: PoolId, q: PoolId)
    ensures
        pool_index(p) == pool_index(q) ==> p == q,
        0 <= pool_index(p) < POOL_COUNT,
        pool_at(pool_index(p)) == p,
{
}

impl PoolId {
    /// Canonical position, as an index into the configuration.
    pub fn index(&self) -> (r: usize)
        ensures
            r == pool_index(*self),
    {
        match self {
            PoolId::Flexpool => 0,
            PoolId::Ethermine => 1,
            PoolId::TwoMiners => 2,
            PoolId::F2Pool => 3,
            PoolId::Hiveon => 4,
            PoolId::Nanopool => 5,
            PoolId::SparkPool => 6,
        }
    }

    /// Human-readable name, used in the report.
    pub fn name(&self) -> (r: &'static str)
        ensures
            r@ == pool_name(*self),
    {
        match self {
            PoolId::Flexpool => "Flexpool",
            PoolId::Ethermine => "Ethermine",
            PoolId::TwoMiners => "2miners",
            PoolId::F2Pool => "F2Pool",
            PoolId::Hiveon => "Hiveon",
            PoolId::Nanopool => "Nanopool",
            PoolId::SparkPool => "SparkPool",
        }
    }

    /// Stable configuration key.
    pub fn key(&self) -> (r: &'static str)
        ensures
            r@ == pool_key(*self),
    {
        match self {
            PoolId::Flexpool => "flexpool",
            PoolId::Ethermine => "ethermine",
            PoolId::TwoMiners => "2miners",
            PoolId::F2Pool => "f2pool",
            PoolId::Hiveon => "hiveon",
            PoolId::Nanopool => "nanopool",
            PoolId::SparkPool => "sparkpool",
        }
    }

    /// Whether this pool reports an integer figure (wei or Gwei).
    pub fn unit_is_integral(&self) -> (r: bool)
        ensures
            r == pool_unit_is_integral(*self),
    {
        match self {
            PoolId::Flexpool => true,
            PoolId::Ethermine => true,
            PoolId::TwoMiners => true,
            PoolId::F2Pool => false,
            PoolId::Hiveon => false,
            PoolId::Nanopool => false,
            PoolId::SparkPool => false,
        }
    }

    /// The power of ten that converts the pool's raw reported figure into
    /// wei: the raw unit is 10^r wei. Flexpool and Ethermine already report
    /// wei, 2Miners reports Gwei, the rest report ETH.
    pub fn scale_pow(&self) -> (r: u32)
        ensures
            r == pool_scale_pow(*self),
    {
        match self {
            PoolId::Flexpool => 0,
            PoolId::Ethermine => 0,
            PoolId::TwoMiners => 9,
            PoolId::F2Pool => 18,
            PoolId::Hiveon => 18,
            PoolId::Nanopool => 18,
            PoolId::SparkPool => 18,
        }
    }
}

/// Whether the pool's API reports the raw figure as an integer (wei
/// or Gwei). Such a pool's balance text must be a bare integer
/// numeral; a fractional or exponent form counts as a failed fetch,
/// as it did under the integer response schema.
pub open spec fn pool_unit_is_integral(p: PoolId) -> bool {
    match p {
        PoolId::Flexpool => true,
        PoolId::Ethermine => true,
        PoolId::TwoMiners => true,
        PoolId::F2Pool => false,
        PoolId::Hiveon => false,
        PoolId::Nanopool => false,
        PoolId::SparkPool => false,
    }
}

/// The power of ten that converts the pool's raw unit into wei.
pub open spec fn pool_scale_pow(p: PoolId) -> int {
    match p {
        PoolId::Flexpool => 0,
        PoolId::Ethermine => 0,
        PoolId::TwoMiners => 9,
        PoolId::F2Pool => 18,
        PoolId::Hiveon => 18,
        PoolId::Nanopool => 18,
        PoolId::SparkPool => 18,
    }
}

pub open spec fn pool_name(p: PoolId) -> Seq<char> {
    match p {
        PoolId::Flexpool => "Flexpool"@,
        PoolId::Ethermine => "Ethermine"@,
        PoolId::TwoMiners => "2miners"@,
        PoolId::F2Pool => "F2Pool"@,
        PoolId::Hiveon => "Hiveon"@,
        PoolId::Nanopool => "Nanopool"@,
        PoolId::SparkPool => "SparkPool"@,
    }
}

pub open spec fn pool_key(p: PoolId) -> Seq<char> {
    match p {
        PoolId::Flexpool => "flexpool"@,
        PoolId::Ethermine => "ethermine"@,
        PoolId::TwoMiners => "2miners"@,
        PoolId::F2Pool => "f2pool"@,
        PoolId::Hiveon => "hiveon"@,
        PoolId::Nanopool => "nanopool"@,
        PoolId::SparkPool => "sparkpool"@,
    }
}

/// The pool at a canonical position.
pub fn pool_from_index(i: usize) -> (r: PoolId)
    requires
        i < POOL_COUNT,
    ensures
        r == pool_at(i as int),
{
    if i == 0 {
        PoolId::Flexpool
    } else if i == 1 {
        PoolId::Ethermine
    } else if i == 2 {
        PoolId::TwoMiners
    } else if i == 3 {
        PoolId::F2Pool
    } else if i == 4 {
        PoolId::Hiveon
    } else if i == 5 {
        PoolId::Nanopool
    } else {
        PoolId::SparkPool
    }
}

/// The part of the wallet address interpolated into the pool's URL.
/// Hiveon's endpoint takes the address without its two-character chain
/// prefix; every other pool takes it as given.
pub open spec fn url_wallet(p: PoolId, wallet: Seq<char>) -> Seq<char> {
    if p == PoolId::Hiveon {
        if wallet.len() >= 2 {
            wallet.skip(2)
        } else {
            Seq::empty()
        }
    } else {
        wallet
    }
}

/// The endpoint queried for one pool and wallet.
pub open spec fn pool_url_spec(p: PoolId, wallet: Seq<char>) -> Seq<char> {
    url_prefix(p) + url_wallet(p, wallet) + url_suffix(p)
}

pub open spec fn url_prefix(p: PoolId) -> Seq<char> {
    match p {
        PoolId::Flexpool => "https://flexpool.io/api/v1/miner/"@,
        PoolId::Ethermine => "https://api.ethermine.org/miner/"@,
        PoolId::TwoMiners => "https://eth.2miners.com/api/accounts/"@,
        PoolId::F2Pool => "https://api.f2pool.com/eth/"@,
        PoolId::Hiveon => "https://hiveon.net/api/v1/stats/miner/"@,
        PoolId::Nanopool => "https://api.nanopool.org/v1/eth/balance/"@,
        PoolId::SparkPool => "https://www.sparkpool.com/v1/bill/stats?miner="@,
    }
}

pub open spec fn url_suffix(p: PoolId) -> Seq<char> {
    match p {
        PoolId::Flexpool => "/balance/"@,
        PoolId::Ethermine => "/currentStats"@,
        PoolId::TwoMiners => ""@,
        PoolId::F2Pool => ""@,
        PoolId::Hiveon => "/ETH/billing-acc"@,
        PoolId::Nanopool => ""@,
        PoolId::SparkPool => "&currency=ETH"@,
    }
}

fn url_prefix_str(p: PoolId) -> (r: &'static str)
    ensures
        r@ == url_prefix(p),
{
    match p {
        PoolId::Flexpool => "https://flexpool.io/api/v1/miner/",
        PoolId::Ethermine => "https://api.ethermine.org/miner/",
        PoolId::TwoMiners => "https://eth.2miners.com/api/accounts/",
        PoolId::F2Pool => "https://api.f2pool.com/eth/",
        PoolId::Hiveon => "https://hiveon.net/api/v1/stats/miner/",
        PoolId::Nanopool => "https://api.nanopool.org/v1/eth/balance/",
        PoolId::SparkPool => "https://www.sparkpool.com/v1/bill/stats?miner=",
    }
}

fn url_suffix_str(p: PoolId) -> (r: &'static str)
    ensures
        r@ == url_suffix(p),
{
    match p {
        PoolId::Flexpool => "/balance/",
        PoolId::Ethermine => "/currentStats",
        PoolId::TwoMiners => "",
        PoolId::F2Pool => "",
        PoolId::Hiveon => "/ETH/billing-acc",
        PoolId::Nanopool => "",
        PoolId::SparkPool => "&currency=ETH",
    }
}

/// Builds the URL to query for one pool and wallet address.
pub fn pool_url(p: PoolId, wallet: &str) -> (r: String)
    ensures
        r@ == pool_url_spec(p, wallet@),
{
    let mut url = String::new();
    url.append(url_prefix_str(p));
    if matches!(p, PoolId::Hiveon) {
        let n = wallet.unicode_len();
        let from: usize = if n < 2 {
            n
        } else {
            2
        };
        let tail = wallet.substring_char(from, n);
        assert(tail@ =~= url_wallet(p, wallet@));
        url.append(tail);
    } else {
        url.append(wallet);
    }
    url.append(url_suffix_str(p));
    url
}

} // verus!
