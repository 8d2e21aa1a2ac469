//! Extracting one pool's balance from its JSON response body.
//!
//! Each pool's API wraps the figure differently; this module knows the
//! one field per pool that matters (a key, or a key inside a key),
//! pulls its decimal text out of the body with serde_json, and hands
//! the text to the verified parser. What serde_json computes is a
//! function of the body and the keys alone; its result is named
//! `json_field_text`, and the contracts here are exact over that name.
//!
//! A pool whose API reports an integer figure (wei or Gwei) must send
//! a bare integer numeral: a fractional or exponent form counts as a
//! failed fetch, as it did under the integer response schema. Every
//! failure — unparseable body, missing field, non-numeric field,
//! wrong shape, out-of-range or negative figure — collapses into
//! `FetchError::Failed`, which the caller treats as a zero balance.

use vstd::prelude::*;
use crate::pools::{PoolId, pool_scale_pow, pool_unit_is_integral};
use crate::balance::RawBalance;
use crate::decimal::{parse_decimal_wei, spec_parse_wei, integer_text, is_integer_text};

verus! {

/// A pool's response could not be turned into a balance. The policy is
/// best-effort aggregation: the caller charges the pool a zero balance
/// and carries on.
#[derive(Clone, Copy, Debug, PartialEq, Eq, Structural)]
pub enum FetchError {
    Failed,
}

impl FetchError {
    pub fn message(&self) -> (r: &'static str)
        ensures
            r@ == "could not fetch or read the pool's balance"@,
    {
        "could not fetch or read the pool's balance"
    }
}

#[verifier::external_type_specification]
#[verifier::external_body]
pub struct ExJsonValue(serde_json::Value);

/// The decimal text of the number stored in a JSON document under
/// `key1` (and then under `key2`, when one is given): what parsing
/// the document, indexing into it and printing the number yields.
/// It is a function of the texts alone, so it has a name and no body;
/// `js_field_text` is the one place that computes it.
pub uninterp spec fn json_field_text(body: Seq<char>, key1: Seq<char>, key2: Option<Seq<char>>) -> Option<Seq<char>>;

pub open spec fn opt_text(o: Option<&str>) -> Option<Seq<char>> {
    match o {
        Some(k) => Some(k@),
        None => None,
    }
}

/// Relies on serde_json::from_str (fails on malformed input, never
/// panics), serde_json::Value::get (the object member under a key, or
/// nothing), and the Display of serde_json::Number (a JSON number
/// prints as a decimal numeral, never empty). All three are functions
/// of their arguments alone, so the composition is the named
/// `json_field_text`.
#[verifier::external_body]
fn js_field_text(body: &str, key1: &str, key2: Option<&str>) -> (r: Option<String>)
    ensures
        r is Some <==> json_field_text(body@, key1@, opt_text(key2)) is Some,
        r matches Some(t) ==> json_field_text(body@, key1@, opt_text(key2)) == Some(t@),
        r matches Some(t) ==> t@.len() >= 1,
{
    let v: serde_json::Value = match serde_json::from_str(body) {
        Ok(v) => v,
        Err(_) => return None,
    };
    let outer = v.get(key1)?;
    let field = match key2 {
        Some(k) => outer.get(k)?,
        None => outer,
    };
    match field {
        serde_json::Value::Number(n) => Some(n.to_string()),
        _ => None,
    }
}

/// The key (or key-inside-key) under which a pool's response carries
/// the balance.
pub open spec fn pool_key1(p: PoolId) -> Seq<char> {
    match p {
        PoolId::Flexpool => "result"@,
        PoolId::Ethermine => "data"@,
        PoolId::TwoMiners => "stats"@,
        PoolId::F2Pool => "balance"@,
        PoolId::Hiveon => "totalUnpaid"@,
        PoolId::Nanopool => "data"@,
        PoolId::SparkPool => "data"@,
    }
}

pub open spec fn pool_key2(p: PoolId) -> Option<Seq<char>> {
    match p {
        PoolId::Flexpool => None,
        PoolId::Ethermine => Some("unpaid"@),
        PoolId::TwoMiners => Some("balance"@),
        PoolId::F2Pool => None,
        PoolId::Hiveon => None,
        PoolId::Nanopool => None,
        PoolId::SparkPool => Some("balance"@),
    }
}

fn pool_path(p: PoolId) -> (r: (&'static str, Option<&'static str>))
    ensures
        r.0@ == pool_key1(p),
        opt_text(r.1) == pool_key2(p),
{
    match p {
        PoolId::Flexpool => ("result", None),
        PoolId::Ethermine => ("data", Some("unpaid")),
        PoolId::TwoMiners => ("stats", Some("balance")),
        PoolId::F2Pool => ("balance", None),
        PoolId::Hiveon => ("totalUnpaid", None),
        PoolId::Nanopool => ("data", None),
        PoolId::SparkPool => ("data", Some("balance")),
    }
}

/// The balance text a pool's response body carries, under that pool's
/// field path.
pub open spec fn spec_balance_text(pool: PoolId, body: Seq<char>) -> Option<Seq<char>> {
    json_field_text(body, pool_key1(pool), pool_key2(pool))
}

/// What one pool's response body is worth, in wei: the balance
/// field's text, shaped as the pool's unit demands (integer pools
/// take a bare integer numeral), scaled by the pool's power of ten
/// and nonnegative — or nothing, when any of that fails.
pub open spec fn spec_balance_wei(pool: PoolId, body: Seq<char>) -> Option<int> {
    match spec_balance_text(pool, body) {
        Some(t) => {
            if pool_unit_is_integral(pool) && !integer_text(t) {
                None
            } else {
                match spec_parse_wei(t, pool_scale_pow(pool) as nat) {
                    Some(w) => if w >= 0 {
                        Some(w)
                    } else {
                        None
                    },
                    None => None,
                }
            }
        },
        None => None,
    }
}

/// Reads one pool's response body: parses the JSON, takes the pool's
/// balance field, and scales its decimal text into wei. Succeeds
/// exactly when `spec_balance_wei` has a value, and returns exactly
/// that value.
pub fn parse_balance(pool: PoolId, body: &str) -> (r: Result<RawBalance, FetchError>)
    ensures
        r is Ok <==> spec_balance_wei(pool, body@) is Some,
        r matches Ok(b) ==> b.pool == pool && b.wf()
            && spec_balance_wei(pool, body@) == Some(b.wei as int),
        r matches Err(e) ==> e == FetchError::Failed,
{
    let (key1, key2) = pool_path(pool);
    let text = match js_field_text(body, key1, key2) {
        Some(t) => t,
        None => {
            return Err(FetchError::Failed);
        },
    };
    if pool.unit_is_integral() && !is_integer_text(text.as_str()) {
        return Err(FetchError::Failed);
    }
    match parse_decimal_wei(text.as_str(), pool.scale_pow()) {
        Some(wei) => {
            if wei >= 0 {
                Ok(RawBalance { pool, wei })
            } else {
                Err(FetchError::Failed)
            }
        },
        None => Err(FetchError::Failed),
    }
}

/// What the pipeline charges a pool whose body may be missing or
/// unreadable: the parsed figure when there is one, zero otherwise.
pub open spec fn spec_fetched_wei(pool: PoolId, body: Option<Seq<char>>) -> int {
    match body {
        Some(b) => match spec_balance_wei(pool, b) {
            Some(w) => w,
            None => 0,
        },
        None => 0,
    }
}

/// The best-effort balance for one pool: a missing body (the transport
/// failed) or an unreadable one counts as zero, so one unreachable
/// pool never prevents reporting on the others; a readable body
/// yields exactly its parsed, scaled figure.
pub fn balance_or_zero(pool: PoolId, body: &Option<String>) -> (r: RawBalance)
    ensures
        r.pool == pool && r.wf(),
        r.wei == spec_fetched_wei(pool, match body {
            Some(b) => Some(b@),
            None => None,
        }),
{
    match body {
        Some(b) => match parse_balance(pool, b.as_str()) {
            Ok(raw) => raw,
            Err(_) => RawBalance { pool, wei: 0 },
        },
        None => RawBalance { pool, wei: 0 },
    }
}

} // verus!
