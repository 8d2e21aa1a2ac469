//! The pipeline from fetched balances to report lines.
//!
//! Each fetched balance is normalized against its own pool's
//! configuration alone, so one pool's failure cannot disturb another's
//! entry; the normalized yields are then ranked and rendered, one line
//! per pool: `<pool>: <value> ETH`, followed for every entry but the
//! top one by the percentage distance from the top, or by `n/a` when
//! the top value is not positive and the percentage is meaningless.

use vstd::prelude::*;
use crate::pools::{pool_index, pool_name};
use crate::config::Config;
use crate::balance::{RawBalance, NormalizedYield, spec_normalized, normalize, VALUE_MAX, YIELD_SCALE};
use crate::rank::{RankedEntry, rank, spec_rank};
use crate::display::{amount_text, percent_text, amount_to_text, percent_to_text};

verus! {

/// One report line: the pool, its normalized value in ETH, and, for
/// all but the top entry, the percentage distance from the top or a
/// placeholder where it is undefined.
pub open spec fn line_text(e: RankedEntry, is_top: bool) -> Seq<char> {
    let head = pool_name(e.pool) + ": "@ + amount_text(e.value as int) + " ETH"@;
    if is_top {
        head
    } else {
        match e.percent_of_top {
            Some(p) => head + " ("@ + percent_text(p as int) + "%)"@,
            None => head + " (n/a)"@,
        }
    }
}

/// Renders one ranked entry.
pub fn render_line(e: &RankedEntry, is_top: bool) -> (r: String)
    requires
        -VALUE_MAX <= e.value <= VALUE_MAX,
    ensures
        r@ == line_text(*e, is_top),
{
    let mut out = String::new();
    out.append(e.pool.name());
    out.append(": ");
    let amount = amount_to_text(e.value);
    out.append(amount.as_str());
    out.append(" ETH");
    if !is_top {
        match e.percent_of_top {
            Some(p) => {
                out.append(" (");
                let pct = percent_to_text(p);
                out.append(pct.as_str());
                out.append("%)");
            },
            None => {
                out.append(" (n/a)");
            },
        }
    }
    out
}

/// Renders the whole ranked list, one line per entry, the top entry
/// first and without a percentage.
pub fn render(ranked: &Vec<RankedEntry>) -> (r: Vec<String>)
    requires
        forall|i: int| 0 <= i < ranked@.len() ==> -VALUE_MAX <= (#[trigger] ranked@[i]).value <= VALUE_MAX,
    ensures
        r@.len() == ranked@.len(),
        forall|i: int| 0 <= i < r@.len() ==> (#[trigger] r@[i])@ == line_text(ranked@[i], i == 0),
{
    let mut out: Vec<String> = Vec::new();
    let mut i: usize = 0;
    while i < ranked.len()
        invariant
            i <= ranked@.len(),
            out@.len() == i,
            forall|j: int| 0 <= j < ranked@.len() ==> -VALUE_MAX <= (#[trigger] ranked@[j]).value <= VALUE_MAX,
            forall|j: int| 0 <= j < i ==> (#[trigger] out@[j])@ == line_text(ranked@[j], j == 0),
        decreases ranked@.len() - i,
    {
        let line = render_line(&ranked[i], i == 0);
        out.push(line);
        i += 1;
    }
    out
}

/// The yields that a collection of fetched balances normalizes to:
/// entry `i` depends on balance `i` and its own pool's configuration
/// alone.
pub open spec fn spec_yields(cfg: Config, raws: Seq<RawBalance>) -> Seq<NormalizedYield> {
    Seq::new(
        raws.len(),
        |i: int| NormalizedYield {
            pool: raws[i].pool,
            value: spec_normalized(
                raws[i].wei as int,
                cfg.pools[pool_index(raws[i].pool)].hashrate_milli as int,
                cfg.pools[pool_index(raws[i].pool)].starting_balance_wei as int,
            ) as i128,
        },
    )
}

/// Normalizes every fetched balance against its own pool's
/// configuration.
pub fn collect_yields(cfg: &Config, raws: &Vec<RawBalance>) -> (r: Vec<NormalizedYield>)
    requires
        cfg.wf(),
        forall|i: int| 0 <= i < raws@.len() ==> (#[trigger] raws@[i]).wf(),
    ensures
        r@ == spec_yields(*cfg, raws@),
        forall|i: int| 0 <= i < r@.len() ==> (#[trigger] r@[i]).wf(),
{
    let mut out: Vec<NormalizedYield> = Vec::new();
    let mut i: usize = 0;
    while i < raws.len()
        invariant
            i <= raws@.len(),
            cfg.wf(),
            forall|j: int| 0 <= j < raws@.len() ==> (#[trigger] raws@[j]).wf(),
            out@.len() == i,
            forall|j: int| 0 <= j < i ==> #[trigger] out@[j] == spec_yields(*cfg, raws@)[j],
            forall|j: int| 0 <= j < i ==> (#[trigger] out@[j]).wf(),
        decreases raws@.len() - i,
    {
        let raw = &raws[i];
        proof {
            crate::pools::lemma_pool_index_injective(raw.pool, raw.pool);
        }
        let pc = cfg.get_pool_config(raw.pool);
        let y = normalize(raw, pc);
        out.push(y);
        i += 1;
    }
    proof {
        assert(out@ =~= spec_yields(*cfg, raws@));
    }
    out
}

/// A fetch failure is isolated: replacing one pool's balance (a failed
/// fetch contributes zero wei) leaves every other pool's normalized
/// entry exactly as it was, and the failed pool's entry is the
/// negation of its configured starting balance.
pub proof fn lemma_fetch_isolation(cfg: Config, raws1: Seq<RawBalance>, raws2: Seq<RawBalance>, k: int)
    requires
        cfg.wf(),
        raws1.len() == raws2.len(),
        0 <= k < raws1.len(),
        forall|i: int| 0 <= i < raws1.len() && i != k ==> raws1[i] == raws2[i],
        raws2[k].wei == 0,
    ensures
        forall|i: int| 0 <= i < raws1.len() && i != k
            ==> spec_yields(cfg, raws1)[i] == spec_yields(cfg, raws2)[i],
        spec_yields(cfg, raws2)[k].value
            == -cfg.pools[pool_index(raws2[k].pool)].starting_balance_wei,
{
    let p = raws2[k].pool;
    crate::pools::lemma_pool_index_injective(p, p);
    let h = cfg.pools[pool_index(p)].hashrate_milli as int;
    assert(cfg.pools@[pool_index(p)].wf());
    assert(0 * YIELD_SCALE == 0);
    vstd::arithmetic::div_mod::lemma_div_of0(h);
    assert(spec_normalized(0, h, cfg.pools[pool_index(p)].starting_balance_wei as int)
        == -cfg.pools[pool_index(p)].starting_balance_wei);
}

/// Runs the whole pipeline on fetched balances: normalize each against
/// its own pool's configuration, rank, and render the report lines.
pub fn evaluate_amounts(cfg: &Config, raws: &Vec<RawBalance>) -> (r: Vec<String>)
    requires
        cfg.wf(),
        forall|i: int| 0 <= i < raws@.len() ==> (#[trigger] raws@[i]).wf(),
    ensures
        r@.len() == raws@.len(),
        forall|i: int| 0 <= i < r@.len()
            ==> (#[trigger] r@[i])@ == line_text(spec_rank(spec_yields(*cfg, raws@))[i], i == 0),
{
    let yields = collect_yields(cfg, raws);
    let ranked = rank(&yields);
    proof {
        crate::rank::lemma_rank_sorted(yields@);
    }
    let lines = render(&ranked);
    lines
}

} // verus!
