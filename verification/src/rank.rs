//! Deterministic ranking of normalized yields.
//!
//! Entries are ordered by value, largest first; equal values fall back
//! to the canonical pool order, so the ranking is a total order and the
//! output is the same whatever order the fetches completed in. Every
//! entry but the first carries its percentage distance from the top
//! entry, in hundredths of a percent, rounded to the nearest; when the
//! top value is not positive the percentage is meaningless and omitted
//! (the report shows a placeholder instead).

use vstd::prelude::*;
use vstd::relations::{total_ordering, sorted_by, reflexive, antisymmetric, transitive, strongly_connected};
use vstd::seq_lib::lemma_sorted_unique;
use vstd::arithmetic::div_mod::{lemma_fundamental_div_mod, lemma_mod_division_less_than_divisor};
use crate::balance::{NormalizedYield, VALUE_MAX};
use crate::pools::{PoolId, pool_index, lemma_pool_index_injective};

verus! {

/// One line of the final comparison.
#[derive(Clone, Copy, Debug)]
pub struct RankedEntry {
    pub pool: PoolId,
    pub value: i128,
    /// Percentage distance from the top entry, in hundredths of a
    /// percent; absent for the top entry itself and whenever the top
    /// value is not positive.
    pub percent_of_top: Option<i128>,
}

/// `a` ranks no later than `b`: larger value first, ties broken by the
/// canonical pool order.
pub open spec fn yield_before(a: NormalizedYield, b: NormalizedYield) -> bool {
    a.value > b.value || (a.value == b.value && pool_index(a.pool) <= pool_index(b.pool))
}

pub open spec fn yield_order() -> spec_fn(NormalizedYield, NormalizedYield) -> bool {
    |a: NormalizedYield, b: NormalizedYield| yield_before(a, b)
}

/// The ranking order is a total order, so sorting by it has exactly one
/// result for a given multiset of entries.
pub proof fn lemma_yield_order_total()
    ensures
        total_ordering(yield_order()),
{
    let leq = yield_order();
    assert(reflexive(leq)) by {
        assert forall|x: NormalizedYield| #[trigger] leq(x, x) by {}
    }
    assert(antisymmetric(leq)) by {
        assert forall|x: NormalizedYield, y: NormalizedYield|
            #[trigger] leq(x, y) && #[trigger] leq(y, x) implies x == y by {
            lemma_pool_index_injective(x.pool, y.pool);
        }
    }
    assert(transitive(leq)) by {
        assert forall|x: NormalizedYield, y: NormalizedYield, z: NormalizedYield|
            #[trigger] leq(x, y) && #[trigger] leq(y, z) implies leq(x, z) by {}
    }
    assert(strongly_connected(leq)) by {
        assert forall|x: NormalizedYield, y: NormalizedYield|
            #[trigger] leq(x, y) || #[trigger] leq(y, x) by {
            lemma_pool_index_injective(x.pool, y.pool);
        }
    }
}

/// Division rounded to the nearest integer, halves away from zero.
pub open spec fn rounded_div(num: int, den: int) -> int {
    if num >= 0 {
        (2 * num + den) / (2 * den)
    } else {
        -((2 * -num + den) / (2 * den))
    }
}

/// Percentage distance of `value` from `top`, in hundredths of a
/// percent: the rounded value of `value * 100 / top - 100` percent.
pub open spec fn spec_percent(value: int, top: int) -> int {
    rounded_div(value * 10000, top) - 10000
}

/// Rounding moves the quotient by at most half the divisor: the
/// distance between `rounded_div(num, den) * den` and `num` is at most
/// `den / 2`.
pub proof fn lemma_rounded_div_error(num: int, den: int)
    requires
        den >= 1,
    ensures
        -den <= 2 * (rounded_div(num, den) * den - num) <= den,
{
    if num >= 0 {
        let q = (2 * num + den) / (2 * den);
        let r = (2 * num + den) % (2 * den);
        lemma_fundamental_div_mod(2 * num + den, 2 * den);
        lemma_mod_division_less_than_divisor(2 * num + den, 2 * den);
        assert(2 * num + den == 2 * den * q + r);
        assert(2 * (q * den - num) == den - r) by (nonlinear_arith)
            requires
                2 * num + den == 2 * den * q + r,
        ;
    } else {
        let m = -num;
        let q = (2 * m + den) / (2 * den);
        let r = (2 * m + den) % (2 * den);
        lemma_fundamental_div_mod(2 * m + den, 2 * den);
        lemma_mod_division_less_than_divisor(2 * m + den, 2 * den);
        assert(2 * m + den == 2 * den * q + r);
        assert(2 * (-q * den - num) == r - den) by (nonlinear_arith)
            requires
                2 * m + den == 2 * den * q + r,
                m == -num,
        ;
    }
}

/// Undoing the percentage recovers the value up to rounding: scaling
/// the top value by `1 + percent/10000` lands within half of `top`
/// (in the fixed 1/10000 scale) of the value itself.
pub proof fn lemma_percent_round_trip(value: int, top: int)
    requires
        top >= 1,
    ensures
        -top <= 2 * ((spec_percent(value, top) + 10000) * top - value * 10000) <= top,
{
    lemma_rounded_div_error(value * 10000, top);
}

/// The percentage, computed exactly as `spec_percent` says.
pub fn percent_of_top(value: i128, top: i128) -> (r: i128)
    requires
        1 <= top <= VALUE_MAX,
        -VALUE_MAX <= value <= VALUE_MAX,
    ensures
        r == spec_percent(value as int, top as int),
{
    if value >= 0 {
        let num: u128 = (value as u128) * 10000;
        let q: u128 = (2 * num + top as u128) / (2 * (top as u128));
        (q as i128) - 10000
    } else {
        let num: u128 = ((-value) as u128) * 10000;
        let q: u128 = (2 * num + top as u128) / (2 * (top as u128));
        -(q as i128) - 10000
    }
}

/// The yields a ranked sequence carries, percentages dropped.
pub open spec fn yields_of(r: Seq<RankedEntry>) -> Seq<NormalizedYield> {
    r.map_values(|e: RankedEntry| NormalizedYield { pool: e.pool, value: e.value })
}

/// The one ranking of a collection of yields: sorted by the ranking
/// order, the percentage of every entry but a non-positive-topped or
/// first one filled in.
pub open spec fn spec_rank(input: Seq<NormalizedYield>) -> Seq<RankedEntry> {
    let sorted = input.sort_by(yield_order());
    Seq::new(
        sorted.len(),
        |i: int| RankedEntry {
            pool: sorted[i].pool,
            value: sorted[i].value,
            percent_of_top: if i == 0 || sorted[0].value <= 0 {
                None
            } else {
                Some(spec_percent(sorted[i].value as int, sorted[0].value as int) as i128)
            },
        },
    )
}

/// Ranking is a total order on yields: the output is sorted with
/// non-increasing values, keeps exactly the input's entries, and the
/// top entry carries no percentage.
pub proof fn lemma_rank_sorted(input: Seq<NormalizedYield>)
    ensures
        spec_rank(input).len() == input.len(),
        yields_of(spec_rank(input)).to_multiset() == input.to_multiset(),
        sorted_by(yields_of(spec_rank(input)), yield_order()),
        forall|i: int, j: int| 0 <= i < j < input.len()
            ==> #[trigger] spec_rank(input)[i].value >= #[trigger] spec_rank(input)[j].value,
        input.len() > 0 ==> spec_rank(input)[0].percent_of_top is None,
{
    lemma_yield_order_total();
    input.lemma_sort_by_ensures(yield_order());
    let sorted = input.sort_by(yield_order());
    vstd::seq_lib::to_multiset_len::<NormalizedYield>(input);
    vstd::seq_lib::to_multiset_len::<NormalizedYield>(sorted);
    assert(yields_of(spec_rank(input)) =~= sorted);
    assert forall|i: int, j: int| 0 <= i < j < input.len()
        implies #[trigger] spec_rank(input)[i].value >= #[trigger] spec_rank(input)[j].value by {
        assert(yield_order()(sorted[i], sorted[j]));
    }
}

/// Ranking does not depend on the order the yields were collected in:
/// two inputs holding the same entries rank identically.
pub proof fn lemma_rank_permutation_invariant(a: Seq<NormalizedYield>, b: Seq<NormalizedYield>)
    requires
        a.to_multiset() == b.to_multiset(),
    ensures
        spec_rank(a) == spec_rank(b),
{
    lemma_yield_order_total();
    a.lemma_sort_by_ensures(yield_order());
    b.lemma_sort_by_ensures(yield_order());
    lemma_sorted_unique(a.sort_by(yield_order()), b.sort_by(yield_order()), yield_order());
    assert(a.sort_by(yield_order()) == b.sort_by(yield_order()));
    assert(spec_rank(a) =~= spec_rank(b));
}

fn yield_le(a: &NormalizedYield, b: &NormalizedYield) -> (r: bool)
    ensures
        r == yield_before(*a, *b),
{
    a.value > b.value || (a.value == b.value && a.pool.index() <= b.pool.index())
}

/// Sorts yields descending, ties broken by the canonical pool order,
/// and fills in every entry's percentage distance from the top.
#[verifier::loop_isolation(false)]
#[verifier::rlimit(60)]
pub fn rank(input: &Vec<NormalizedYield>) -> (r: Vec<RankedEntry>)
    requires
        forall|i: int| 0 <= i < input@.len() ==> (#[trigger] input@[i]).wf(),
    ensures
        r@ == spec_rank(input@),
        forall|i: int| 0 <= i < r@.len() ==> -VALUE_MAX <= (#[trigger] r@[i]).value <= VALUE_MAX,
{
    broadcast use vstd::seq_lib::group_to_multiset_ensures;

    proof {
        lemma_yield_order_total();
    }
    let n: usize = input.len();

    // copy, then insertion sort
    let mut arr: Vec<NormalizedYield> = Vec::new();
    let mut c: usize = 0;
    while c < n
        invariant
            c <= n,
            arr@ =~= input@.take(c as int),
        decreases n - c,
    {
        arr.push(input[c]);
        proof {
            assert(arr@ =~= input@.take(c as int).push(input@[c as int]));
        }
        c += 1;
    }
    assert(arr@ =~= input@);

    let mut i: usize = 1;
    while i < n
        invariant
            1 <= i,
            n > 0 ==> i <= n,
            arr@.len() == n,
            arr@.to_multiset() == input@.to_multiset(),
            forall|a: int, b: int| 0 <= a < b < i && b < n ==> yield_before(#[trigger] arr@[a], #[trigger] arr@[b]),
        decreases n - i,
    {
        let mut j: usize = i;
        while j > 0 && !yield_le(&arr[j - 1], &arr[j])
            invariant
                0 <= j <= i < n,
                arr@.len() == n,
                arr@.to_multiset() == input@.to_multiset(),
                forall|a: int, b: int| 0 <= a < b <= i && b != j ==> yield_before(#[trigger] arr@[a], #[trigger] arr@[b]),
            decreases j,
        {
            let ghost before = arr@;
            let x = arr[j - 1];
            let y = arr[j];
            arr.set(j - 1, y);
            arr.set(j, x);
            proof {
                assert(arr@.to_multiset() =~= before.to_multiset());
                assert(yield_before(y, x));
            }
            j -= 1;
        }
        proof {
            assert forall|a: int, b: int| 0 <= a < b <= i implies yield_before(#[trigger] arr@[a], #[trigger] arr@[b]) by {
                if b == j {
                    if j > 0 {
                        assert(yield_before(arr@[j as int - 1], arr@[j as int]));
                        if a < j - 1 {
                            assert(yield_before(arr@[a], arr@[j as int - 1]));
                        }
                    }
                }
            }
        }
        i += 1;
    }
    proof {
        assert(sorted_by(arr@, yield_order()));
        input@.lemma_sort_by_ensures(yield_order());
        lemma_sorted_unique(arr@, input@.sort_by(yield_order()), yield_order());
        assert(arr@ == input@.sort_by(yield_order()));
        assert forall|k: int| 0 <= k < arr@.len() implies (#[trigger] arr@[k]).wf() by {
            let e = arr@[k];
            assert(arr@.contains(e));
            assert(input@.to_multiset().count(e) > 0);
            assert(input@.contains(e));
            let w = choose|w: int| 0 <= w < input@.len() && input@[w] == e;
            assert(input@[w].wf());
        }
    }

    // attach percentages against the top entry
    let mut out: Vec<RankedEntry> = Vec::new();
    let mut k: usize = 0;
    while k < n
        invariant
            k <= n,
            arr@.len() == n,
            arr@ == input@.sort_by(yield_order()),
            forall|t: int| 0 <= t < arr@.len() ==> (#[trigger] arr@[t]).wf(),
            out@.len() == k,
            forall|t: int| 0 <= t < k ==> #[trigger] out@[t] == spec_rank(input@)[t],
            forall|t: int| 0 <= t < k ==> -VALUE_MAX <= (#[trigger] out@[t]).value <= VALUE_MAX,
        decreases n - k,
    {
        let pct: Option<i128> = if k == 0 {
            None
        } else if arr[0].value <= 0 {
            None
        } else {
            Some(percent_of_top(arr[k].value, arr[0].value))
        };
        out.push(RankedEntry { pool: arr[k].pool, value: arr[k].value, percent_of_top: pct });
        k += 1;
    }
    proof {
        assert(out@ =~= spec_rank(input@));
    }
    out
}

} // verus!
