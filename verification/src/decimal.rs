//! Parsing a JSON number's text into a fixed-point wei amount.
//!
//! A pool reports its raw balance as one JSON number; its decimal text is
//! parsed here as `[-] digits [. digits] [e|E [+|-] digits]` and scaled by
//! the pool's power of ten into wei, truncating toward zero whatever lies
//! below one wei. Inputs with more than 38 mantissa digits or more than 3
//! exponent digits are rejected, as is any magnitude beyond
//! `MAX_RAW_WEI`; a rejected text counts as a failed fetch.

use vstd::prelude::*;
use vstd::arithmetic::div_mod::lemma_div_denominator;
use crate::balance::MAX_RAW_WEI;

verus! {

pub open spec fn is_digit(c: char) -> bool {
    48 <= c as int <= 57
}

pub open spec fn digit_val(c: char) -> int {
    c as int - 48
}

pub open spec fn all_digits(s: Seq<char>) -> bool {
    forall|i: int| 0 <= i < s.len() ==> is_digit(#[trigger] s[i])
}

/// The numeric value of a digit string, most significant digit first.
pub open spec fn digits_val(s: Seq<char>) -> int
    decreases s.len(),
{
    if s.len() == 0 {
        0
    } else {
        digits_val(s.drop_last()) * 10 + digit_val(s.last())
    }
}

pub open spec fn pow10(n: nat) -> int
    decreases n,
{
    if n == 0 {
        1
    } else {
        10 * pow10((n - 1) as nat)
    }
}

/// Index of the first occurrence of `c1` or `c2`, or the length if absent.
pub open spec fn first_at(s: Seq<char>, c1: char, c2: char) -> int
    decreases s.len(),
{
    if s.len() == 0 {
        0
    } else if s[0] == c1 || s[0] == c2 {
        0
    } else {
        1 + first_at(s.drop_first(), c1, c2)
    }
}

pub proof fn lemma_first_at_determined(s: Seq<char>, c1: char, c2: char, n: int)
    requires
        0 <= n <= s.len(),
        forall|j: int| 0 <= j < n ==> #[trigger] s[j] != c1 && s[j] != c2,
        n < s.len() ==> s[n] == c1 || s[n] == c2,
    ensures
        first_at(s, c1, c2) == n,
    decreases s.len(),
{
    if s.len() == 0 {
    } else if n == 0 {
    } else {
        assert(s[0] != c1 && s[0] != c2);
        let t = s.drop_first();
        assert forall|j: int| 0 <= j < n - 1 implies #[trigger] t[j] != c1 && t[j] != c2 by {
            assert(t[j] == s[j + 1]);
        }
        assert(n - 1 < t.len() ==> t[n - 1] == c1 || t[n - 1] == c2);
        lemma_first_at_determined(t, c1, c2, n - 1);
    }
}

pub proof fn lemma_digits_val_bounds(s: Seq<char>)
    requires
        all_digits(s),
    ensures
        0 <= digits_val(s) < pow10(s.len()),
    decreases s.len(),
{
    if s.len() == 0 {
    } else {
        let p = s.drop_last();
        assert(all_digits(p));
        lemma_digits_val_bounds(p);
        assert(is_digit(s.last()));
        assert(digits_val(s) <= (pow10(p.len()) - 1) * 10 + 9) by (nonlinear_arith)
            requires
                digits_val(s) == digits_val(p) * 10 + digit_val(s.last()),
                digits_val(p) <= pow10(p.len()) - 1,
                digit_val(s.last()) <= 9,
        ;
        assert(pow10(s.len()) == 10 * pow10(p.len()));
    }
}

pub proof fn lemma_digits_val_push(s: Seq<char>, c: char)
    ensures
        digits_val(s.push(c)) == digits_val(s) * 10 + digit_val(c),
{
    assert(s.push(c).drop_last() =~= s);
    assert(s.push(c).last() == c);
}

pub proof fn lemma_pow10_pos(n: nat)
    ensures
        pow10(n) >= 1,
    decreases n,
{
    if n > 0 {
        lemma_pow10_pos((n - 1) as nat);
    }
}

proof fn lemma_pow10_37()
    ensures
        pow10(37) == 10_000_000_000_000_000_000_000_000_000_000_000_000,
{
    reveal_with_fuel(pow10, 40);
}

/// A bare integer numeral's shape: no decimal point and no exponent
/// marker anywhere in the text.
pub open spec fn integer_text(s: Seq<char>) -> bool {
    forall|i: int| 0 <= i < s.len() ==> #[trigger] s[i] != '.' && s[i] != 'e' && s[i] != 'E'
}

/// Whether the text holds neither a decimal point nor an exponent
/// marker: the shape an integer-reporting API produces.
pub fn is_integer_text(t: &str) -> (r: bool)
    ensures
        r == integer_text(t@),
{
    let n: usize = t.unicode_len();
    let mut i: usize = 0;
    while i < n
        invariant
            i <= n,
            n == t@.len(),
            forall|j: int| 0 <= j < i ==> #[trigger] t@[j] != '.' && t@[j] != 'e' && t@[j] != 'E',
        decreases n - i,
    {
        let c = t.get_char(i);
        if c == '.' || c == 'e' || c == 'E' {
            return false;
        }
        i += 1;
    }
    true
}

/// The components of a numeral `[-] digits [. digits] [e|E [+|-] digits]`,
/// read off the text: sign, mantissa split at the dot, exponent part.
pub open spec fn sp_neg(s: Seq<char>) -> bool {
    s.len() > 0 && s[0] == '-'
}

pub open spec fn sp_body(s: Seq<char>) -> Seq<char> {
    if sp_neg(s) { s.skip(1) } else { s }
}

pub open spec fn sp_ei(s: Seq<char>) -> int {
    first_at(sp_body(s), 'e', 'E')
}

pub open spec fn sp_mant(s: Seq<char>) -> Seq<char> {
    sp_body(s).take(sp_ei(s))
}

pub open spec fn sp_di(s: Seq<char>) -> int {
    first_at(sp_mant(s), '.', '.')
}

/// Integer part: the digits before the dot.
pub open spec fn sp_ip(s: Seq<char>) -> Seq<char> {
    sp_mant(s).take(sp_di(s))
}

/// Fraction part: the digits after the dot, if a dot is present.
pub open spec fn sp_fp(s: Seq<char>) -> Seq<char> {
    if sp_di(s) < sp_mant(s).len() {
        sp_mant(s).skip(sp_di(s) + 1)
    } else {
        Seq::<char>::empty()
    }
}

/// All mantissa digits, the dot dropped.
pub open spec fn sp_digits(s: Seq<char>) -> Seq<char> {
    sp_ip(s) + sp_fp(s)
}

pub open spec fn sp_has_exp(s: Seq<char>) -> bool {
    sp_ei(s) < sp_body(s).len()
}

/// Everything after the exponent marker.
pub open spec fn sp_et(s: Seq<char>) -> Seq<char> {
    if sp_has_exp(s) {
        sp_body(s).skip(sp_ei(s) + 1)
    } else {
        Seq::<char>::empty()
    }
}

pub open spec fn sp_esigned(s: Seq<char>) -> bool {
    sp_et(s).len() > 0 && (sp_et(s)[0] == '+' || sp_et(s)[0] == '-')
}

pub open spec fn sp_eneg(s: Seq<char>) -> bool {
    sp_esigned(s) && sp_et(s)[0] == '-'
}

/// The exponent's digits.
pub open spec fn sp_ed(s: Seq<char>) -> Seq<char> {
    if sp_esigned(s) { sp_et(s).skip(1) } else { sp_et(s) }
}

/// A text this parser accepts: a decimal numeral with an optional
/// fraction and an optional exponent of at most 3 digits, at most 38
/// mantissa digits in all.
pub open spec fn sp_wf(s: Seq<char>) -> bool {
    &&& s.len() > 0
    &&& sp_ip(s).len() >= 1
    &&& all_digits(sp_ip(s))
    &&& sp_di(s) == sp_mant(s).len() || (sp_fp(s).len() >= 1 && all_digits(sp_fp(s)))
    &&& !sp_has_exp(s) || (1 <= sp_ed(s).len() <= 3 && all_digits(sp_ed(s)))
    &&& sp_digits(s).len() <= 38
}

pub open spec fn sp_exp(s: Seq<char>) -> int {
    if !sp_has_exp(s) {
        0
    } else if sp_eneg(s) {
        -digits_val(sp_ed(s))
    } else {
        digits_val(sp_ed(s))
    }
}

/// How many powers of ten the mantissa digits are scaled by.
pub open spec fn sp_shift(s: Seq<char>, pow: nat) -> int {
    pow + sp_exp(s) - sp_fp(s).len()
}

/// The numeral's magnitude in wei, truncated toward zero.
pub open spec fn sp_mag(s: Seq<char>, pow: nat) -> int {
    if sp_shift(s, pow) >= 0 {
        digits_val(sp_digits(s)) * pow10(sp_shift(s, pow) as nat)
    } else {
        digits_val(sp_digits(s)) / pow10((-sp_shift(s, pow)) as nat)
    }
}

/// What parsing yields: `None` when the text is not a well-formed
/// numeral or its magnitude exceeds `MAX_RAW_WEI`; otherwise the value
/// in wei, truncated toward zero.
pub open spec fn spec_parse_wei(s: Seq<char>, pow: nat) -> Option<int> {
    if sp_wf(s) && sp_mag(s, pow) <= MAX_RAW_WEI {
        Some(if sp_neg(s) { -sp_mag(s, pow) } else { sp_mag(s, pow) })
    } else {
        None
    }
}

/// Scans `text[from..to)`; returns the first position holding `c1` or
/// `c2`, or `to` if neither occurs.
fn scan_for(text: &str, from: usize, to: usize, c1: char, c2: char) -> (r: usize)
    requires
        from <= to <= text@.len(),
    ensures
        from <= r <= to,
        forall|j: int| from <= j < r ==> #[trigger] text@[j] != c1 && text@[j] != c2,
        r < to ==> text@[r as int] == c1 || text@[r as int] == c2,
{
    let mut i: usize = from;
    while i < to
        invariant
            from <= i <= to <= text@.len(),
            forall|j: int| from <= j < i ==> #[trigger] text@[j] != c1 && text@[j] != c2,
        decreases to - i,
    {
        let c = text.get_char(i);
        if c == c1 || c == c2 {
            return i;
        }
        i += 1;
    }
    i
}

/// Folds the digits of `text[from..to)` onto an accumulator that already
/// holds the value of the digit string `db`. Returns false as soon as a
/// non-digit is met. `too_many` records that more than 38 digits have
/// accumulated; the numeric accumulator is only maintained while it is
/// clear.
fn accumulate_digits(
    text: &str,
    from: usize,
    to: usize,
    m: &mut u128,
    count: &mut usize,
    too_many: &mut bool,
    Ghost(db): Ghost<Seq<char>>,
) -> (ok: bool)
    requires
        from <= to <= text@.len(),
        all_digits(db),
        !*old(too_many) ==> *old(m) == digits_val(db) && *old(count) == db.len() && db.len() <= 38,
        *old(too_many) ==> db.len() > 38,
    ensures
        ok == all_digits(text@.subrange(from as int, to as int)),
        ok ==> {
            let p = db + text@.subrange(from as int, to as int);
            &&& !*final(too_many) ==> *final(m) == digits_val(p) && *final(count) == p.len() && p.len() <= 38
            &&& *final(too_many) ==> p.len() > 38
        },
{
    let mut i: usize = from;
    proof {
        assert(db + text@.subrange(from as int, from as int) =~= db);
    }
    while i < to
        invariant
            from <= i <= to <= text@.len(),
            all_digits(db),
            all_digits(text@.subrange(from as int, i as int)),
            !*too_many ==> *m == digits_val(db + text@.subrange(from as int, i as int))
                && *count == (db + text@.subrange(from as int, i as int)).len()
                && (db + text@.subrange(from as int, i as int)).len() <= 38,
            *too_many ==> (db + text@.subrange(from as int, i as int)).len() > 38,
        decreases to - i,
    {
        let c = text.get_char(i);
        let u: u32 = c as u32;
        if u < 48 || u > 57 {
            proof {
                assert(text@.subrange(from as int, to as int)[i - from] == text@[i as int]);
                assert(!is_digit(text@[i as int]));
            }
            return false;
        }
        let ghost pre = db + text@.subrange(from as int, i as int);
        let ghost post = db + text@.subrange(from as int, i as int + 1);
        proof {
            assert(post =~= pre.push(text@[i as int]));
            lemma_digits_val_push(pre, text@[i as int]);
            assert(all_digits(post));
        }
        if *too_many {
            // nothing to maintain beyond the flag
        } else if *count >= 38 {
            *too_many = true;
        } else {
            proof {
                lemma_digits_val_bounds(pre);
                lemma_pow10_mono(pre.len(), 37);
                lemma_pow10_37();
            }
            let d: u128 = (u - 48) as u128;
            *m = *m * 10 + d;
            *count += 1;
        }
        i += 1;
    }
    proof {
        assert(text@.subrange(from as int, to as int) == text@.subrange(from as int, i as int));
    }
    true
}

pub proof fn lemma_pow10_mono(a: nat, b: nat)
    requires
        a <= b,
    ensures
        pow10(a) <= pow10(b),
    decreases b,
{
    if a < b {
        lemma_pow10_mono(a, (b - 1) as nat);
        lemma_pow10_pos((b - 1) as nat);
    }
}


/// Parses `text[from..to)` as an exponent's digits: one to three of
/// them, valued below 1000.
fn parse_exp_digits(text: &str, from: usize, to: usize) -> (r: Option<u32>)
    requires
        from <= to <= text@.len(),
    ensures
        r is Some <==> 1 <= to - from <= 3 && all_digits(text@.subrange(from as int, to as int)),
        r is Some ==> r->0 == digits_val(text@.subrange(from as int, to as int)) && r->0 < 1000,
{
    if to - from == 0 || to - from > 3 {
        return None;
    }
    let mut exp: u32 = 0;
    let mut j: usize = from;
    while j < to
        invariant
            from <= j <= to <= text@.len(),
            to - from <= 3,
            all_digits(text@.subrange(from as int, j as int)),
            exp == digits_val(text@.subrange(from as int, j as int)),
            exp < 1000,
        decreases to - j,
    {
        let c = text.get_char(j);
        let u: u32 = c as u32;
        if u < 48 || u > 57 {
            proof {
                assert(text@.subrange(from as int, to as int)[j - from] == text@[j as int]);
                assert(!is_digit(text@[j as int]));
            }
            return None;
        }
        let ghost pre = text@.subrange(from as int, j as int);
        proof {
            assert(text@.subrange(from as int, j as int + 1) =~= pre.push(text@[j as int]));
            lemma_digits_val_push(pre, text@[j as int]);
            lemma_digits_val_bounds(pre);
            lemma_pow10_mono(pre.len(), 2);
            reveal_with_fuel(pow10, 4);
        }
        exp = exp * 10 + (u - 48);
        j += 1;
    }
    proof {
        assert(text@.subrange(from as int, to as int) == text@.subrange(from as int, j as int));
    }
    Some(exp)
}

/// Multiplies or divides the mantissa by the scaling power of ten,
/// reporting `None` exactly when the result would exceed `MAX_RAW_WEI`.
#[verifier::loop_isolation(false)]
fn apply_shift(m0: u128, shift: i64) -> (r: Option<u128>)
    requires
        shift > i64::MIN,
    ensures
        ({
            let mag: int = if shift >= 0 {
                m0 * pow10(shift as nat)
            } else {
                m0 as int / pow10((-shift) as nat)
            };
            &&& r is Some <==> mag <= MAX_RAW_WEI
            &&& r is Some ==> r->0 == mag
        }),
{
    let mut m: u128 = m0;
    if shift >= 0 {
        let ghost target = m0 * pow10(shift as nat);
        let mut i: i64 = 0;
        while i < shift
            invariant
                0 <= i <= shift,
                m * pow10((shift - i) as nat) == target,
            decreases shift - i,
        {
            if m > MAX_RAW_WEI as u128 {
                proof {
                    lemma_pow10_pos((shift - i) as nat);
                    assert(target >= m) by (nonlinear_arith)
                        requires
                            target == m * pow10((shift - i) as nat),
                            pow10((shift - i) as nat) >= 1,
                            m >= 0,
                    ;
                }
                return None;
            }
            proof {
                let k = (shift - i) as nat;
                assert(pow10(k) == 10 * pow10((k - 1) as nat));
                assert((m * 10) * pow10((k - 1) as nat) == m * (10 * pow10((k - 1) as nat))) by (nonlinear_arith);
            }
            m = m * 10;
            i += 1;
        }
        assert(pow10(0) == 1);
        assert(m as int == target);
        if m > MAX_RAW_WEI as u128 {
            return None;
        }
        Some(m)
    } else {
        proof {
            vstd::arithmetic::div_mod::lemma_div_basics(m0 as int);
        }
        let mut j: i64 = 0;
        while j < -shift
            invariant
                0 <= j <= -shift,
                m == m0 as int / pow10(j as nat),
            decreases -shift - j,
        {
            proof {
                lemma_pow10_pos(j as nat);
                lemma_div_denominator(m0 as int, pow10(j as nat), 10);
                assert(pow10((j + 1) as nat) == 10 * pow10(j as nat));
            }
            m = m / 10;
            j += 1;
        }
        if m > MAX_RAW_WEI as u128 {
            return None;
        }
        Some(m)
    }
}

/// The pieces of a well-formed numeral, as exec values.
struct NumeralParts {
    neg: bool,
    m: u128,
    fraclen: usize,
    exp: u32,
    eneg: bool,
}

/// Scans the text and, when it is a well-formed numeral, hands back its
/// sign, mantissa value, fraction length and exponent.
#[verifier::rlimit(100)]
fn parse_components(text: &str) -> (r: Option<NumeralParts>)
    ensures
        r is Some <==> sp_wf(text@),
        r is Some ==> {
            let p = r->0;
            &&& p.neg == sp_neg(text@)
            &&& p.m == digits_val(sp_digits(text@))
            &&& p.fraclen == sp_fp(text@).len() && p.fraclen <= 38
            &&& p.exp == digits_val(sp_ed(text@))
            &&& p.eneg == sp_eneg(text@)
        },
{
    let ghost s = text@;
    let glen: usize = text.unicode_len();
    if glen == 0 {
        return None;
    }
    let neg: bool = text.get_char(0) == '-';
    let start: usize = if neg { 1 } else { 0 };
    assert(neg == sp_neg(s));
    assert(sp_body(s) =~= s.skip(start as int));

    // locate the exponent marker, then the dot inside the mantissa
    let ei_abs: usize = scan_for(text, start, glen, 'e', 'E');
    proof {
        let body = sp_body(s);
        assert forall|j: int| 0 <= j < ei_abs - start implies #[trigger] body[j] != 'e' && body[j] != 'E' by {
            assert(body[j] == s[start + j]);
        }
        assert(ei_abs - start < body.len() ==> body[ei_abs - start] == 'e' || body[ei_abs - start] == 'E');
        lemma_first_at_determined(body, 'e', 'E', ei_abs - start);
        assert(sp_ei(s) == ei_abs - start);
        assert(sp_mant(s) =~= s.subrange(start as int, ei_abs as int));
    }
    let di_abs: usize = scan_for(text, start, ei_abs, '.', '.');
    proof {
        let mant = sp_mant(s);
        assert forall|j: int| 0 <= j < di_abs - start implies #[trigger] mant[j] != '.' && mant[j] != '.' by {
            assert(mant[j] == s[start + j]);
        }
        assert(di_abs - start < mant.len() ==> mant[di_abs - start] == '.');
        lemma_first_at_determined(mant, '.', '.', di_abs - start);
        assert(sp_di(s) == di_abs - start);
        assert(sp_ip(s) =~= s.subrange(start as int, di_abs as int));
        if di_abs < ei_abs {
            assert(sp_fp(s) =~= s.subrange(di_abs as int + 1, ei_abs as int));
        } else {
            assert(sp_fp(s) =~= Seq::<char>::empty());
        }
        assert(sp_has_exp(s) == (ei_abs < glen));
        if ei_abs < glen {
            assert(sp_et(s) =~= s.subrange(ei_abs as int + 1, glen as int));
        }
    }

    // integer part: at least one digit
    if di_abs == start {
        assert(sp_ip(s).len() == 0);
        return None;
    }
    let mut m: u128 = 0;
    let mut count: usize = 0;
    let mut too_many: bool = false;
    proof {
        assert(Seq::<char>::empty() + s.subrange(start as int, di_abs as int) =~= sp_ip(s));
    }
    let ok_ip = accumulate_digits(
        text,
        start,
        di_abs,
        &mut m,
        &mut count,
        &mut too_many,
        Ghost(Seq::<char>::empty()),
    );
    if !ok_ip {
        assert(!all_digits(sp_ip(s)));
        return None;
    }

    // fractional part, if a dot is present
    let mut fraclen: usize = 0;
    if di_abs < ei_abs {
        if di_abs + 1 == ei_abs {
            assert(sp_fp(s).len() == 0);
            return None;
        }
        proof {
            assert(sp_ip(s) + s.subrange(di_abs as int + 1, ei_abs as int) =~= sp_digits(s));
        }
        let ok_fp = accumulate_digits(
            text,
            di_abs + 1,
            ei_abs,
            &mut m,
            &mut count,
            &mut too_many,
            Ghost(sp_ip(s)),
        );
        if !ok_fp {
            assert(!all_digits(sp_fp(s)));
            return None;
        }
        fraclen = ei_abs - (di_abs + 1);
        assert(fraclen == sp_fp(s).len());
    } else {
        assert(sp_digits(s) =~= sp_ip(s));
        assert(fraclen == sp_fp(s).len());
    }

    // exponent part, if a marker is present
    let mut exp: u32 = 0;
    let mut eneg: bool = false;
    if ei_abs < glen {
        let mut k: usize = ei_abs + 1;
        if k == glen {
            assert(sp_ed(s).len() == 0);
            return None;
        }
        let c0 = text.get_char(k);
        if c0 == '+' || c0 == '-' {
            eneg = c0 == '-';
            k += 1;
            assert(sp_esigned(s) && sp_ed(s) =~= s.subrange(k as int, glen as int));
        } else {
            assert(!sp_esigned(s) && sp_ed(s) =~= s.subrange(k as int, glen as int));
        }
        assert(eneg == sp_eneg(s));
        match parse_exp_digits(text, k, glen) {
            Some(e) => {
                exp = e;
                assert(exp == digits_val(sp_ed(s)));
            },
            None => {
                assert(!(1 <= sp_ed(s).len() <= 3 && all_digits(sp_ed(s))));
                return None;
            },
        }
    } else {
        proof {
            assert(sp_et(s) =~= Seq::<char>::empty());
            assert(!sp_esigned(s));
            assert(sp_ed(s) =~= Seq::<char>::empty());
        }
    }

    if too_many {
        assert(sp_digits(s).len() > 38);
        return None;
    }
    assert(sp_wf(s));
    assert(m == digits_val(sp_digits(s)));
    assert(fraclen <= 38);

    Some(NumeralParts { neg, m, fraclen, exp, eneg })
}

/// Parses a JSON number's text into wei, scaling the figure by
/// `10^scale_pow` (0 for a pool that reports wei, 9 for Gwei, 18 for
/// ETH). Returns exactly what `spec_parse_wei` describes.
pub fn parse_decimal_wei(text: &str, scale_pow: u32) -> (r: Option<i128>)
    requires
        scale_pow <= 18,
    ensures
        r is Some <==> spec_parse_wei(text@, scale_pow as nat) is Some,
        r is Some ==> spec_parse_wei(text@, scale_pow as nat) == Some(r->0 as int),
        r matches Some(w) ==> -MAX_RAW_WEI <= w <= MAX_RAW_WEI,
{
    let ghost s = text@;
    let parts: NumeralParts;
    match parse_components(text) {
        Some(p) => {
            parts = p;
        },
        None => {
            return None;
        },
    }
    let exp_signed: i64 = if parts.eneg { -(parts.exp as i64) } else { parts.exp as i64 };
    proof {
        if !sp_has_exp(s) {
            assert(sp_ed(s) =~= Seq::<char>::empty());
        }
        lemma_digits_val_bounds(sp_ed(s));
        lemma_pow10_mono(sp_ed(s).len(), 3);
        reveal_with_fuel(pow10, 5);
    }
    assert(exp_signed == sp_exp(s));
    let shift: i64 = scale_pow as i64 + exp_signed - parts.fraclen as i64;
    assert(shift == sp_shift(s, scale_pow as nat));

    let mag: u128;
    match apply_shift(parts.m, shift) {
        Some(v0) => {
            mag = v0;
            assert(mag == sp_mag(s, scale_pow as nat));
        },
        None => {
            assert(sp_mag(s, scale_pow as nat) > MAX_RAW_WEI);
            return None;
        },
    }
    let v: i128 = mag as i128;
    if parts.neg {
        Some(-v)
    } else {
        Some(v)
    }
}

} // verus!
