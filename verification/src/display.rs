//! Rendering fixed-point amounts and percentages as decimal text.
//!
//! An amount prints as its ETH value: the whole part, then, when wei
//! remain below one ETH, a dot and the fraction with trailing zeros
//! trimmed. A percentage in hundredths prints with exactly two decimal
//! places.

use vstd::prelude::*;
use crate::balance::{WEI_PER_ETH, VALUE_MAX};
use crate::decimal::pow10;

verus! {

pub open spec fn digit_char(d: int) -> char {
    if d == 0 {
        '0'
    } else if d == 1 {
        '1'
    } else if d == 2 {
        '2'
    } else if d == 3 {
        '3'
    } else if d == 4 {
        '4'
    } else if d == 5 {
        '5'
    } else if d == 6 {
        '6'
    } else if d == 7 {
        '7'
    } else if d == 8 {
        '8'
    } else {
        '9'
    }
}

/// The decimal digits of a nonnegative number, most significant first.
pub open spec fn dec_digits(n: int) -> Seq<char>
    decreases n,
{
    if n < 10 {
        seq![digit_char(n)]
    } else {
        dec_digits(n / 10).push(digit_char(n % 10))
    }
}

pub open spec fn zeros(k: int) -> Seq<char> {
    Seq::new(if k >= 0 { k as nat } else { 0 }, |i: int| '0')
}

/// `n` rendered right-aligned in `places` columns, zero-filled.
pub open spec fn padded(n: int, places: int) -> Seq<char> {
    zeros(places - dec_digits(n).len()) + dec_digits(n)
}

/// A fraction of `places` decimal places with its trailing zeros cut.
pub open spec fn trimmed(frac: int, places: int) -> Seq<char>
    decreases places,
{
    if places > 0 && frac % 10 == 0 {
        trimmed(frac / 10, places - 1)
    } else {
        padded(frac, places)
    }
}

/// A wei amount rendered as ETH.
pub open spec fn amount_text(v: int) -> Seq<char> {
    let mag = if v < 0 { -v } else { v };
    let whole = mag / (WEI_PER_ETH as int);
    let frac = mag % (WEI_PER_ETH as int);
    let sign: Seq<char> = if v < 0 { seq!['-'] } else { Seq::empty() };
    if frac == 0 {
        sign + dec_digits(whole)
    } else {
        sign + dec_digits(whole) + seq!['.'] + trimmed(frac, 18)
    }
}

/// A percentage held in hundredths, rendered with two decimal places.
pub open spec fn percent_text(p: int) -> Seq<char> {
    let mag = if p < 0 { -p } else { p };
    let sign: Seq<char> = if p < 0 { seq!['-'] } else { Seq::empty() };
    sign + dec_digits(mag / 100) + seq!['.'] + padded(mag % 100, 2)
}

fn digit_str(d: u128) -> (r: &'static str)
    requires
        d < 10,
    ensures
        r@ == seq![digit_char(d as int)],
{
    if d == 0 {
        proof { reveal_strlit("0"); }
        assert("0"@ =~= seq![digit_char(0)]);
        "0"
    } else if d == 1 {
        proof { reveal_strlit("1"); }
        assert("1"@ =~= seq![digit_char(1)]);
        "1"
    } else if d == 2 {
        proof { reveal_strlit("2"); }
        assert("2"@ =~= seq![digit_char(2)]);
        "2"
    } else if d == 3 {
        proof { reveal_strlit("3"); }
        assert("3"@ =~= seq![digit_char(3)]);
        "3"
    } else if d == 4 {
        proof { reveal_strlit("4"); }
        assert("4"@ =~= seq![digit_char(4)]);
        "4"
    } else if d == 5 {
        proof { reveal_strlit("5"); }
        assert("5"@ =~= seq![digit_char(5)]);
        "5"
    } else if d == 6 {
        proof { reveal_strlit("6"); }
        assert("6"@ =~= seq![digit_char(6)]);
        "6"
    } else if d == 7 {
        proof { reveal_strlit("7"); }
        assert("7"@ =~= seq![digit_char(7)]);
        "7"
    } else if d == 8 {
        proof { reveal_strlit("8"); }
        assert("8"@ =~= seq![digit_char(8)]);
        "8"
    } else {
        proof { reveal_strlit("9"); }
        assert("9"@ =~= seq![digit_char(9)]);
        "9"
    }
}

/// The decimal digits of `n`.
pub fn u128_digits(n: u128) -> (r: String)
    ensures
        r@ == dec_digits(n as int),
    decreases n,
{
    if n < 10 {
        let s = digit_str(n);
        let r = String::from_str(s);
        r
    } else {
        let mut r = u128_digits(n / 10);
        r.append(digit_str(n % 10));
        proof {
            assert(r@ =~= dec_digits(n as int / 10).push(digit_char(n as int % 10)));
        }
        r
    }
}

pub proof fn lemma_dec_digits_len(n: int, k: int)
    requires
        0 <= n < pow10(k as nat),
        k >= 1,
    ensures
        1 <= dec_digits(n).len() <= k,
    decreases k,
{
    if n < 10 {
    } else {
        crate::decimal::lemma_pow10_pos((k - 1) as nat);
        if k == 1 {
            assert(pow10(1) == 10 * pow10(0));
            assert(false);
        }
        assert(pow10(k as nat) == 10 * pow10((k - 1) as nat));
        assert(n / 10 < pow10((k - 1) as nat));
        lemma_dec_digits_len(n / 10, k - 1);
    }
}

proof fn lemma_pow10_18()
    ensures
        pow10(18) == WEI_PER_ETH,
{
    reveal_with_fuel(pow10, 20);
}

/// Renders a wei amount as ETH text: `2`, `1.5`, `-0.25`.
#[verifier::loop_isolation(false)]
#[verifier::rlimit(50)]
pub fn amount_to_text(v: i128) -> (r: String)
    requires
        -VALUE_MAX <= v <= VALUE_MAX,
    ensures
        r@ == amount_text(v as int),
{
    let neg: bool = v < 0;
    let mag: u128 = if neg { (-v) as u128 } else { v as u128 };
    let whole: u128 = mag / (WEI_PER_ETH as u128);
    let frac: u128 = mag % (WEI_PER_ETH as u128);
    let mut out = String::new();
    if neg {
        out.append("-");
        proof {
            reveal_strlit("-");
            assert("-"@ =~= seq!['-']);
        }
    }
    let whole_digits = u128_digits(whole);
    out.append(whole_digits.as_str());
    if frac == 0 {
        proof {
            assert(out@ =~= amount_text(v as int));
        }
        return out;
    }
    out.append(".");
    proof {
        reveal_strlit(".");
        assert("."@ =~= seq!['.']);
    }
    let mut f: u128 = frac;
    let mut places: u64 = 18;
    proof {
        lemma_pow10_18();
    }
    while f % 10 == 0 && places > 0
        invariant
            1 <= f,
            0 <= places <= 18,
            f < pow10(places as nat),
            trimmed(frac as int, 18) == trimmed(f as int, places as int),
        decreases places,
    {
        proof {
            assert(pow10(places as nat) == 10 * pow10((places - 1) as nat));
        }
        f = f / 10;
        places = places - 1;
    }
    proof {
        assert(trimmed(f as int, places as int) == padded(f as int, places as int));
        if places >= 1 {
            lemma_dec_digits_len(f as int, places as int);
        }
    }
    let frac_digits = u128_digits(f);
    let dl: usize = frac_digits.as_str().unicode_len();
    if places as usize > dl {
        let zcount: usize = places as usize - dl;
        let mut zi: usize = 0;
        while zi < zcount
            invariant
                zi <= zcount,
                out@ == (if v < 0 { seq!['-'] } else { Seq::<char>::empty() })
                    + dec_digits((if v < 0 { -v } else { v as int }) / (WEI_PER_ETH as int))
                    + seq!['.'] + zeros(zi as int),
            decreases zcount - zi,
        {
            out.append("0");
            proof {
                reveal_strlit("0");
                assert(zeros(zi as int).push('0') =~= zeros(zi as int + 1));
                assert("0"@ =~= seq!['0']);
                assert(zeros(zi as int) + "0"@ =~= zeros(zi as int + 1));
            }
            zi += 1;
        }
    }
    out.append(frac_digits.as_str());
    proof {
        if places as int - dl <= 0 {
            assert(zeros(places as int - dl) =~= Seq::<char>::empty());
        }
        assert(out@ =~= amount_text(v as int));
    }
    out
}

/// Renders a percentage held in hundredths with two decimal places:
/// `-72.22`, `0.00`, `150.00`.
#[verifier::loop_isolation(false)]
pub fn percent_to_text(p: i128) -> (r: String)
    ensures
        r@ == percent_text(p as int),
{
    let neg: bool = p < 0;
    let mag: u128 = if neg {
        if p == i128::MIN {
            // cannot negate; the magnitude is known directly
            170141183460469231731687303715884105728u128
        } else {
            (-p) as u128
        }
    } else {
        p as u128
    };
    let whole: u128 = mag / 100;
    let cents: u128 = mag % 100;
    let mut out = String::new();
    if neg {
        out.append("-");
        proof {
            reveal_strlit("-");
            assert("-"@ =~= seq!['-']);
        }
    }
    let whole_digits = u128_digits(whole);
    out.append(whole_digits.as_str());
    out.append(".");
    proof {
        reveal_strlit(".");
        assert("."@ =~= seq!['.']);
    }
    if cents < 10 {
        out.append("0");
        proof {
            reveal_strlit("0");
            assert("0"@ =~= seq!['0']);
            assert(zeros(1) =~= seq!['0']);
        }
    }
    let cent_digits = u128_digits(cents);
    out.append(cent_digits.as_str());
    proof {
        if cents >= 10 {
            assert(dec_digits(cents as int) == dec_digits(cents as int / 10).push(digit_char(cents as int % 10)));
            assert(cents as int / 10 < 10);
            assert(dec_digits(cents as int).len() == 2);
            assert(zeros(0) =~= Seq::<char>::empty());
        }
        assert(out@ =~= percent_text(p as int));
    }
    out
}

} // verus!
