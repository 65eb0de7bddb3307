//! Decimal rendering of amounts, verified against a spec-level decimal
//! representation. Error messages and response attributes show amounts
//! through this module.

use vstd::prelude::*;
use vstd::string::StringExecFns;

verus! {

/// The decimal digit character for a value below ten.
pub open spec fn digit_char(d: int) -> char {
    if d == 0 {
        '0'
    } else if d == 1 {
        '1'
    } else if d == 2 {
        '2'
    } else if d == 3 {
        '3'
    } else if d == 4 {
        '4'
    } else if d == 5 {
        '5'
    } else if d == 6 {
        '6'
    } else if d == 7 {
        '7'
    } else if d == 8 {
        '8'
    } else {
        '9'
    }
}

/// The decimal representation of a non-negative integer, most significant
/// digit first, with no leading zeroes (zero itself is "0").
pub open spec fn dec_rep(n: int) -> Seq<char>
    decreases n,
{
    if n < 0 {
        Seq::empty()
    } else if n < 10 {
        seq![digit_char(n)]
    } else {
        dec_rep(n / 10).push(digit_char(n % 10))
    }
}

/// The single-character string for a digit value.
fn digit_str(d: u128) -> (s: &'static str)
    requires
        d < 10,
    ensures
        s@ == seq![digit_char(d as int)],
{
    proof {
        reveal_strlit("0");
        reveal_strlit("1");
        reveal_strlit("2");
        reveal_strlit("3");
        reveal_strlit("4");
        reveal_strlit("5");
        reveal_strlit("6");
        reveal_strlit("7");
        reveal_strlit("8");
        reveal_strlit("9");
    }
    let s: &'static str = if d == 0 {
        "0"
    } else if d == 1 {
        "1"
    } else if d == 2 {
        "2"
    } else if d == 3 {
        "3"
    } else if d == 4 {
        "4"
    } else if d == 5 {
        "5"
    } else if d == 6 {
        "6"
    } else if d == 7 {
        "7"
    } else if d == 8 {
        "8"
    } else {
        "9"
    };
    proof {
        assert(s@ =~= seq![digit_char(d as int)]);
    }
    s
}

/// The digits of `ds`, least significant first, read back in display order.
spec fn digits_rev(ds: Seq<u128>) -> Seq<char> {
    Seq::new(ds.len(), |i: int| digit_char(ds[ds.len() - 1 - i] as int))
}

/// Renders `n` in decimal.
pub fn u128_to_string(n: u128) -> (s: String)
    ensures
        s@ == dec_rep(n as int),
{
    let mut digits: Vec<u128> = Vec::new();
    let mut m: u128 = n;
    loop
        invariant_except_break
            digits@.len() == 0 ==> m == n,
            digits@.len() > 0 ==> m > 0 && dec_rep(n as int) =~= dec_rep(m as int) + digits_rev(
                digits@,
            ),
        invariant
            forall|i: int| 0 <= i < digits@.len() ==> digits@[i] < 10,
        ensures
            digits@.len() > 0,
            forall|i: int| 0 <= i < digits@.len() ==> digits@[i] < 10,
            dec_rep(n as int) =~= digits_rev(digits@),
        decreases m,
    {
        let d: u128 = m % 10;
        let next: u128 = m / 10;
        proof {
            let ds = digits@;
            let ds2 = ds.push(d);
            assert(digits_rev(ds2) =~= seq![digit_char(d as int)] + digits_rev(ds));
            if ds.len() == 0 {
                if next == 0 {
                    assert(dec_rep(n as int) =~= digits_rev(ds2));
                } else {
                    assert(dec_rep(n as int) == dec_rep(next as int).push(digit_char(d as int)));
                    assert(dec_rep(n as int) =~= dec_rep(next as int) + digits_rev(ds2));
                }
            } else {
                if next == 0 {
                    assert(dec_rep(m as int) =~= seq![digit_char(d as int)]);
                    assert(dec_rep(n as int) =~= digits_rev(ds2));
                } else {
                    assert(dec_rep(m as int) == dec_rep(next as int).push(digit_char(d as int)));
                    assert(dec_rep(m as int) =~= dec_rep(next as int) + seq![digit_char(d as int)]);
                    assert(dec_rep(n as int) =~= dec_rep(next as int) + digits_rev(ds2));
                }
            }
        }
        digits.push(d);
        m = next;
        if m == 0 {
            break;
        }
    }
    let ghost target = digits_rev(digits@);
    let mut s = String::new();
    let mut j: usize = 0;
    while j < digits.len()
        invariant
            j <= digits@.len(),
            target == digits_rev(digits@),
            forall|i: int| 0 <= i < digits@.len() ==> digits@[i] < 10,
            s@ =~= target.take(j as int),
        decreases digits@.len() - j,
    {
        let k = digits.len() - 1 - j;
        let piece = digit_str(digits[k]);
        s.append(piece);
        j = j + 1;
        proof {
            assert(s@ =~= target.take(j as int));
        }
    }
    proof {
        assert(s@ =~= dec_rep(n as int));
    }
    s
}

} // verus!
