//! Decimal rendering of unsigned integers, for generated configuration
//! text.

use vstd::prelude::*;

verus! {

/// The digit character for a value below ten.
pub open spec fn digit_char(d: nat) -> char {
    if d == 0 {
        '0'
    } else if d == 1 {
        '1'
    } else if d == 2 {
        '2'
    } else if d == 3 {
        '3'
    } else if d == 4 {
        '4'
    } else if d == 5 {
        '5'
    } else if d == 6 {
        '6'
    } else if d == 7 {
        '7'
    } else if d == 8 {
        '8'
    } else {
        '9'
    }
}

/// The decimal rendering of `n`, most significant digit first, without
/// leading zeros (a lone zero for zero itself).
pub open spec fn dec_rep(n: nat) -> Seq<char>
    decreases n,
{
    if n < 10 {
        seq![digit_char(n)]
    } else {
        dec_rep(n / 10).push(digit_char(n % 10))
    }
}

/// The characters of digit values that were collected least significant
/// first, read back most significant first.
pub open spec fn digits_seq(ds: Seq<u64>) -> Seq<char> {
    Seq::new(ds.len(), |i: int| digit_char(ds[ds.len() - 1 - i] as nat))
}

/// The one-character string for a digit value.
fn digit_str(d: u64) -> (r: &'static str)
    requires
        d < 10,
    ensures
        r@ =~= seq![digit_char(d as nat)],
{
    proof {
        reveal_strlit("0");
        reveal_strlit("1");
        reveal_strlit("2");
        reveal_strlit("3");
        reveal_strlit("4");
        reveal_strlit("5");
        reveal_strlit("6");
        reveal_strlit("7");
        reveal_strlit("8");
        reveal_strlit("9");
    }
    if d == 0 {
        "0"
    } else if d == 1 {
        "1"
    } else if d == 2 {
        "2"
    } else if d == 3 {
        "3"
    } else if d == 4 {
        "4"
    } else if d == 5 {
        "5"
    } else if d == 6 {
        "6"
    } else if d == 7 {
        "7"
    } else if d == 8 {
        "8"
    } else {
        "9"
    }
}

/// Render `n` in decimal.
pub fn u64_to_string(n: u64) -> (r: String)
    ensures
        r@ =~= dec_rep(n as nat),
{
    // collect the digit values, least significant first
    let mut digits: Vec<u64> = Vec::new();
    let mut m = n;
    loop
        invariant_except_break
            dec_rep(n as nat) =~= dec_rep(m as nat) + digits_seq(digits@),
        invariant
            forall|i: int| 0 <= i < digits@.len() ==> digits@[i] < 10,
        ensures
            dec_rep(n as nat) =~= digits_seq(digits@),
        decreases m,
    {
        let ghost pre = digits@;
        if m < 10 {
            digits.push(m);
            proof {
                assert(digits_seq(digits@) =~= seq![digit_char(m as nat)] + digits_seq(pre));
                assert(dec_rep(n as nat) =~= digits_seq(digits@));
            }
            break;
        }
        let d = m % 10;
        digits.push(d);
        proof {
            assert(digits_seq(digits@) =~= seq![digit_char(d as nat)] + digits_seq(pre));
            assert(dec_rep(m as nat) =~= dec_rep((m / 10) as nat).push(
                digit_char((m % 10) as nat),
            ));
            assert(dec_rep((m / 10) as nat) + digits_seq(digits@) =~= dec_rep(m as nat)
                + digits_seq(pre));
        }
        m = m / 10;
    }
    // append most significant first, from the back of the vector
    let mut r = String::new();
    let mut i = digits.len();
    while i > 0
        invariant
            i <= digits@.len(),
            forall|k: int| 0 <= k < digits@.len() ==> digits@[k] < 10,
            r@ =~= digits_seq(digits@).subrange(0, digits@.len() - i),
        decreases i,
    {
        i = i - 1;
        r.append(digit_str(digits[i]));
        proof {
            assert(digits_seq(digits@).subrange(0, digits@.len() - i) =~= digits_seq(
                digits@,
            ).subrange(0, digits@.len() - (i + 1)) + seq![digit_char(digits@[i as int] as nat)]);
        }
    }
    proof {
        assert(digits_seq(digits@).subrange(0, digits@.len() as int) =~= digits_seq(digits@));
    }
    r
}

} // verus!
