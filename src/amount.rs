//! Money amounts, held exactly as a whole number of hundredths (cents).

use vstd::prelude::*;
use vstd::string::*;

use crate::text::{
    all_digits, digits_in, digits_value, find_char, find_from, lemma_digits_value_nonneg,
    lemma_find_from, lemma_short_digits, nat_text, push_nat, push_zero_padded, zero_pad,
};

verus! {

/// How a text is read as an amount in hundredths: an optional sign, the
/// whole units in digits, then optionally a `.` and at most two digits of
/// hundredths (`12`, `-3.5`, `.75`, `4.`); at least one digit in all, and
/// the magnitude must fit in `i64`.
pub open spec fn amount_reading(s: Seq<char>) -> Option<int> {
    let signed = s.len() > 0 && (s[0] == '-' || s[0] == '+');
    let start: int = if signed { 1 } else { 0 };
    let dot = find_from(s, '.', start);
    let whole = s.subrange(start, dot);
    let frac = if dot < s.len() { s.subrange(dot + 1, s.len() as int) } else { Seq::empty() };
    if all_digits(whole) && all_digits(frac) && frac.len() <= 2 && whole.len() + frac.len() > 0 {
        let cents = digits_value(whole) * 100 + if frac.len() == 1 {
            digits_value(frac) * 10
        } else {
            digits_value(frac)
        };
        if cents <= i64::MAX {
            Some(if s[0] == '-' { -cents } else { cents })
        } else {
            None
        }
    } else {
        None
    }
}

/// The message for a text that is not an amount.
pub open spec fn amount_error(s: Seq<char>) -> Seq<char> {
    if s.len() == 0 {
        "cannot parse amount from empty string"@
    } else {
        "invalid amount literal"@
    }
}

/// Hundredths as fixed two-decimal text: `-1.50`, `0.05`, `12.00`.
pub open spec fn cents_text(c: int) -> Seq<char> {
    let m = if c < 0 { -c } else { c };
    (if c < 0 { seq!['-'] } else { Seq::empty() }) + nat_text((m / 100) as nat) + seq!['.']
        + zero_pad(nat_text((m % 100) as nat), 2)
}

/// The text of an amount field: empty for zero, else two decimals.
pub open spec fn amount_text(c: int) -> Seq<char> {
    if c == 0 {
        Seq::empty()
    } else {
        cents_text(c)
    }
}

/// Reads an amount (see [`amount_reading`]) as hundredths.
pub fn parse_amount(s: &str) -> (r: Result<i64, String>)
    ensures
        match amount_reading(s@) {
            Some(c) => r is Ok && r->Ok_0 as int == c,
            None => r is Err && r->Err_0@ == amount_error(s@),
        },
{
    let len = s.unicode_len();
    if len == 0 {
        return Err(String::from_str("cannot parse amount from empty string"));
    }
    let first = s.get_char(0);
    let start: usize = if first == '-' || first == '+' { 1 } else { 0 };
    let dot = find_char(s, '.', start);
    proof {
        lemma_find_from(s@, '.', start as int);
    }
    let ghost whole = s@.subrange(start as int, dot as int);
    let ghost frac = if dot < len { s@.subrange(dot + 1, len as int) } else { Seq::<char>::empty() };
    let frac_start: usize = if dot < len { dot + 1 } else { len };
    proof {
        assert(frac =~= s@.subrange(frac_start as int, len as int));
    }
    let invalid = String::from_str("invalid amount literal");
    if len - frac_start > 2 || (dot - start) + (len - frac_start) == 0 {
        return Err(invalid);
    }
    let whole_value = match digits_in(s, start, dot, 92233720368547758) {
        Some(v) => v,
        None => {
            proof {
                if all_digits(whole) && all_digits(frac) {
                    let w = digits_value(whole);
                    assert(w > 92233720368547758);
                    assert(w * 100 > 9223372036854775807) by (nonlinear_arith)
                        requires
                            w > 92233720368547758,
                    ;
                    lemma_digits_value_nonneg(frac);
                }
            }
            return Err(invalid);
        },
    };
    let frac_value = match digits_in(s, frac_start, len, 99) {
        Some(v) => v,
        None => {
            proof {
                if all_digits(frac) {
                    lemma_short_digits(frac);
                }
            }
            return Err(invalid);
        },
    };
    proof {
        lemma_digits_value_nonneg(whole);
        lemma_digits_value_nonneg(frac);
    }
    let hundredths: u64 = if len - frac_start == 1 { frac_value * 10 } else { frac_value };
    let cents: u64 = whole_value * 100 + hundredths;
    if cents > 9223372036854775807 {
        return Err(invalid);
    }
    if first == '-' {
        Ok(-(cents as i64))
    } else {
        Ok(cents as i64)
    }
}

/// Appends the two-decimal text of `c` hundredths.
pub fn push_cents(out: &mut String, c: i128)
    ensures
        final(out)@ == old(out)@ + cents_text(c as int),
{
    proof {
        reveal_strlit("-");
        reveal_strlit(".");
    }
    let ghost start = out@;
    let m: u128 = if c < 0 {
        out.append("-");
        (-(c + 1)) as u128 + 1
    } else {
        c as u128
    };
    push_nat(out, m / 100);
    out.append(".");
    push_zero_padded(out, m % 100, 2);
    proof {
        assert(out@ =~= start + cents_text(c as int));
    }
}

/// The text of an amount field: empty for zero, else two decimals.
pub fn format_amount(c: i64) -> (r: String)
    ensures
        r@ == amount_text(c as int),
{
    let mut out = String::new();
    if c != 0 {
        push_cents(&mut out, c as i128);
    }
    proof {
        assert(out@ =~= amount_text(c as int));
    }
    out
}

} // verus!
