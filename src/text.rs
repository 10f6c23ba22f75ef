//! Character-level helpers shared by the date and amount codecs: decimal
//! digit strings, their values, and zero-padded decimal rendering.

use vstd::prelude::*;
use vstd::string::*;

verus! {

/// Whether `c` is an ASCII decimal digit.
pub open spec fn is_digit(c: char) -> bool {
    '0' <= c && c <= '9'
}

/// The value of a decimal digit character.
pub open spec fn digit_value(c: char) -> int {
    (c as u32) - ('0' as u32)
}

/// Whether every character of `s` is a decimal digit (true of the empty text).
pub open spec fn all_digits(s: Seq<char>) -> bool {
    forall|i: int| 0 <= i < s.len() ==> is_digit(#[trigger] s[i])
}

/// The value of a text of decimal digits, most significant first.
pub open spec fn digits_value(s: Seq<char>) -> int
    decreases s.len(),
{
    if s.len() == 0 {
        0
    } else {
        digits_value(s.drop_last()) * 10 + digit_value(s.last())
    }
}

/// The character of a decimal digit `0 <= d < 10`.
pub open spec fn digit_char(d: int) -> char {
    if d == 0 {
        '0'
    } else if d == 1 {
        '1'
    } else if d == 2 {
        '2'
    } else if d == 3 {
        '3'
    } else if d == 4 {
        '4'
    } else if d == 5 {
        '5'
    } else if d == 6 {
        '6'
    } else if d == 7 {
        '7'
    } else if d == 8 {
        '8'
    } else {
        '9'
    }
}

/// The shortest decimal text of a natural number ("0" for zero).
pub open spec fn nat_text(n: nat) -> Seq<char>
    decreases n,
{
    if n < 10 {
        seq![digit_char(n as int)]
    } else {
        nat_text(n / 10).push(digit_char((n % 10) as int))
    }
}

/// `s` with zeros added in front until it is at least `width` long.
pub open spec fn zero_pad(s: Seq<char>, width: nat) -> Seq<char> {
    if s.len() >= width {
        s
    } else {
        Seq::new((width - s.len()) as nat, |i: int| '0') + s
    }
}

/// An integer as `{:0w}` renders it: a minus sign for negatives, then
/// zeros so that the whole text is at least `width` long.
pub open spec fn padded_int(n: int, width: nat) -> Seq<char> {
    if n < 0 {
        seq!['-'] + zero_pad(nat_text((-n) as nat), if width > 0 { (width - 1) as nat } else { 0 })
    } else {
        zero_pad(nat_text(n as nat), width)
    }
}

/// The value of an unsigned integer literal as Rust's integer parsing reads
/// it: an optional `+`, then one or more decimal digits.
pub open spec fn unsigned_literal(s: Seq<char>) -> Option<int> {
    let body = if s.len() > 0 && s[0] == '+' { s.drop_first() } else { s };
    if body.len() > 0 && all_digits(body) {
        Some(digits_value(body))
    } else {
        None
    }
}

/// The value of a signed integer literal: an optional `-` or `+`, then one
/// or more decimal digits.
pub open spec fn signed_literal(s: Seq<char>) -> Option<int> {
    if s.len() > 0 && s[0] == '-' {
        let body = s.drop_first();
        if body.len() > 0 && all_digits(body) {
            Some(-digits_value(body))
        } else {
            None
        }
    } else {
        unsigned_literal(s)
    }
}

pub proof fn lemma_digits_value_nonneg(s: Seq<char>)
    requires
        all_digits(s),
    ensures
        digits_value(s) >= 0,
    decreases s.len(),
{
    if s.len() > 0 {
        lemma_digits_value_nonneg(s.drop_last());
    }
}

/// One or two digits make a value below 100.
pub proof fn lemma_short_digits(s: Seq<char>)
    requires
        all_digits(s),
        s.len() <= 2,
    ensures
        0 <= digits_value(s) < 100,
        s.len() <= 1 ==> digits_value(s) < 10,
{
    if s.len() > 0 {
        let t = s.drop_last();
        assert(is_digit(s.last()));
        if t.len() > 0 {
            assert(is_digit(t[0]));
            assert(t.drop_last() =~= Seq::<char>::empty());
            assert(digits_value(t) == digits_value(t.drop_last()) * 10 + digit_value(t.last()));
        }
        assert(digits_value(s) == digits_value(t) * 10 + digit_value(s.last()));
    }
}

/// A longer digit text never has a smaller value than its prefix.
pub proof fn lemma_digits_value_monotone(s: Seq<char>, k: int)
    requires
        all_digits(s),
        0 <= k <= s.len(),
    ensures
        digits_value(s.subrange(0, k)) <= digits_value(s),
    decreases s.len() - k,
{
    if k < s.len() {
        let t = s.subrange(0, k + 1);
        assert(t.drop_last() =~= s.subrange(0, k));
        assert(is_digit(s[k]));
        lemma_digits_value_nonneg(s.subrange(0, k));
        lemma_digits_value_monotone(s, k + 1);
    } else {
        assert(s.subrange(0, k) =~= s);
    }
}

/// Leading zeros do not change the value of a digit text.
pub proof fn lemma_leading_zero(s: Seq<char>)
    ensures
        digits_value(seq!['0'] + s) == digits_value(s),
    decreases s.len(),
{
    let t = seq!['0'] + s;
    assert(digits_value(t) == digits_value(t.drop_last()) * 10 + digit_value(t.last()));
    if s.len() > 0 {
        assert(t.drop_last() =~= seq!['0'] + s.drop_last());
        assert(t.last() == s.last());
        lemma_leading_zero(s.drop_last());
    } else {
        assert(t.drop_last() =~= Seq::<char>::empty());
    }
}

pub proof fn lemma_zeros_prefix(k: nat, s: Seq<char>)
    ensures
        digits_value(Seq::new(k, |i: int| '0') + s) == digits_value(s),
        all_digits(s) ==> all_digits(Seq::new(k, |i: int| '0') + s),
    decreases k,
{
    if k > 0 {
        let z = Seq::new(k, |i: int| '0');
        let z1 = Seq::new((k - 1) as nat, |i: int| '0');
        assert(z + s =~= seq!['0'] + (z1 + s));
        lemma_zeros_prefix((k - 1) as nat, s);
        lemma_leading_zero(z1 + s);
    } else {
        assert(Seq::new(k, |i: int| '0') + s =~= s);
    }
}

pub proof fn lemma_digit_char(d: int)
    requires
        0 <= d < 10,
    ensures
        is_digit(digit_char(d)),
        digit_value(digit_char(d)) == d,
{
}

/// `nat_text` is a digit text with the value it renders, and it is short
/// for small numbers.
pub proof fn lemma_nat_text(n: nat)
    ensures
        all_digits(nat_text(n)),
        digits_value(nat_text(n)) == n,
        1 <= nat_text(n).len(),
        n < 10 ==> nat_text(n).len() == 1,
        n < 100 ==> nat_text(n).len() <= 2,
        n < 1000 ==> nat_text(n).len() <= 3,
        n < 10000 ==> nat_text(n).len() <= 4,
    decreases n,
{
    if n < 10 {
        lemma_digit_char(n as int);
        let t = seq![digit_char(n as int)];
        assert(t.drop_last() =~= Seq::<char>::empty());
        assert(digits_value(t) == digits_value(t.drop_last()) * 10 + digit_value(t.last()));
    } else {
        lemma_nat_text(n / 10);
        lemma_digit_char((n % 10) as int);
        assert(nat_text(n).drop_last() =~= nat_text(n / 10));
        assert(n == (n / 10) * 10 + n % 10);
        assert(n < 100 ==> n / 10 < 10);
        assert(n < 1000 ==> n / 10 < 100);
        assert(n < 10000 ==> n / 10 < 1000);
        let t = nat_text(n);
        assert(digits_value(t) == digits_value(t.drop_last()) * 10 + digit_value(t.last()));
    }
}

/// A zero-padded rendering of a natural number reads back as that number.
pub proof fn lemma_zero_pad_nat(n: nat, width: nat)
    ensures
        all_digits(zero_pad(nat_text(n), width)),
        digits_value(zero_pad(nat_text(n), width)) == n,
        zero_pad(nat_text(n), width).len() >= width,
        zero_pad(nat_text(n), width).len() >= 1,
        n < 10000 && width == 4 ==> zero_pad(nat_text(n), width).len() == 4,
        n < 100 && width == 2 ==> zero_pad(nat_text(n), width).len() == 2,
{
    lemma_nat_text(n);
    let s = nat_text(n);
    if s.len() < width {
        lemma_zeros_prefix((width - s.len()) as nat, s);
    }
}

/// The text of a decimal digit, `0 <= d < 10`.
pub fn digit_str(d: u64) -> (r: &'static str)
    requires
        d < 10,
    ensures
        r@ == seq![digit_char(d as int)],
{
    proof {
        reveal_strlit("0");
        reveal_strlit("1");
        reveal_strlit("2");
        reveal_strlit("3");
        reveal_strlit("4");
        reveal_strlit("5");
        reveal_strlit("6");
        reveal_strlit("7");
        reveal_strlit("8");
        reveal_strlit("9");
    }
    if d == 0 {
        "0"
    } else if d == 1 {
        "1"
    } else if d == 2 {
        "2"
    } else if d == 3 {
        "3"
    } else if d == 4 {
        "4"
    } else if d == 5 {
        "5"
    } else if d == 6 {
        "6"
    } else if d == 7 {
        "7"
    } else if d == 8 {
        "8"
    } else {
        "9"
    }
}

/// Appends the shortest decimal text of `n` to `out`.
pub fn push_nat(out: &mut String, n: u128)
    ensures
        final(out)@ == old(out)@ + nat_text(n as nat),
    decreases n,
{
    if n < 10 {
        out.append(digit_str(n as u64));
    } else {
        push_nat(out, n / 10);
        out.append(digit_str((n % 10) as u64));
        proof {
            assert(nat_text(n as nat) == nat_text((n / 10) as nat).push(digit_char((n % 10) as int)));
        }
    }
}

/// Appends `n` zero-padded to at least `width` characters.
pub fn push_zero_padded(out: &mut String, n: u128, width: usize)
    ensures
        final(out)@ == old(out)@ + zero_pad(nat_text(n as nat), width as nat),
{
    let mut digits = String::new();
    push_nat(&mut digits, n);
    proof {
        assert(digits@ =~= nat_text(n as nat));
    }
    let len = digits.as_str().unicode_len();
    let ghost start = out@;
    if len < width {
        let mut k: usize = len;
        while k < width
            invariant
                len <= k <= width,
                len == nat_text(n as nat).len(),
                out@ == start + Seq::new((k - len) as nat, |i: int| '0'),
            decreases width - k,
        {
            proof {
                reveal_strlit("0");
            }
            out.append("0");
            assert(out@ =~= start + Seq::new((k + 1 - len) as nat, |i: int| '0'));
            k = k + 1;
        }
    }
    out.append(digits.as_str());
    assert(out@ =~= start + zero_pad(nat_text(n as nat), width as nat));
}

/// Appends `n` as `{:0w}` renders it.
pub fn push_padded_int(out: &mut String, n: i64, width: usize)
    ensures
        final(out)@ == old(out)@ + padded_int(n as int, width as nat),
{
    if n < 0 {
        proof {
            reveal_strlit("-");
        }
        let ghost start = out@;
        out.append("-");
        let magnitude: u128 = (-(n as i128)) as u128;
        let w: usize = if width > 0 { width - 1 } else { 0 };
        push_zero_padded(out, magnitude, w);
        assert(out@ =~= start + padded_int(n as int, width as nat));
    } else {
        push_zero_padded(out, n as u128, width);
    }
}

/// The value of the digits `s[start..end]`, where every one of them is a
/// decimal digit and the value does not pass `bound`; `None` otherwise.
/// An empty range has the value zero.
pub fn digits_in(s: &str, start: usize, end: usize, bound: u64) -> (r: Option<u64>)
    requires
        start <= end <= s@.len(),
        bound <= 1_000_000_000_000_000_000,
    ensures
        r == (if all_digits(s@.subrange(start as int, end as int)) && digits_value(
            s@.subrange(start as int, end as int),
        ) <= bound {
            Some(digits_value(s@.subrange(start as int, end as int)) as u64)
        } else {
            None::<u64>
        }),
{
    let ghost t = s@.subrange(start as int, end as int);
    let mut acc: u64 = 0;
    let mut i: usize = start;
    while i < end
        invariant
            start <= i <= end <= s@.len(),
            t == s@.subrange(start as int, end as int),
            bound <= 1_000_000_000_000_000_000,
            all_digits(t.subrange(0, i - start)),
            acc as int == digits_value(t.subrange(0, i - start)),
            acc <= bound,
        decreases end - i,
    {
        let c = s.get_char(i);
        if !('0' <= c && c <= '9') {
            assert(!is_digit(t[i - start]));
            assert(!all_digits(t));
            return None;
        }
        let d: u64 = (c as u32 - '0' as u32) as u64;
        let next: u64 = acc * 10 + d;
        proof {
            let p = t.subrange(0, i + 1 - start);
            assert(p.drop_last() =~= t.subrange(0, i - start));
            assert(p.last() == c);
            assert(all_digits(p));
        }
        if next > bound {
            proof {
                if all_digits(t) {
                    lemma_digits_value_monotone(t, i + 1 - start);
                }
            }
            return None;
        }
        acc = next;
        i = i + 1;
    }
    assert(t.subrange(0, end - start) =~= t);
    Some(acc)
}

/// The index of the first `c` in `s` at or after `from`, or the length of
/// `s` where there is none.
pub open spec fn find_from(s: Seq<char>, c: char, from: int) -> int
    decreases s.len() - from,
{
    if from >= s.len() {
        s.len() as int
    } else if s[from] == c {
        from
    } else {
        find_from(s, c, from + 1)
    }
}

pub proof fn lemma_find_from(s: Seq<char>, c: char, from: int)
    requires
        0 <= from <= s.len(),
    ensures
        from <= find_from(s, c, from) <= s.len(),
        find_from(s, c, from) < s.len() ==> s[find_from(s, c, from)] == c,
        forall|j: int| from <= j < find_from(s, c, from) ==> s[j] != c,
    decreases s.len() - from,
{
    if from < s.len() && s[from] != c {
        lemma_find_from(s, c, from + 1);
    }
}

/// The index of the first `c` in `s` at or after `from`, or its length.
pub fn find_char(s: &str, c: char, from: usize) -> (r: usize)
    requires
        from <= s@.len(),
    ensures
        r as int == find_from(s@, c, from as int),
{
    let len = s.unicode_len();
    let mut i: usize = from;
    while i < len
        invariant
            from <= i <= len,
            len == s@.len(),
            find_from(s@, c, from as int) == find_from(s@, c, i as int),
        decreases len - i,
    {
        if s.get_char(i) == c {
            return i;
        }
        i = i + 1;
    }
    i
}

/// Whether `p` is a prefix of `t`, compared character by character.
pub fn starts_with(t: &str, p: &str) -> (r: bool)
    ensures
        r == p@.is_prefix_of(t@),
{
    let tl = t.unicode_len();
    let pl = p.unicode_len();
    if pl > tl {
        return false;
    }
    let mut i: usize = 0;
    while i < pl
        invariant
            i <= pl <= tl,
            tl == t@.len(),
            pl == p@.len(),
            forall|j: int| 0 <= j < i ==> p@[j] == t@[j],
        decreases pl - i,
    {
        if p.get_char(i) != t.get_char(i) {
            return false;
        }
        i = i + 1;
    }
    true
}

/// A decimal literal that fits in `i32`, as `str::parse::<i32>` reads it.
pub open spec fn i32_literal(s: Seq<char>) -> Option<int> {
    match signed_literal(s) {
        Some(v) => if i32::MIN <= v <= i32::MAX { Some(v) } else { None },
        None => None,
    }
}

/// A decimal literal that fits in `u8`, as `str::parse::<u8>` reads it.
pub open spec fn u8_literal(s: Seq<char>) -> Option<int> {
    match unsigned_literal(s) {
        Some(v) => if v <= u8::MAX { Some(v) } else { None },
        None => None,
    }
}

/// Reads a `u8` literal: an optional `+`, then one or more digits.
pub fn parse_u8(s: &str) -> (r: Option<u8>)
    ensures
        (r is Some) == (u8_literal(s@) is Some),
        r is Some ==> r->0 as int == u8_literal(s@)->0,
{
    let len = s.unicode_len();
    let start: usize = if len > 0 && s.get_char(0) == '+' { 1 } else { 0 };
    proof {
        if start == 1 {
            assert(s@.drop_first() =~= s@.subrange(1, len as int));
        } else {
            assert(s@ =~= s@.subrange(0, len as int));
        }
    }
    if start >= len {
        return None;
    }
    match digits_in(s, start, len, 255) {
        Some(v) => {
            proof {
                lemma_digits_value_nonneg(s@.subrange(start as int, len as int));
            }
            Some(v as u8)
        },
        None => None,
    }
}

/// Reads an `i32` literal: an optional `-` or `+`, then one or more digits.
pub fn parse_i32(s: &str) -> (r: Option<i32>)
    ensures
        (r is Some) == (i32_literal(s@) is Some),
        r is Some ==> r->0 as int == i32_literal(s@)->0,
{
    let len = s.unicode_len();
    let negative = len > 0 && s.get_char(0) == '-';
    let start: usize = if len > 0 && (s.get_char(0) == '-' || s.get_char(0) == '+') {
        1
    } else {
        0
    };
    proof {
        if start == 1 {
            assert(s@.drop_first() =~= s@.subrange(1, len as int));
        } else {
            assert(s@ =~= s@.subrange(0, len as int));
        }
    }
    if start >= len {
        return None;
    }
    let bound: u64 = if negative { 2147483648 } else { 2147483647 };
    match digits_in(s, start, len, bound) {
        Some(v) => {
            proof {
                let body = s@.subrange(start as int, len as int);
                lemma_digits_value_nonneg(body);
                assert(v as int == digits_value(body));
                assert(v <= bound);
            }
            if negative {
                Some((-(v as i64)) as i32)
            } else {
                Some(v as i32)
            }
        },
        None => {
            proof {
                let body = s@.subrange(start as int, len as int);
                if all_digits(body) {
                    lemma_digits_value_nonneg(body);
                }
            }
            None
        },
    }
}

} // verus!
