//! Decimal and padded number rendering used by the human-readable output.

use vstd::prelude::*;

verus! {

/// The ASCII character of a decimal digit.
pub open spec fn digit_char(d: nat) -> char {
    if d == 0 { '0' }
    else if d == 1 { '1' }
    else if d == 2 { '2' }
    else if d == 3 { '3' }
    else if d == 4 { '4' }
    else if d == 5 { '5' }
    else if d == 6 { '6' }
    else if d == 7 { '7' }
    else if d == 8 { '8' }
    else { '9' }
}

/// Decimal rendering of a natural number, without leading zeros ("0" for zero).
pub open spec fn decimal(n: nat) -> Seq<char>
    decreases n,
{
    if n < 10 {
        seq![digit_char(n)]
    } else {
        decimal(n / 10).push(digit_char(n % 10))
    }
}

/// `s` left-padded with '0' up to `width` characters (unchanged when already that long).
pub open spec fn zero_pad(s: Seq<char>, width: nat) -> Seq<char> {
    if s.len() < width {
        Seq::new((width - s.len()) as nat, |i: int| '0') + s
    } else {
        s
    }
}

/// Decimal rendering of `n` padded with zeros to at least `width` digits (Rust's `{:0width}`).
pub open spec fn padded_decimal(n: nat, width: nat) -> Seq<char> {
    zero_pad(decimal(n), width)
}

fn digit_text(d: u64) -> (s: &'static str)
    requires
        d < 10,
    ensures
        s@ == seq![digit_char(d as nat)],
{
    proof {
        reveal_strlit("0");
        reveal_strlit("1");
        reveal_strlit("2");
        reveal_strlit("3");
        reveal_strlit("4");
        reveal_strlit("5");
        reveal_strlit("6");
        reveal_strlit("7");
        reveal_strlit("8");
        reveal_strlit("9");
    }
    if d == 0 { "0" }
    else if d == 1 { "1" }
    else if d == 2 { "2" }
    else if d == 3 { "3" }
    else if d == 4 { "4" }
    else if d == 5 { "5" }
    else if d == 6 { "6" }
    else if d == 7 { "7" }
    else if d == 8 { "8" }
    else { "9" }
}

/// Appends the decimal rendering of `n` to `buf`.
pub fn push_decimal(buf: &mut String, n: u64)
    ensures
        final(buf)@ == old(buf)@ + decimal(n as nat),
    decreases n,
{
    if n >= 10 {
        push_decimal(buf, n / 10);
    }
    buf.append(digit_text(n % 10));
}

/// Appends `n` in decimal, zero-padded to at least `width` digits.
pub fn push_padded(buf: &mut String, n: u64, width: usize)
    ensures
        final(buf)@ == old(buf)@ + padded_decimal(n as nat, width as nat),
{
    let ghost start = buf@;
    let len = decimal_len(n);
    let mut k = len;
    while k < width
        invariant
            len == decimal(n as nat).len(),
            len <= k <= width || (k == len && len >= width),
            buf@ == start + Seq::new((k - len) as nat, |i: int| '0'),
        decreases width - k,
    {
        buf.append("0");
        proof {
            reveal_strlit("0");
            assert(buf@ =~= start + Seq::new((k + 1 - len) as nat, |i: int| '0'));
        }
        k = k + 1;
    }
    push_decimal(buf, n);
    assert(buf@ =~= old(buf)@ + padded_decimal(n as nat, width as nat));
}

/// Number of decimal digits of `n`.
pub fn decimal_len(n: u64) -> (len: usize)
    ensures
        len == decimal(n as nat).len(),
        1 <= len <= 20,
    decreases n,
{
    if n < 10 {
        1
    } else {
        proof { lemma_decimal_len_bound(n as nat / 10); }
        decimal_len(n / 10) + 1
    }
}

/// `10` to the power `k`.
pub open spec fn pow10(k: nat) -> nat
    decreases k,
{
    if k == 0 { 1 } else { 10 * pow10((k - 1) as nat) }
}

proof fn lemma_decimal_len_le(n: nat, k: nat)
    requires
        1 <= k,
        n < pow10(k),
    ensures
        decimal(n).len() <= k,
    decreases n,
{
    if n >= 10 {
        assert(k >= 2) by {
            if k == 1 { assert(pow10(1) == 10) by { reveal_with_fuel(pow10, 2); } }
        }
        assert(n / 10 < pow10((k - 1) as nat));
        lemma_decimal_len_le(n / 10, (k - 1) as nat);
    }
}

proof fn lemma_decimal_len_bound(n: nat)
    requires
        n <= u64::MAX / 10,
    ensures
        decimal(n).len() <= 19,
{
    assert(pow10(19) == 10000000000000000000) by { reveal_with_fuel(pow10, 20); }
    lemma_decimal_len_le(n, 19);
}

/// Decimal rendering of `n` with a `,` between groups of three digits (`5,432,198`).
pub open spec fn grouped_decimal(n: nat) -> Seq<char>
    decreases n,
{
    if n < 1000 {
        decimal(n)
    } else {
        grouped_decimal(n / 1000) + seq![','] + padded_decimal(n % 1000, 3)
    }
}

/// Appends `n` in decimal with thousands separators.
pub fn push_grouped(buf: &mut String, n: u64)
    ensures
        final(buf)@ == old(buf)@ + grouped_decimal(n as nat),
    decreases n,
{
    if n < 1000 {
        push_decimal(buf, n);
    } else {
        push_grouped(buf, n / 1000);
        buf.append(",");
        push_padded(buf, n % 1000, 3);
        proof {
            reveal_strlit(",");
            assert(buf@ =~= old(buf)@ + grouped_decimal(n as nat));
        }
    }
}

/// `n` copies of `unit`, one after another.
pub open spec fn repeat_seq(unit: Seq<char>, n: nat) -> Seq<char>
    decreases n,
{
    if n == 0 { seq![] } else { repeat_seq(unit, (n - 1) as nat) + unit }
}

/// `unit` repeated `n` times (as `str::repeat`).
pub fn repeat_str(unit: &str, n: usize) -> (s: String)
    ensures
        s@ == repeat_seq(unit@, n as nat),
{
    let mut s = String::new();
    let mut i: usize = 0;
    while i < n
        invariant
            i <= n,
            s@ == repeat_seq(unit@, i as nat),
        decreases n - i,
    {
        s.append(unit);
        i = i + 1;
    }
    s
}

/// Decimal rendering of `n` as a new string.
pub fn decimal_string(n: u64) -> (s: String)
    ensures
        s@ == decimal(n as nat),
{
    let mut s = String::new();
    push_decimal(&mut s, n);
    s
}

/// Strict lexicographic order of character strings (a proper prefix comes first).
pub open spec fn lex_lt(a: Seq<char>, b: Seq<char>) -> bool
    decreases a.len(),
{
    if a.len() == 0 {
        b.len() > 0
    } else if b.len() == 0 {
        false
    } else if a[0] < b[0] {
        true
    } else if a[0] == b[0] {
        lex_lt(a.drop_first(), b.drop_first())
    } else {
        false
    }
}

/// Two strings that share a prefix and then differ at a piece of the same length are ordered
/// by that piece.
pub proof fn lemma_lex_lt_middle(pre: Seq<char>, x: Seq<char>, y: Seq<char>, ra: Seq<char>, rb: Seq<char>)
    requires
        x.len() == y.len(),
        lex_lt(x, y),
    ensures
        lex_lt(pre + x + ra, pre + y + rb),
{
    lemma_lex_lt_concat(x, ra, y, rb);
    lemma_lex_lt_concat(pre, x + ra, pre, y + rb);
    assert(pre + x + ra =~= pre + (x + ra));
    assert(pre + y + rb =~= pre + (y + rb));
}

/// No string is before itself.
pub proof fn lemma_lex_lt_irreflexive(a: Seq<char>)
    ensures
        !lex_lt(a, a),
    decreases a.len(),
{
    if a.len() > 0 {
        lemma_lex_lt_irreflexive(a.drop_first());
    }
}

/// Comparing two concatenations whose first parts have the same length: the first parts decide,
/// and the second parts decide when the first parts are equal.
pub proof fn lemma_lex_lt_concat(a1: Seq<char>, a2: Seq<char>, b1: Seq<char>, b2: Seq<char>)
    requires
        a1.len() == b1.len(),
        lex_lt(a1, b1) || (a1 == b1 && lex_lt(a2, b2)),
    ensures
        lex_lt(a1 + a2, b1 + b2),
    decreases a1.len(),
{
    if a1.len() == 0 {
        assert(a1 + a2 =~= a2);
        assert(b1 + b2 =~= b2);
    } else {
        assert((a1 + a2)[0] == a1[0]);
        assert((b1 + b2)[0] == b1[0]);
        assert((a1 + a2).drop_first() =~= a1.drop_first() + a2);
        assert((b1 + b2).drop_first() =~= b1.drop_first() + b2);
        if a1[0] == b1[0] {
            if a1 == b1 {
                assert(a1.drop_first() == b1.drop_first());
            }
            lemma_lex_lt_concat(a1.drop_first(), a2, b1.drop_first(), b2);
        }
    }
}

proof fn lemma_digit_char_mono(d1: nat, d2: nat)
    requires
        d1 < d2 < 10,
    ensures
        digit_char(d1) < digit_char(d2),
{
}

/// A number below `10^w` takes at most `w` digits.
proof fn lemma_decimal_fits(n: nat, w: nat)
    requires
        1 <= w,
        n < pow10(w),
    ensures
        decimal(n).len() <= w,
{
    lemma_decimal_len_le(n, w);
}

/// A zero-padded rendering of width `w >= 2` of a number below `10^w` is the rendering of its
/// leading digits at width `w - 1` followed by its last digit.
proof fn lemma_padded_split(n: nat, w: nat)
    requires
        2 <= w,
        n < pow10(w),
    ensures
        padded_decimal(n, w) == padded_decimal(n / 10, (w - 1) as nat).push(digit_char(n % 10)),
{
    lemma_decimal_fits(n, w);
    if n < 10 {
        assert(decimal(n) == seq![digit_char(n)]);
        assert(decimal(0) == seq!['0']);
        assert(padded_decimal(n, w) =~= padded_decimal(0, (w - 1) as nat).push(digit_char(n % 10)));
    } else {
        assert(n / 10 < pow10((w - 1) as nat));
        assert(decimal(n) == decimal(n / 10).push(digit_char(n % 10)));
        assert(padded_decimal(n, w) =~= padded_decimal(n / 10, (w - 1) as nat).push(digit_char(n % 10)));
    }
}

/// A zero-padded rendering of width `w` of a number below `10^w` has exactly `w` characters.
pub proof fn lemma_padded_len(n: nat, w: nat)
    requires
        1 <= w,
        n < pow10(w),
    ensures
        padded_decimal(n, w).len() == w,
{
    lemma_decimal_fits(n, w);
}

/// Law: for numbers below `10^w`, the order of their width-`w` zero-padded renderings is the
/// order of the numbers.
pub proof fn lemma_padded_order(n: nat, m: nat, w: nat)
    requires
        1 <= w,
        n < m < pow10(w),
    ensures
        lex_lt(padded_decimal(n, w), padded_decimal(m, w)),
    decreases w,
{
    if w == 1 {
        assert(pow10(1) == 10) by { reveal_with_fuel(pow10, 2); }
        assert(padded_decimal(n, 1) == seq![digit_char(n)]);
        assert(padded_decimal(m, 1) == seq![digit_char(m)]);
        lemma_digit_char_mono(n, m);
    } else {
        lemma_padded_split(n, w);
        lemma_padded_split(m, w);
        let w1 = (w - 1) as nat;
        assert(m / 10 < pow10(w1));
        lemma_padded_len(n / 10, w1);
        lemma_padded_len(m / 10, w1);
        let pn = padded_decimal(n / 10, w1);
        let pm = padded_decimal(m / 10, w1);
        assert(padded_decimal(n, w) == pn + seq![digit_char(n % 10)]);
        assert(padded_decimal(m, w) == pm + seq![digit_char(m % 10)]);
        if n / 10 < m / 10 {
            lemma_padded_order(n / 10, m / 10, w1);
        } else {
            assert(n / 10 == m / 10);
            assert(n % 10 < m % 10);
            lemma_digit_char_mono(n % 10, m % 10);
            assert(lex_lt(seq![digit_char(n % 10)], seq![digit_char(m % 10)])) by {
                assert(seq![digit_char(n % 10)].drop_first().len() == 0);
            }
        }
        lemma_lex_lt_concat(pn, seq![digit_char(n % 10)], pm, seq![digit_char(m % 10)]);
    }
}

} // verus!
