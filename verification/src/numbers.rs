//! Decimal numbers in text: integer parsing with the grammar of std's
//! `FromStr`, and exact comparison of decimal literals.

use vstd::prelude::*;

use crate::text::{chars_of, trim};

verus! {

// ---------------------------------------------------------------------------
// Digits
// ---------------------------------------------------------------------------

/// Whether `c` is one of `0`..`9`.
pub open spec fn is_digit(c: char) -> bool {
    '0' <= c <= '9'
}

/// The value of an ASCII digit (0 for any other character).
pub open spec fn digit_value(c: char) -> nat {
    if is_digit(c) {
        (c as nat - '0' as nat) as nat
    } else {
        0
    }
}

/// Whether every character of `s` is an ASCII digit.
pub open spec fn all_digits(s: Seq<char>) -> bool {
    forall|i: int| 0 <= i < s.len() ==> #[trigger] is_digit(s[i])
}

/// The number written by the digits `s` in base ten.
pub open spec fn digits_value(s: Seq<char>) -> nat
    decreases s.len(),
{
    if s.len() == 0 {
        0
    } else {
        digits_value(s.drop_last()) * 10 + digit_value(s.last())
    }
}

/// `n` zero digits.
pub open spec fn zeros(n: nat) -> Seq<char> {
    Seq::new(n, |i: int| '0')
}

proof fn lemma_digits_value_prefix(s: Seq<char>, i: int)
    requires
        0 <= i <= s.len(),
    ensures
        digits_value(s.take(i)) <= digits_value(s),
    decreases s.len() - i,
{
    if i < s.len() {
        lemma_digits_value_prefix(s, i + 1);
        assert(s.take(i + 1).drop_last() =~= s.take(i));
    } else {
        assert(s.take(i) =~= s);
    }
}

proof fn lemma_leading_zeros(n: nat, s: Seq<char>)
    ensures
        digits_value(zeros(n) + s) == digits_value(s),
    decreases s.len(),
{
    if s.len() == 0 {
        assert(zeros(n) + s =~= zeros(n));
        lemma_zeros_value(n);
    } else {
        lemma_leading_zeros(n, s.drop_last());
        assert((zeros(n) + s).drop_last() =~= zeros(n) + s.drop_last());
    }
}

/// Three-way comparison of two digit strings of equal length, digit by digit
/// from the left.
pub open spec fn digits_order(s: Seq<char>, t: Seq<char>) -> int
    decreases s.len(),
{
    if s.len() == 0 || t.len() == 0 {
        0
    } else {
        let c = digits_order(s.drop_last(), t.drop_last());
        if c != 0 {
            c
        } else if digit_value(s.last()) < digit_value(t.last()) {
            -1
        } else if digit_value(s.last()) > digit_value(t.last()) {
            1
        } else {
            0
        }
    }
}

proof fn lemma_digits_order(s: Seq<char>, t: Seq<char>)
    requires
        s.len() == t.len(),
    ensures
        digits_order(s, t) < 0 <==> digits_value(s) < digits_value(t),
        digits_order(s, t) == 0 <==> digits_value(s) == digits_value(t),
        digits_order(s, t) > 0 <==> digits_value(s) > digits_value(t),
    decreases s.len(),
{
    if s.len() > 0 {
        lemma_digits_order(s.drop_last(), t.drop_last());
    }
}

// ---------------------------------------------------------------------------
// Integer parsing
// ---------------------------------------------------------------------------

/// The integer that std's `FromStr` for an integer type reads from `s`
/// before the range check: an optional `+` (or `-` where `signed`) and at
/// least one ASCII digit, nothing else.
pub open spec fn spec_parse_int(s: Seq<char>, signed: bool) -> Option<int> {
    if s.len() == 0 {
        None
    } else {
        let neg = signed && s[0] == '-';
        let digits = if s[0] == '+' || neg {
            s.drop_first()
        } else {
            s
        };
        if digits.len() == 0 || !all_digits(digits) {
            None
        } else if neg {
            Some(-(digits_value(digits) as int))
        } else {
            Some(digits_value(digits) as int)
        }
    }
}

/// `s.parse::<i32>()`.
pub open spec fn spec_parse_i32(s: Seq<char>) -> Option<int> {
    match spec_parse_int(s, true) {
        Some(v) => if i32::MIN <= v <= i32::MAX {
            Some(v)
        } else {
            None
        },
        None => None,
    }
}

/// `s.parse::<usize>()`.
pub open spec fn spec_parse_usize(s: Seq<char>) -> Option<int> {
    match spec_parse_int(s, false) {
        Some(v) => if v <= usize::MAX {
            Some(v)
        } else {
            None
        },
        None => None,
    }
}

/// The value of the digits `v[from..]` if they are all ASCII digits, there is
/// at least one, and the value is at most `cap`.
fn digits_up_to(v: &Vec<char>, from: usize, cap: u64) -> (r: Option<u64>)
    requires
        from <= v.len(),
    ensures
        r matches Some(x) ==> v@.skip(from as int).len() > 0 && all_digits(v@.skip(from as int))
            && digits_value(v@.skip(from as int)) == x && x <= cap,
        r is None ==> !(v@.skip(from as int).len() > 0 && all_digits(v@.skip(from as int))
            && digits_value(v@.skip(from as int)) <= cap),
{
    let ghost d = v@.skip(from as int);
    if from == v.len() {
        return None;
    }
    let mut acc: u128 = 0;
    let mut i: usize = from;
    assert(d.take(0) =~= Seq::<char>::empty());
    while i < v.len()
        invariant
            from <= i <= v.len(),
            d == v@.skip(from as int),
            acc == digits_value(d.take(i - from)),
            acc <= cap,
            all_digits(d.take(i - from)),
        decreases v.len() - i,
    {
        let c = v[i];
        assert(d.take(i - from + 1).drop_last() =~= d.take(i - from));
        assert(d.take(i - from + 1).last() == c);
        if !('0' <= c && c <= '9') {
            proof {
                assert(!is_digit(d[i - from]));
            }
            return None;
        }
        let dv = (c as u32 - '0' as u32) as u128;
        acc = acc * 10 + dv;
        i = i + 1;
        assert(all_digits(d.take(i - from))) by {
            assert forall|k: int| 0 <= k < d.take(i - from).len() implies #[trigger] is_digit(
                d.take(i - from)[k],
            ) by {
                if k < i - from - 1 {
                    assert(d.take(i - from)[k] == d.take(i - from - 1)[k]);
                }
            }
        }
        if acc > cap as u128 {
            proof {
                lemma_digits_value_prefix(d, i - from);
            }
            return None;
        }
    }
    assert(d.take(i - from) =~= d);
    Some(acc as u64)
}

/// `s.parse::<i32>().ok()`: an optional sign and ASCII digits, in range.
pub fn parse_i32(s: &str) -> (r: Option<i32>)
    ensures
        r matches Some(v) ==> spec_parse_i32(s@) == Some(v as int),
        r is None ==> spec_parse_i32(s@) is None,
{
    let v = chars_of(s);
    if v.len() == 0 {
        return None;
    }
    let neg = v[0] == '-';
    let from: usize = if v[0] == '+' || neg {
        1
    } else {
        0
    };
    assert(from == 0 ==> v@.skip(0) =~= v@);
    assert(from == 1 ==> v@.skip(1) =~= v@.drop_first());
    match digits_up_to(&v, from, 0x8000_0000) {
        Some(x) => {
            if neg {
                Some((0 - x as i64) as i32)
            } else if x <= 0x7fff_ffff {
                Some(x as i32)
            } else {
                None
            }
        },
        None => None,
    }
}

/// `s.parse::<usize>().ok()`: an optional `+` and ASCII digits, in range.
pub fn parse_usize(s: &str) -> (r: Option<usize>)
    ensures
        r matches Some(v) ==> spec_parse_usize(s@) == Some(v as int),
        r is None ==> spec_parse_usize(s@) is None,
{
    let v = chars_of(s);
    if v.len() == 0 {
        return None;
    }
    let from: usize = if v[0] == '+' {
        1
    } else {
        0
    };
    assert(from == 0 ==> v@.skip(0) =~= v@);
    assert(from == 1 ==> v@.skip(1) =~= v@.drop_first());
    match digits_up_to(&v, from, usize::MAX as u64) {
        Some(x) => Some(x as usize),
        None => None,
    }
}

/// `s.parse::<u32>()`.
pub open spec fn spec_parse_u32(s: Seq<char>) -> Option<int> {
    match spec_parse_int(s, false) {
        Some(v) => if v <= u32::MAX {
            Some(v)
        } else {
            None
        },
        None => None,
    }
}

/// `s.parse::<u32>().ok()`: an optional `+` and ASCII digits, in range.
pub fn parse_u32(s: &str) -> (r: Option<u32>)
    ensures
        r matches Some(v) ==> spec_parse_u32(s@) == Some(v as int),
        r is None ==> spec_parse_u32(s@) is None,
{
    let v = chars_of(s);
    if v.len() == 0 {
        return None;
    }
    let from: usize = if v[0] == '+' {
        1
    } else {
        0
    };
    assert(from == 0 ==> v@.skip(0) =~= v@);
    assert(from == 1 ==> v@.skip(1) =~= v@.drop_first());
    match digits_up_to(&v, from, 0xffff_ffff) {
        Some(x) => Some(x as u32),
        None => None,
    }
}

/// `s.parse::<u16>()`.
pub open spec fn spec_parse_u16(s: Seq<char>) -> Option<int> {
    match spec_parse_int(s, false) {
        Some(v) => if v <= u16::MAX {
            Some(v)
        } else {
            None
        },
        None => None,
    }
}

/// `s.parse::<u16>().ok()`: an optional `+` and ASCII digits, in range.
pub fn parse_u16(s: &str) -> (r: Option<u16>)
    ensures
        r matches Some(v) ==> spec_parse_u16(s@) == Some(v as int),
        r is None ==> spec_parse_u16(s@) is None,
{
    let v = chars_of(s);
    if v.len() == 0 {
        return None;
    }
    let from: usize = if v[0] == '+' {
        1
    } else {
        0
    };
    assert(from == 0 ==> v@.skip(0) =~= v@);
    assert(from == 1 ==> v@.skip(1) =~= v@.drop_first());
    match digits_up_to(&v, from, 0xffff) {
        Some(x) => Some(x as u16),
        None => None,
    }
}

/// `s.parse::<u64>()`.
pub open spec fn spec_parse_u64(s: Seq<char>) -> Option<int> {
    match spec_parse_int(s, false) {
        Some(v) => if v <= u64::MAX {
            Some(v)
        } else {
            None
        },
        None => None,
    }
}

/// `s.parse::<u64>().ok()`: an optional `+` and ASCII digits, in range.
pub fn parse_u64(s: &str) -> (r: Option<u64>)
    ensures
        r matches Some(v) ==> spec_parse_u64(s@) == Some(v as int),
        r is None ==> spec_parse_u64(s@) is None,
{
    let v = chars_of(s);
    if v.len() == 0 {
        return None;
    }
    let from: usize = if v[0] == '+' {
        1
    } else {
        0
    };
    assert(from == 0 ==> v@.skip(0) =~= v@);
    assert(from == 1 ==> v@.skip(1) =~= v@.drop_first());
    digits_up_to(&v, from, 0xffff_ffff_ffff_ffff)
}

// ---------------------------------------------------------------------------
// Decimal literals
// ---------------------------------------------------------------------------

/// The position of the first `.` in `s`, or its length.
pub open spec fn dot_pos(s: Seq<char>) -> nat
    decreases s.len(),
{
    if s.len() == 0 || s[0] == '.' {
        0
    } else {
        1 + dot_pos(s.drop_first())
    }
}

/// A decimal literal `[+-]?D+(\.D+)?` (ASCII digits), with surrounding
/// whitespace: whether it is negative, its integer digits and its fraction
/// digits.
pub open spec fn spec_decimal(value: Seq<char>) -> Option<(bool, Seq<char>, Seq<char>)> {
    let s = trim(value);
    let signed = s.len() > 0 && (s[0] == '+' || s[0] == '-');
    let neg = s.len() > 0 && s[0] == '-';
    let rest = if signed {
        s.drop_first()
    } else {
        s
    };
    let p = dot_pos(rest) as int;
    let int_part = rest.take(p);
    let frac = if p < rest.len() {
        rest.skip(p + 1)
    } else {
        Seq::<char>::empty()
    };
    if int_part.len() > 0 && all_digits(int_part) && (p == rest.len() || (frac.len() > 0
        && all_digits(frac))) {
        Some((neg, int_part, frac))
    } else {
        None
    }
}

/// The digits of a decimal scaled to `k` fraction digits (`k` at least its
/// own fraction length): its value times ten to the `k`.
pub open spec fn scaled_digits(int_part: Seq<char>, frac: Seq<char>, k: nat) -> Seq<char> {
    int_part + frac + zeros((k - frac.len()) as nat)
}

/// Exact three-way comparison of two decimals by value (`-0` equals `0`).
pub open spec fn decimal_order(a: (bool, Seq<char>, Seq<char>), b: (bool, Seq<char>, Seq<char>)) -> int {
    let k: nat = if a.2.len() >= b.2.len() {
        a.2.len()
    } else {
        b.2.len()
    };
    let va: int = if a.0 {
        -(digits_value(scaled_digits(a.1, a.2, k)) as int)
    } else {
        digits_value(scaled_digits(a.1, a.2, k)) as int
    };
    let vb: int = if b.0 {
        -(digits_value(scaled_digits(b.1, b.2, k)) as int)
    } else {
        digits_value(scaled_digits(b.1, b.2, k)) as int
    };
    if va < vb {
        -1
    } else if va > vb {
        1
    } else {
        0
    }
}

/// A decimal literal read from text.
pub struct Decimal {
    pub negative: bool,
    pub int_digits: Vec<char>,
    pub frac_digits: Vec<char>,
}

/// The parts of `d`.
pub open spec fn decimal_view(d: Decimal) -> (bool, Seq<char>, Seq<char>) {
    (d.negative, d.int_digits@, d.frac_digits@)
}

fn all_digits_range(v: &Vec<char>, start: usize, end: usize) -> (b: bool)
    requires
        start <= end <= v.len(),
    ensures
        b == all_digits(v@.subrange(start as int, end as int)),
{
    let mut i = start;
    while i < end
        invariant
            start <= i <= end <= v.len(),
            forall|k: int| start <= k < i ==> is_digit(#[trigger] v@[k]),
        decreases end - i,
    {
        if !('0' <= v[i] && v[i] <= '9') {
            assert(!is_digit(v@.subrange(start as int, end as int)[i - start]));
            return false;
        }
        i = i + 1;
    }
    assert forall|k: int| 0 <= k < end - start implies #[trigger] is_digit(
        v@.subrange(start as int, end as int)[k],
    ) by {
        assert(v@.subrange(start as int, end as int)[k] == v@[start + k]);
    }
    true
}

fn sub_vec(v: &Vec<char>, start: usize, end: usize) -> (r: Vec<char>)
    requires
        start <= end <= v.len(),
    ensures
        r@ == v@.subrange(start as int, end as int),
{
    let mut r: Vec<char> = Vec::new();
    let mut i = start;
    while i < end
        invariant
            start <= i <= end <= v.len(),
            r@ == v@.subrange(start as int, i as int),
        decreases end - i,
    {
        r.push(v[i]);
        i = i + 1;
        assert(r@ =~= v@.subrange(start as int, i as int));
    }
    r
}

/// Reads a decimal literal (see `spec_decimal`).
pub fn parse_decimal(value: &str) -> (r: Option<Decimal>)
    ensures
        r matches Some(d) ==> spec_decimal(value@) == Some(decimal_view(d)),
        r is None ==> spec_decimal(value@) is None,
{
    let t = crate::text::trim_str(value);
    let s = chars_of(t.as_str());
    let ghost sv = trim(value@);
    let signed = s.len() > 0 && (s[0] == '+' || s[0] == '-');
    let neg = s.len() > 0 && s[0] == '-';
    let start: usize = if signed {
        1
    } else {
        0
    };
    let ghost rest = if signed {
        sv.drop_first()
    } else {
        sv
    };
    assert(rest =~= s@.subrange(start as int, s.len() as int));
    let mut p = start;
    assert(rest.skip(0) =~= rest);
    while p < s.len() && s[p] != '.'
        invariant
            start <= p <= s.len(),
            rest == s@.subrange(start as int, s.len() as int),
            dot_pos(rest) == (p - start) + dot_pos(rest.skip(p - start)),
        decreases s.len() - p,
    {
        assert(rest.skip(p - start).drop_first() =~= rest.skip(p - start + 1));
        p = p + 1;
    }
    assert(dot_pos(rest.skip(p - start)) == 0);
    assert(rest.take(p - start) =~= s@.subrange(start as int, p as int));
    let int_ok = p > start && all_digits_range(&s, start, p);
    if p == s.len() {
        if int_ok {
            let d = Decimal {
                negative: neg,
                int_digits: sub_vec(&s, start, p),
                frac_digits: Vec::new(),
            };
            assert(decimal_view(d).2 =~= Seq::<char>::empty());
            return Some(d);
        }
        return None;
    }
    assert(rest.skip(p - start + 1) =~= s@.subrange(p + 1, s.len() as int));
    let frac_ok = p + 1 < s.len() && all_digits_range(&s, p + 1, s.len());
    if int_ok && frac_ok {
        Some(
            Decimal {
                negative: neg,
                int_digits: sub_vec(&s, start, p),
                frac_digits: sub_vec(&s, p + 1, s.len()),
            },
        )
    } else {
        None
    }
}

/// The digit at position `j` of `zeros(lead)` followed by the digits of `d`
/// scaled to `k` fraction digits.
fn padded_digit(d: &Decimal, lead: u128, k: u128, j: u128) -> (c: char)
    requires
        d.frac_digits.len() <= k,
        j < lead + d.int_digits.len() + k,
    ensures
        c == (zeros(lead as nat) + scaled_digits(d.int_digits@, d.frac_digits@, k as nat))[j as int],
{
    let ghost whole = zeros(lead as nat) + scaled_digits(d.int_digits@, d.frac_digits@, k as nat);
    let ghost sd = scaled_digits(d.int_digits@, d.frac_digits@, k as nat);
    let ia = d.int_digits.len() as u128;
    let fa = d.frac_digits.len() as u128;
    if j < lead {
        '0'
    } else if j - lead < ia {
        assert(whole[j as int] == sd[j - lead]);
        assert(sd[j - lead] == d.int_digits@[j - lead]);
        d.int_digits[(j - lead) as usize]
    } else if j - lead - ia < fa {
        assert(whole[j as int] == sd[j - lead]);
        assert(sd[j - lead] == d.frac_digits@[j - lead - ia]);
        d.frac_digits[(j - lead - ia) as usize]
    } else {
        assert(whole[j as int] == sd[j - lead]);
        assert(sd[j - lead] == zeros((k - fa) as nat)[j - lead - ia - fa]);
        '0'
    }
}

fn char_digit(c: char) -> (d: u32)
    ensures
        d as nat == digit_value(c),
{
    if '0' <= c && c <= '9' {
        c as u32 - '0' as u32
    } else {
        0
    }
}

/// Compares two padded decimals digit by digit.
fn padded_order(a: &Decimal, la: u128, b: &Decimal, lb: u128, k: u128) -> (c: i8)
    requires
        a.frac_digits.len() <= k <= 0xffff_ffff_ffff_ffff,
        b.frac_digits.len() <= k,
        la <= 0xffff_ffff_ffff_ffff,
        lb <= 0xffff_ffff_ffff_ffff,
        la + a.int_digits.len() == lb + b.int_digits.len(),
    ensures
        c as int == digits_order(
            zeros(la as nat) + scaled_digits(a.int_digits@, a.frac_digits@, k as nat),
            zeros(lb as nat) + scaled_digits(b.int_digits@, b.frac_digits@, k as nat),
        ),
        -1 <= c <= 1,
{
    let ghost pa = zeros(la as nat) + scaled_digits(a.int_digits@, a.frac_digits@, k as nat);
    let ghost pb = zeros(lb as nat) + scaled_digits(b.int_digits@, b.frac_digits@, k as nat);
    let w: u128 = la + a.int_digits.len() as u128 + k;
    assert(pa.len() == w && pb.len() == w);
    let mut c: i8 = 0;
    let mut j: u128 = 0;
    assert(pa.take(0) =~= Seq::<char>::empty());
    while j < w
        invariant
            j <= w,
            pa.len() == w,
            pb.len() == w,
            w == la + a.int_digits.len() + k,
            w == lb + b.int_digits.len() + k,
            a.frac_digits.len() <= k,
            b.frac_digits.len() <= k,
            pa == zeros(la as nat) + scaled_digits(a.int_digits@, a.frac_digits@, k as nat),
            pb == zeros(lb as nat) + scaled_digits(b.int_digits@, b.frac_digits@, k as nat),
            c as int == digits_order(pa.take(j as int), pb.take(j as int)),
            -1 <= c <= 1,
        decreases w - j,
    {
        assert(pa.take(j + 1).drop_last() =~= pa.take(j as int));
        assert(pb.take(j + 1).drop_last() =~= pb.take(j as int));
        assert(pa.take(j + 1).last() == pa[j as int]);
        assert(pb.take(j + 1).last() == pb[j as int]);
        if c == 0 {
            let da = char_digit(padded_digit(a, la, k, j));
            let db = char_digit(padded_digit(b, lb, k, j));
            if da < db {
                c = -1;
            } else if da > db {
                c = 1;
            }
        }
        j = j + 1;
    }
    assert(pa.take(w as int) =~= pa);
    assert(pb.take(w as int) =~= pb);
    c
}

/// Whether the digits of `d` (after `lead` zeros) have value zero.
fn padded_is_zero(d: &Decimal, lead: u128, k: u128) -> (z: bool)
    requires
        d.frac_digits.len() <= k <= 0xffff_ffff_ffff_ffff,
        lead <= 0xffff_ffff_ffff_ffff,
    ensures
        z == (digits_value(zeros(lead as nat) + scaled_digits(d.int_digits@, d.frac_digits@, k as nat))
            == 0),
{
    let ghost p = zeros(lead as nat) + scaled_digits(d.int_digits@, d.frac_digits@, k as nat);
    let w: u128 = lead + d.int_digits.len() as u128 + k;
    assert(p.len() == w);
    let mut j: u128 = 0;
    assert(p.take(0) =~= Seq::<char>::empty());
    while j < w
        invariant
            j <= w,
            p.len() == w,
            w == lead + d.int_digits.len() + k,
            d.frac_digits.len() <= k,
            p == zeros(lead as nat) + scaled_digits(d.int_digits@, d.frac_digits@, k as nat),
            digits_value(p.take(j as int)) == 0,
        decreases w - j,
    {
        assert(p.take(j + 1).drop_last() =~= p.take(j as int));
        assert(p.take(j + 1).last() == p[j as int]);
        let dj = char_digit(padded_digit(d, lead, k, j));
        if dj != 0 {
            proof {
                lemma_digits_value_prefix(p, j + 1);
            }
            return false;
        }
        j = j + 1;
    }
    assert(p.take(w as int) =~= p);
    true
}

/// Compares two decimals by exact value (see `decimal_order`).
pub fn compare_decimals(a: &Decimal, b: &Decimal) -> (c: i8)
    ensures
        c as int == decimal_order(decimal_view(*a), decimal_view(*b)),
{
    let k: u128 = if a.frac_digits.len() >= b.frac_digits.len() {
        a.frac_digits.len() as u128
    } else {
        b.frac_digits.len() as u128
    };
    let ia = a.int_digits.len() as u128;
    let ib = b.int_digits.len() as u128;
    let top = if ia >= ib {
        ia
    } else {
        ib
    };
    let la = top - ia;
    let lb = top - ib;
    let ghost sa = scaled_digits(a.int_digits@, a.frac_digits@, k as nat);
    let ghost sb = scaled_digits(b.int_digits@, b.frac_digits@, k as nat);
    proof {
        lemma_leading_zeros(la as nat, sa);
        lemma_leading_zeros(lb as nat, sb);
        lemma_leading_zeros(0, sa);
        lemma_leading_zeros(0, sb);
        lemma_digits_order(zeros(la as nat) + sa, zeros(lb as nat) + sb);
    }
    let mag = padded_order(a, la, b, lb, k);
    let a_zero = padded_is_zero(a, 0, k);
    let b_zero = padded_is_zero(b, 0, k);
    let an = a.negative && !a_zero;
    let bn = b.negative && !b_zero;
    if an && !bn {
        -1
    } else if !an && bn {
        1
    } else if an && bn {
        0 - mag
    } else {
        mag
    }
}

proof fn lemma_zeros_value(n: nat)
    ensures
        digits_value(zeros(n)) == 0,
    decreases n,
{
    if n > 0 {
        assert(zeros(n).drop_last() =~= zeros((n - 1) as nat));
        lemma_zeros_value((n - 1) as nat);
    }
}

} // verus!
