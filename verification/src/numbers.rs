//! Integer and decimal literals.
//!
//! Measurements are held as scaled integers: a reading with `scale` decimal
//! places is the integer nearest to zero-ward of the written value times
//! `10^scale`. Coordinates use seven places (1e-7 degree), every other
//! measurement three (millimetres, millimetres per second, millidegrees,
//! millivolts and so on).

use vstd::prelude::*;
use vstd::arithmetic::div_mod::lemma_div_denominator;

use crate::text::{copy_range, first_index_of, lemma_first_index_is};

verus! {

/// Decimal places of a coordinate.
pub const COORD_SCALE: u8 = 7;

/// Decimal places of every other measurement.
pub const MILLI_SCALE: u8 = 3;

/// Largest exponent, in absolute value, that a decimal literal may carry.
pub const EXPONENT_LIMIT: i64 = 400;

/// True for the ten ASCII digits.
pub open spec fn is_digit(c: char) -> bool {
    '0' <= c && c <= '9'
}

/// The value of an ASCII digit.
pub open spec fn digit_value(c: char) -> int {
    (c as u8) as int - 48
}

/// True when every character is an ASCII digit.
pub open spec fn all_digits(s: Seq<char>) -> bool {
    forall|i: int| 0 <= i < s.len() ==> is_digit(#[trigger] s[i])
}

/// The number that a string of decimal digits writes.
pub open spec fn digits_value(s: Seq<char>) -> nat
    decreases s.len(),
{
    if s.len() == 0 {
        0
    } else {
        (digits_value(s.drop_last()) * 10 + digit_value(s.last())) as nat
    }
}

/// Ten to the power of `n`.
pub open spec fn pow10(n: nat) -> nat
    decreases n,
{
    if n == 0 {
        1
    } else {
        10 * pow10((n - 1) as nat)
    }
}

/// The value of an integer literal: an optional sign and one or more digits.
pub open spec fn int_literal(s: Seq<char>) -> Option<int> {
    let signed = s.len() > 0 && (s[0] == '+' || s[0] == '-');
    let digits = if signed {
        s.drop_first()
    } else {
        s
    };
    if digits.len() > 0 && all_digits(digits) {
        Some(
            if s[0] == '-' {
                -(digits_value(digits) as int)
            } else {
                digits_value(digits) as int
            },
        )
    } else {
        None
    }
}

/// `x` as an `i64`, when it is one.
pub open spec fn in_i64(x: Option<int>) -> Option<i64> {
    match x {
        Some(v) => if i64::MIN <= v <= i64::MAX {
            Some(v as i64)
        } else {
            None
        },
        None => None,
    }
}

/// `x` as an `i32`, when it is one.
pub open spec fn in_i32(x: Option<int>) -> Option<i32> {
    match x {
        Some(v) => if i32::MIN <= v <= i32::MAX {
            Some(v as i32)
        } else {
            None
        },
        None => None,
    }
}

/// A power of ten is one at the least.
pub proof fn lemma_pow10_positive(n: nat)
    ensures
        pow10(n) >= 1,
    decreases n,
{
    if n > 0 {
        lemma_pow10_positive((n - 1) as nat);
    }
}

/// A higher power of ten is no smaller.
pub proof fn lemma_pow10_monotonic(a: nat, b: nat)
    requires
        a <= b,
    ensures
        pow10(a) <= pow10(b),
    decreases b,
{
    if a < b {
        lemma_pow10_monotonic(a, (b - 1) as nat);
        lemma_pow10_positive((b - 1) as nat);
    }
}

/// The first digits of a number write no more than all of them.
pub proof fn lemma_digits_value_take(s: Seq<char>, k: int)
    requires
        all_digits(s),
        0 <= k <= s.len(),
    ensures
        digits_value(s.take(k)) <= digits_value(s),
    decreases s.len(),
{
    if k < s.len() {
        let t = s.drop_last();
        assert(t.take(k) =~= s.take(k));
        assert(all_digits(t)) by {
            assert forall|i: int| 0 <= i < t.len() implies is_digit(#[trigger] t[i]) by {
                assert(t[i] == s[i]);
            }
        }
        lemma_digits_value_take(t, k);
        assert(is_digit(s[s.len() - 1]));
    } else {
        assert(s.take(k) =~= s);
    }
}

/// Dropping the last `k` digits divides the value by `10^k`.
pub proof fn lemma_digits_value_div(s: Seq<char>, k: nat)
    requires
        all_digits(s),
    ensures
        digits_value(s) / pow10(k) == digits_value(
            s.take(
                if k <= s.len() {
                    s.len() - k
                } else {
                    0
                },
            ),
        ),
    decreases k,
{
    lemma_pow10_positive(k);
    if k == 0 {
        assert(s.take(s.len() as int) =~= s);
    } else if s.len() == 0 {
        assert(s.take(0) =~= s);
    } else {
        let t = s.drop_last();
        assert(all_digits(t)) by {
            assert forall|i: int| 0 <= i < t.len() implies is_digit(#[trigger] t[i]) by {
                assert(t[i] == s[i]);
            }
        }
        assert(is_digit(s[s.len() - 1]));
        let v = digits_value(s) as int;
        let p = pow10((k - 1) as nat) as int;
        lemma_pow10_positive((k - 1) as nat);
        assert(v / 10 == digits_value(t));
        assert(pow10(k) == 10 * p);
        lemma_div_denominator(v, 10, p);
        lemma_digits_value_div(t, (k - 1) as nat);
        if k <= s.len() {
            assert(t.take(t.len() - (k - 1)) =~= s.take(s.len() - k));
        } else {
            assert(t.take(0) =~= s.take(0));
        }
    }
}

// ---------------------------------------------------------------------------
// Integer literals
// ---------------------------------------------------------------------------

/// Decides whether `c` is one of the ten ASCII digits.
pub fn char_is_digit(c: char) -> (r: bool)
    ensures
        r == is_digit(c),
{
    '0' <= c && c <= '9'
}

/// Reads the digits `v[from..to]` as a number no larger than `limit`.
fn read_digits(v: &Vec<char>, from: usize, to: usize, limit: u128) -> (r: Option<u128>)
    requires
        from <= to <= v.len(),
        all_digits(v@.subrange(from as int, to as int)),
        limit <= 0x8000_0000_0000_0000,
    ensures
        r == (if digits_value(v@.subrange(from as int, to as int)) <= limit {
            Some(digits_value(v@.subrange(from as int, to as int)) as u128)
        } else {
            None
        }),
{
    let ghost digits = v@.subrange(from as int, to as int);
    let mut acc: u128 = 0;
    let mut i: usize = from;
    assert(digits.take(0) =~= Seq::<char>::empty());
    while i < to
        invariant
            from <= i <= to <= v.len(),
            digits == v@.subrange(from as int, to as int),
            all_digits(digits),
            limit <= 0x8000_0000_0000_0000,
            acc == digits_value(digits.take(i - from)),
            acc <= limit,
        decreases to - i,
    {
        let c = v[i];
        proof {
            let prefix = digits.take(i - from + 1);
            assert(prefix.drop_last() =~= digits.take(i - from));
            assert(prefix.last() == c);
            assert(is_digit(digits[i - from]));
        }
        let d: u128 = ((c as u8) - 48) as u128;
        let next: u128 = acc * 10 + d;
        if next > limit {
            proof {
                lemma_digits_value_take(digits, i - from + 1);
            }
            return None;
        }
        acc = next;
        i += 1;
    }
    assert(digits.take(to - from) =~= digits);
    Some(acc)
}

/// Decides whether `v[from..to]` holds digits only.
fn digits_only(v: &Vec<char>, from: usize, to: usize) -> (r: bool)
    requires
        from <= to <= v.len(),
    ensures
        r == all_digits(v@.subrange(from as int, to as int)),
{
    let mut i: usize = from;
    while i < to
        invariant
            from <= i <= to <= v.len(),
            forall|j: int| from <= j < i ==> is_digit(#[trigger] v@[j]),
        decreases to - i,
    {
        if !char_is_digit(v[i]) {
            proof {
                let sub = v@.subrange(from as int, to as int);
                assert(sub[i - from] == v@[i as int]);
            }
            return false;
        }
        i += 1;
    }
    proof {
        let sub = v@.subrange(from as int, to as int);
        assert forall|j: int| 0 <= j < sub.len() implies is_digit(#[trigger] sub[j]) by {
            assert(sub[j] == v@[j + from]);
        }
    }
    true
}

/// Gives a magnitude its sign, when the result is an `i64`.
fn signed_value(negative: bool, magnitude: u128) -> (r: i64)
    requires
        magnitude <= 0x8000_0000_0000_0000,
        !negative ==> magnitude < 0x8000_0000_0000_0000,
    ensures
        r == (if negative {
            -(magnitude as int)
        } else {
            magnitude as int
        }),
{
    if negative {
        if magnitude == 0x8000_0000_0000_0000 {
            i64::MIN
        } else {
            -(magnitude as i64)
        }
    } else {
        magnitude as i64
    }
}

/// Reads an integer literal: an optional `+` or `-` and one or more ASCII
/// digits, nothing before and nothing after. The answer is `None` for any
/// other text and for a number that is no `i64`.
pub fn parse_i64(v: &Vec<char>) -> (r: Option<i64>)
    ensures
        r == in_i64(int_literal(v@)),
{
    let n = v.len();
    let signed = n > 0 && (v[0] == '+' || v[0] == '-');
    let negative = n > 0 && v[0] == '-';
    let from: usize = if signed { 1 } else { 0 };
    proof {
        if signed {
            assert(v@.drop_first() =~= v@.subrange(1, n as int));
        } else {
            assert(v@ =~= v@.subrange(0, n as int));
        }
    }
    if from == n || !digits_only(v, from, n) {
        return None;
    }
    let limit: u128 = if negative { 0x8000_0000_0000_0000 } else { 0x7fff_ffff_ffff_ffff };
    match read_digits(v, from, n, limit) {
        Some(m) => Some(signed_value(negative, m)),
        None => None,
    }
}

/// Reads an integer literal as `parse_i64` does; the answer is `None` for a
/// number that is no `i32`.
pub fn parse_i32(v: &Vec<char>) -> (r: Option<i32>)
    ensures
        r == in_i32(int_literal(v@)),
{
    match parse_i64(v) {
        Some(x) => if -0x8000_0000 <= x && x <= 0x7fff_ffff {
            Some(x as i32)
        } else {
            None
        },
        None => None,
    }
}

// ---------------------------------------------------------------------------
// Decimal literals
// ---------------------------------------------------------------------------

/// True for the letter that begins an exponent.
pub open spec fn is_exponent_mark(c: char) -> bool {
    c == 'e' || c == 'E'
}

/// Index of the first `e` or `E` in `s`, or `s.len()` when there is none.
pub open spec fn first_exponent_mark(s: Seq<char>) -> int
    decreases s.len(),
{
    if s.len() == 0 || is_exponent_mark(s[0]) {
        0
    } else {
        1 + first_exponent_mark(s.drop_first())
    }
}

/// The first exponent mark stands where no mark stands before.
pub proof fn lemma_first_exponent_mark_is(s: Seq<char>, n: int)
    requires
        0 <= n <= s.len(),
        forall|i: int| 0 <= i < n ==> !is_exponent_mark(#[trigger] s[i]),
        n < s.len() ==> is_exponent_mark(s[n]),
    ensures
        first_exponent_mark(s) == n,
    decreases s.len(),
{
    if n > 0 {
        let t = s.drop_first();
        assert(!is_exponent_mark(s[0]));
        assert forall|i: int| 0 <= i < n - 1 implies !is_exponent_mark(#[trigger] t[i]) by {
            assert(t[i] == s[i + 1]);
        }
        lemma_first_exponent_mark_is(t, n - 1);
    }
}

/// The written digits `all`, of which the last `frac_len` stand behind the
/// decimal point, times `10^(exponent + scale)`, cut off toward zero.
pub open spec fn scaled_magnitude(all: Seq<char>, frac_len: nat, exponent: int, scale: nat) -> nat {
    let shift = exponent + scale - frac_len;
    if shift >= 0 {
        digits_value(all) * pow10(shift as nat)
    } else {
        digits_value(all) / pow10((-shift) as nat)
    }
}

/// The parts of a decimal literal, once its sign is taken off.
pub struct DecimalParts {
    pub int_digits: Seq<char>,
    pub frac_digits: Seq<char>,
    pub exponent: Option<int>,
}

/// Cuts an unsigned decimal literal at its point and at its exponent mark.
pub open spec fn decimal_parts(body: Seq<char>) -> DecimalParts {
    let mark = first_exponent_mark(body);
    let mantissa = body.take(mark);
    let dot = first_index_of(mantissa, '.');
    DecimalParts {
        int_digits: mantissa.take(dot),
        frac_digits: if dot < mantissa.len() {
            mantissa.skip(dot + 1)
        } else {
            Seq::<char>::empty()
        },
        exponent: if mark < body.len() {
            int_literal(body.skip(mark + 1))
        } else {
            Some(0int)
        },
    }
}

/// True when the parts make a number: digits only on both sides of the
/// point, at least one digit, and an exponent within the limit.
pub open spec fn decimal_parts_ok(p: DecimalParts) -> bool {
    &&& all_digits(p.int_digits)
    &&& all_digits(p.frac_digits)
    &&& p.int_digits.len() + p.frac_digits.len() > 0
    &&& p.exponent matches Some(e) && -EXPONENT_LIMIT <= e <= EXPONENT_LIMIT
}

/// The value of a decimal literal at `scale` decimal places, cut off toward
/// zero. The literal is an optional sign, digits with at most one point
/// among them, and an optional exponent (`e` or `E`, then an integer
/// literal). Anything else, `inf` and `nan` among it, is no number.
pub open spec fn decimal_literal(s: Seq<char>, scale: nat) -> Option<int> {
    let p = decimal_parts(unsigned_body(s));
    if decimal_parts_ok(p) {
        let m = scaled_magnitude(
            p.int_digits + p.frac_digits,
            p.frac_digits.len(),
            p.exponent->0,
            scale,
        );
        Some(
            if s[0] == '-' {
                -(m as int)
            } else {
                m as int
            },
        )
    } else {
        None
    }
}

/// True when a text begins, behind its sign, with a character that begins
/// no number, or holds nothing there: so `NaN`, `nan`, `inf`, `-inf` and
/// `Infinity` do.
pub open spec fn begins_no_number(s: Seq<char>) -> bool {
    let body = unsigned_body(s);
    body.len() == 0 || (!is_digit(body[0]) && body[0] != '.')
}

/// A text that begins with what begins no number writes no number.
pub proof fn lemma_no_number(s: Seq<char>, scale: nat)
    requires
        begins_no_number(s),
    ensures
        decimal_literal(s, scale) is None,
{
    let body = unsigned_body(s);
    let parts = decimal_parts(body);
    let mark = first_exponent_mark(body);
    if body.len() == 0 || is_exponent_mark(body[0]) {
        assert(mark == 0);
        assert(parts.int_digits.len() + parts.frac_digits.len() == 0);
    } else {
        lemma_first_exponent_mark_bound(body.drop_first());
        lemma_first_exponent_mark_bound(body);
        assert(mark >= 1);
        let mantissa = body.take(mark);
        assert(mantissa[0] == body[0]);
        let dot = first_index_of(mantissa, '.');
        lemma_first_index_bound(mantissa.drop_first(), '.');
        lemma_first_index_bound(mantissa, '.');
        assert(dot >= 1);
        assert(parts.int_digits[0] == body[0]);
        assert(!all_digits(parts.int_digits));
    }
}

/// The first index of a character lies within the text or at its end.
pub proof fn lemma_first_index_bound(s: Seq<char>, c: char)
    ensures
        0 <= first_index_of(s, c) <= s.len(),
    decreases s.len(),
{
    if s.len() > 0 && s[0] != c {
        lemma_first_index_bound(s.drop_first(), c);
    }
}

/// The first exponent mark stands within the text or at its end.
pub proof fn lemma_first_exponent_mark_bound(s: Seq<char>)
    ensures
        0 <= first_exponent_mark(s) <= s.len(),
    decreases s.len(),
{
    if s.len() > 0 && !is_exponent_mark(s[0]) {
        lemma_first_exponent_mark_bound(s.drop_first());
    }
}

/// Multiplies `x` by `10^shift`, as long as the product stays within `limit`.
fn scale_up(x: u128, shift: u64, limit: u128) -> (r: Option<u128>)
    requires
        x <= limit,
        limit <= 0x8000_0000_0000_0000,
    ensures
        r == (if x * pow10(shift as nat) <= limit {
            Some((x * pow10(shift as nat)) as u128)
        } else {
            None
        }),
{
    if x == 0 {
        assert(0 * pow10(shift as nat) == 0);
        return Some(0);
    }
    let mut acc: u128 = x;
    let mut k: u64 = 0;
    assert(x * pow10(0) == x) by {
        assert(pow10(0) == 1);
    }
    while k < shift
        invariant
            k <= shift,
            x >= 1,
            acc == x * pow10(k as nat),
            acc <= limit,
            limit <= 0x8000_0000_0000_0000,
        decreases shift - k,
    {
        let next: u128 = acc * 10;
        proof {
            assert(pow10((k + 1) as nat) == 10 * pow10(k as nat));
            assert(x * pow10((k + 1) as nat) == (x * pow10(k as nat)) * 10) by (nonlinear_arith)
                requires
                    pow10((k + 1) as nat) == 10 * pow10(k as nat),
            ;
        }
        if next > limit {
            proof {
                lemma_pow10_monotonic((k + 1) as nat, shift as nat);
                assert(x * pow10((k + 1) as nat) <= x * pow10(shift as nat)) by (nonlinear_arith)
                    requires
                        pow10((k + 1) as nat) <= pow10(shift as nat),
                        x >= 1,
                ;
            }
            return None;
        }
        acc = next;
        k += 1;
    }
    Some(acc)
}

/// Where the parts of a decimal literal stand in its text.
struct Layout {
    start: usize,
    dot: usize,
    frac_from: usize,
    mark: usize,
}

/// The text behind the sign.
pub open spec fn unsigned_body(s: Seq<char>) -> Seq<char> {
    if s.len() > 0 && (s[0] == '+' || s[0] == '-') {
        s.drop_first()
    } else {
        s
    }
}

/// Finds the sign, the point and the exponent mark.
fn layout_of(v: &Vec<char>) -> (l: Layout)
    ensures
        l.start <= l.dot <= l.frac_from <= l.mark <= v.len(),
        unsigned_body(v@) == v@.subrange(l.start as int, v.len() as int),
        first_exponent_mark(unsigned_body(v@)) == l.mark - l.start,
        decimal_parts(unsigned_body(v@)).int_digits == v@.subrange(l.start as int, l.dot as int),
        decimal_parts(unsigned_body(v@)).frac_digits == v@.subrange(
            l.frac_from as int,
            l.mark as int,
        ),
{
    let n = v.len();
    let signed = n > 0 && (v[0] == '+' || v[0] == '-');
    let start: usize = if signed { 1 } else { 0 };
    let ghost body = v@.subrange(start as int, n as int);
    proof {
        if signed {
            assert(v@.drop_first() =~= body);
        } else {
            assert(v@ =~= body);
        }
    }
    let mut mark: usize = start;
    while mark < n && v[mark] != 'e' && v[mark] != 'E'
        invariant
            start <= mark <= n,
            n == v.len(),
            forall|j: int| start <= j < mark ==> !is_exponent_mark(#[trigger] v@[j]),
        decreases n - mark,
    {
        mark += 1;
    }
    let ghost mantissa = body.take(mark - start);
    proof {
        assert forall|i: int| 0 <= i < mark - start implies !is_exponent_mark(
            #[trigger] body[i],
        ) by {
            assert(body[i] == v@[i + start]);
        }
        lemma_first_exponent_mark_is(body, mark - start);
        assert(mantissa =~= v@.subrange(start as int, mark as int));
    }
    let mut dot: usize = start;
    while dot < mark && v[dot] != '.'
        invariant
            start <= dot <= mark,
            mark <= v.len(),
            forall|j: int| start <= j < dot ==> #[trigger] v@[j] != '.',
        decreases mark - dot,
    {
        dot += 1;
    }
    let frac_from: usize = if dot < mark { dot + 1 } else { mark };
    proof {
        let p = decimal_parts(body);
        assert forall|i: int| 0 <= i < dot - start implies #[trigger] mantissa[i] != '.' by {
            assert(mantissa[i] == v@[i + start]);
        }
        lemma_first_index_is(mantissa, '.', dot - start);
        assert(p.int_digits =~= v@.subrange(start as int, dot as int));
        assert(p.frac_digits =~= v@.subrange(frac_from as int, mark as int));
    }
    Layout { start, dot, frac_from, mark }
}

/// Computes the scaled magnitude of the digits `all`, as long as it stays
/// within `limit`.
fn magnitude_of(all: &Vec<char>, frac_len: usize, e: i64, scale: u8, limit: u128) -> (r: Option<
    u128,
>)
    requires
        all_digits(all@),
        -EXPONENT_LIMIT <= e <= EXPONENT_LIMIT,
        limit <= 0x8000_0000_0000_0000,
    ensures
        r == (if scaled_magnitude(all@, frac_len as nat, e as int, scale as nat) <= limit {
            Some(scaled_magnitude(all@, frac_len as nat, e as int, scale as nat) as u128)
        } else {
            None
        }),
{
    let shift: i128 = (e as i128) + (scale as i128) - (frac_len as i128);
    let ghost digits = all@;
    let ghost m = scaled_magnitude(digits, frac_len as nat, e as int, scale as nat);
    let keep: usize = if shift >= 0 {
        all.len()
    } else if -shift >= all.len() as i128 {
        0
    } else {
        (all.len() as i128 + shift) as usize
    };
    proof {
        assert(all@.subrange(0, keep as int) =~= digits.take(keep as int));
        assert(all_digits(digits.take(keep as int))) by {
            assert forall|j: int| 0 <= j < keep implies is_digit(
                #[trigger] digits.take(keep as int)[j],
            ) by {
                assert(digits.take(keep as int)[j] == digits[j]);
            }
        }
        if shift < 0 {
            lemma_digits_value_div(digits, (-shift) as nat);
            assert(m == digits_value(digits.take(keep as int)));
        } else {
            assert(digits.take(keep as int) =~= digits);
            lemma_pow10_positive(shift as nat);
            assert(m >= digits_value(digits)) by (nonlinear_arith)
                requires
                    m == digits_value(digits) * pow10(shift as nat),
                    pow10(shift as nat) >= 1,
            ;
        }
    }
    match read_digits(all, 0, keep, limit) {
        Some(kept) => {
            if shift > 0 {
                scale_up(kept, shift as u64, limit)
            } else {
                proof {
                    if shift == 0 {
                        assert(pow10(0) == 1);
                        assert(m == digits_value(digits) * 1);
                    }
                }
                Some(kept)
            }
        },
        None => None,
    }
}

/// Reads a decimal literal at `scale` decimal places. The answer is `None`
/// for a text that is no decimal literal and for a value that is no `i64`.
pub fn parse_decimal(v: &Vec<char>, scale: u8) -> (r: Option<i64>)
    ensures
        r == in_i64(decimal_literal(v@, scale as nat)),
{
    let n = v.len();
    let negative = n > 0 && v[0] == '-';
    let l = layout_of(v);
    let ghost body = unsigned_body(v@);
    let ghost p = decimal_parts(body);
    let exponent: Option<i64> = if l.mark < n {
        let tail = copy_range(v, l.mark + 1, n);
        proof {
            assert(body.skip(l.mark - l.start + 1) =~= tail@);
        }
        parse_i64(&tail)
    } else {
        Some(0)
    };
    let int_ok = digits_only(v, l.start, l.dot);
    let frac_ok = digits_only(v, l.frac_from, l.mark);
    if !int_ok || !frac_ok || (l.dot - l.start) + (l.mark - l.frac_from) == 0 {
        return None;
    }
    let e: i64 = match exponent {
        Some(e) => e,
        None => {
            return None;
        },
    };
    if e < -EXPONENT_LIMIT || e > EXPONENT_LIMIT {
        return None;
    }
    assert(decimal_parts_ok(p));
    let mut all = copy_range(v, l.start, l.dot);
    let mut i: usize = l.frac_from;
    while i < l.mark
        invariant
            l.frac_from <= i <= l.mark <= v.len(),
            all@ =~= v@.subrange(l.start as int, l.dot as int) + v@.subrange(
                l.frac_from as int,
                i as int,
            ),
        decreases l.mark - i,
    {
        all.push(v[i]);
        i += 1;
    }
    proof {
        let digits = p.int_digits + p.frac_digits;
        assert(all@ =~= digits);
        assert(all_digits(digits)) by {
            assert forall|j: int| 0 <= j < digits.len() implies is_digit(#[trigger] digits[j]) by {
                if j < p.int_digits.len() {
                    assert(digits[j] == p.int_digits[j]);
                } else {
                    assert(digits[j] == p.frac_digits[j - p.int_digits.len()]);
                }
            }
        }
    }
    let limit: u128 = if negative { 0x8000_0000_0000_0000 } else { 0x7fff_ffff_ffff_ffff };
    match magnitude_of(&all, l.mark - l.frac_from, e, scale, limit) {
        Some(m) => Some(signed_value(negative, m)),
        None => None,
    }
}

// ---------------------------------------------------------------------------
// Writing numbers
// ---------------------------------------------------------------------------

/// The character of a digit.
pub open spec fn digit_char(d: int) -> char {
    ((48 + d) as u8) as char
}

/// The decimal digits of a number, without leading zeros.
pub open spec fn decimal_text(n: nat) -> Seq<char>
    decreases n,
{
    if n < 10 {
        seq![digit_char(n as int)]
    } else {
        decimal_text(n / 10).push(digit_char((n % 10) as int))
    }
}

/// Writes a number in decimal digits.
pub fn write_decimal(n: u64) -> (text: String)
    ensures
        text@ == decimal_text(n as nat),
{
    let mut low: Vec<u8> = Vec::new();
    let mut rest: u64 = n;
    while rest >= 10
        invariant
            decimal_text(n as nat) == decimal_text(rest as nat) + Seq::new(
                low@.len(),
                |i: int| digit_char(low@[low@.len() - 1 - i] as int),
            ),
            forall|i: int| 0 <= i < low@.len() ==> low@[i] < 10,
        decreases rest,
    {
        let ghost before = Seq::new(
            low@.len(),
            |i: int| digit_char(low@[low@.len() - 1 - i] as int),
        );
        let d: u8 = (rest % 10) as u8;
        proof {
            assert(decimal_text(rest as nat) == decimal_text((rest / 10) as nat).push(
                digit_char(d as int),
            ));
        }
        low.push(d);
        rest = rest / 10;
        proof {
            let after = Seq::new(low@.len(), |i: int| digit_char(low@[low@.len() - 1 - i] as int));
            assert(after =~= seq![digit_char(d as int)] + before);
            assert(decimal_text(rest as nat).push(digit_char(d as int)) + before
                =~= decimal_text(rest as nat) + after);
        }
    }
    let mut text = String::new();
    text.push(((48 + rest) as u8) as char);
    let mut i: usize = low.len();
    while i > 0
        invariant
            i <= low.len(),
            rest < 10,
            forall|k: int| 0 <= k < low@.len() ==> low@[k] < 10,
            text@ == decimal_text(rest as nat) + Seq::new(
                (low@.len() - i) as nat,
                |k: int| digit_char(low@[low@.len() - 1 - k] as int),
            ),
        decreases i,
    {
        i -= 1;
        text.push(((48 + low[i]) as u8) as char);
        proof {
            assert(text@ =~= decimal_text(rest as nat) + Seq::new(
                (low@.len() - i) as nat,
                |k: int| digit_char(low@[low@.len() - 1 - k] as int),
            ));
        }
    }
    text
}

} // verus!
