//! Column fields of fixed-width records: unsigned integers padded with blanks
//! or zeros, decimals with a written point, signed fractions with an implied
//! leading zero, and exponent-style numbers with an implied leading `0.`.
//!
//! Decoding accepts every legal spelling of a field; encoding writes its
//! canonical spelling, and decoding an encoding gives the value back.

use vstd::arithmetic::div_mod::{lemma_fundamental_div_mod, lemma_mod_breakdown};
use vstd::prelude::*;

use crate::checksum::is_digit;

verus! {

pub open spec fn pow10(n: nat) -> nat
    decreases n,
{
    if n == 0 {
        1
    } else {
        10 * pow10((n - 1) as nat)
    }
}

pub open spec fn all_digits(s: Seq<u8>) -> bool {
    forall|i: int| 0 <= i < s.len() ==> is_digit(#[trigger] s[i])
}

/// The number written by the decimal digits `s`, most significant first.
pub open spec fn digits_value(s: Seq<u8>) -> nat
    decreases s.len(),
{
    if s.len() == 0 {
        0
    } else {
        digits_value(s.drop_last()) * 10 + (s.last() - 48) as nat
    }
}

/// The last `w` decimal digits of `v`, with leading zeros.
pub open spec fn zero_padded(v: nat, w: nat) -> Seq<u8>
    decreases w,
{
    if w == 0 {
        Seq::empty()
    } else {
        zero_padded(v / 10, (w - 1) as nat).push((v % 10 + 48) as u8)
    }
}

/// How many digits `v` takes without leading zeros.
pub open spec fn num_digits(v: nat) -> nat
    decreases v,
{
    if v < 10 {
        1
    } else {
        1 + num_digits(v / 10)
    }
}

pub open spec fn blanks(n: nat) -> Seq<u8> {
    Seq::new(n, |i: int| 32u8)
}

/// `v` right-justified in `w` columns, with blanks in front.
pub open spec fn space_padded(v: nat, w: nat) -> Seq<u8> {
    blanks((w - num_digits(v)) as nat) + zero_padded(v, num_digits(v))
}

/// An unsigned integer field: blanks, then digits. An all-blank field is zero.
pub open spec fn decode_uint(s: Seq<u8>) -> Option<nat>
    decreases s.len(),
{
    if s.len() == 0 {
        Some(0)
    } else if s[0] == 32 {
        decode_uint(s.drop_first())
    } else if all_digits(s) {
        Some(digits_value(s))
    } else {
        None
    }
}

/// A decimal field of `wi` integer columns, a point and `f` fraction digits,
/// read as a whole number of units of `10^-f`.
pub open spec fn decode_fixed(s: Seq<u8>, wi: nat, f: nat) -> Option<nat> {
    if s.len() != wi + 1 + f || s[wi as int] != 46 || !all_digits(s.subrange(wi + 1int, s.len() as int)) {
        None
    } else {
        match decode_uint(s.subrange(0, wi as int)) {
            Some(ip) => Some(ip * pow10(f) + digits_value(s.subrange(wi + 1int, s.len() as int))),
            None => None,
        }
    }
}

/// The canonical spelling of a decimal field; the integer part is padded
/// with zeros or with blanks.
pub open spec fn encode_fixed(v: nat, wi: nat, f: nat, zeros: bool) -> Seq<u8> {
    let ip = v / pow10(f);
    (if zeros {
        zero_padded(ip, wi)
    } else {
        space_padded(ip, wi)
    }) + seq![46u8] + zero_padded(v % pow10(f), f)
}

/// The sign written in a sign column: blank or `+` is positive, `-` negative.
/// `Some(true)` means negative.
pub open spec fn decode_sign(c: u8) -> Option<bool> {
    if c == 32 || c == 43 {
        Some(false)
    } else if c == 45 {
        Some(true)
    } else {
        None
    }
}

pub open spec fn signed(neg: bool, m: nat) -> int {
    if neg {
        -m
    } else {
        m as int
    }
}

pub open spec fn abs(v: int) -> nat {
    if v < 0 {
        (-v) as nat
    } else {
        v as nat
    }
}

/// A signed fraction with an implied leading zero: a sign, a point and digits,
/// read as a whole number of units of the last digit.
pub open spec fn decode_signed_fraction(s: Seq<u8>) -> Option<int> {
    if s.len() < 2 || s[1] != 46 || !all_digits(s.subrange(2, s.len() as int)) {
        None
    } else {
        match decode_sign(s[0]) {
            Some(neg) => Some(signed(neg, digits_value(s.subrange(2, s.len() as int)))),
            None => None,
        }
    }
}

/// The canonical spelling of a signed fraction with `f` digits: a blank for
/// a non-negative value, `-` for a negative one.
pub open spec fn encode_signed_fraction(v: int, f: nat) -> Seq<u8> {
    seq![if v < 0 { 45u8 } else { 32u8 }, 46u8] + zero_padded(abs(v), f)
}

/// An exponent-style number: mantissa `m` (of `0.ddddd`, in units of `10^-5`)
/// times ten to the power `e`.
#[derive(Debug, Clone, Copy, PartialEq, Eq, Structural)]
pub struct ExpValue {
    pub mantissa: i32,
    pub exponent: i8,
}

impl ExpValue {
    pub open spec fn wf(self) -> bool {
        -99999 <= self.mantissa <= 99999 && -9 <= self.exponent <= 9
    }
}

/// An exponent-style field of eight columns: mantissa sign, five mantissa
/// digits, exponent sign, exponent digit. A blank exponent sign is a `+`.
pub open spec fn decode_exp(s: Seq<u8>) -> Option<ExpValue> {
    if s.len() != 8 || !all_digits(s.subrange(1, 6)) || !is_digit(s[7]) {
        None
    } else {
        match (decode_sign(s[0]), decode_sign(s[6])) {
            (Some(mneg), Some(eneg)) => Some(
                ExpValue {
                    mantissa: signed(mneg, digits_value(s.subrange(1, 6))) as i32,
                    exponent: signed(eneg, (s[7] - 48) as nat) as i8,
                },
            ),
            _ => None,
        }
    }
}

/// The canonical spelling of an exponent-style field: blank or `-` before
/// the mantissa, `+` or `-` before the exponent.
pub open spec fn encode_exp(x: ExpValue) -> Seq<u8> {
    seq![if x.mantissa < 0 { 45u8 } else { 32u8 }] + zero_padded(abs(x.mantissa as int), 5) + seq![
        if x.exponent < 0 { 45u8 } else { 43u8 },
        (abs(x.exponent as int) + 48) as u8,
    ]
}

pub proof fn lemma_pow10_positive(n: nat)
    ensures
        pow10(n) >= 1,
    decreases n,
{
    if n > 0 {
        lemma_pow10_positive((n - 1) as nat);
    }
}

pub proof fn lemma_pow10_add(a: nat, b: nat)
    ensures
        pow10(a + b) == pow10(a) * pow10(b),
    decreases a,
{
    if a == 0 {
        assert(pow10(0) == 1);
        assert(a + b == b);
    } else {
        lemma_pow10_add((a - 1) as nat, b);
        assert(pow10(a) == 10 * pow10((a - 1) as nat));
        assert(pow10(a + b) == 10 * pow10((a - 1 + b) as nat));
        assert(10 * (pow10((a - 1) as nat) * pow10(b)) == (10 * pow10((a - 1) as nat)) * pow10(b))
            by (nonlinear_arith);
    }
}

pub proof fn lemma_pow10_mono(a: nat, b: nat)
    requires
        a <= b,
    ensures
        pow10(a) <= pow10(b),
    decreases b,
{
    if a < b {
        lemma_pow10_mono(a, (b - 1) as nat);
        lemma_pow10_positive((b - 1) as nat);
    }
}

pub proof fn lemma_digits_value_bound(s: Seq<u8>)
    requires
        all_digits(s),
    ensures
        digits_value(s) < pow10(s.len()),
    decreases s.len(),
{
    if s.len() > 0 {
        let init = s.drop_last();
        assert(all_digits(init)) by {
            assert forall|i: int| 0 <= i < init.len() implies is_digit(#[trigger] init[i]) by {
                assert(init[i] == s[i]);
            }
        }
        lemma_digits_value_bound(init);
        assert(is_digit(s[s.len() - 1]));
        let d = (s.last() - 48) as nat;
        let p = pow10(init.len());
        assert(digits_value(init) * 10 + d < p * 10) by (nonlinear_arith)
            requires
                digits_value(init) < p,
                d <= 9,
        ;
    }
}

pub proof fn lemma_zero_padded(v: nat, w: nat)
    ensures
        zero_padded(v, w).len() == w,
        all_digits(zero_padded(v, w)),
        digits_value(zero_padded(v, w)) == v % pow10(w),
    decreases w,
{
    lemma_pow10_positive(w);
    if w > 0 {
        let w1 = (w - 1) as nat;
        lemma_zero_padded(v / 10, w1);
        let s = zero_padded(v, w);
        let init = zero_padded(v / 10, w1);
        assert(s.drop_last() =~= init);
        assert(all_digits(s)) by {
            assert forall|i: int| 0 <= i < s.len() implies is_digit(#[trigger] s[i]) by {
                if i < w1 {
                    assert(s[i] == init[i]);
                }
            }
        }
        lemma_pow10_positive(w1);
        lemma_mod_breakdown(v as int, 10, pow10(w1) as int);
        assert(digits_value(s) == digits_value(init) * 10 + v % 10);
        assert(10 * ((v / 10) % pow10(w1)) == ((v / 10) % pow10(w1)) * 10) by (nonlinear_arith);
    }
}

pub proof fn lemma_num_digits(v: nat, w: nat)
    ensures
        num_digits(v) >= 1,
        v < pow10(num_digits(v)),
        v < pow10(w) && w >= 1 ==> num_digits(v) <= w,
    decreases v,
{
    reveal_with_fuel(pow10, 2);
    if v >= 10 {
        let w1: nat = if w > 0 {
            (w - 1) as nat
        } else {
            0
        };
        lemma_num_digits(v / 10, w1);
        let n1 = num_digits(v / 10);
        lemma_fundamental_div_mod(v as int, 10);
        assert(v < pow10(n1 + 1)) by {
            assert(pow10(n1 + 1) == 10 * pow10(n1));
        }
        if v < pow10(w) && w >= 1 {
            assert(pow10(w) == 10 * pow10(w1));
            assert(v / 10 < pow10(w1));
            if w1 == 0 {
                assert(v < 10);
            }
        }
    }
}

pub proof fn lemma_decode_blanks(n: nat, t: Seq<u8>)
    ensures
        decode_uint(blanks(n) + t) == decode_uint(t),
    decreases n,
{
    if n > 0 {
        let s = blanks(n) + t;
        assert(s[0] == 32);
        assert(s.drop_first() =~= blanks((n - 1) as nat) + t);
        lemma_decode_blanks((n - 1) as nat, t);
    } else {
        assert(blanks(n) + t =~= t);
    }
}

/// Blanks at the front of a field do not change what it decodes to.
pub proof fn lemma_decode_skip(s: Seq<u8>, k: int)
    requires
        0 <= k <= s.len(),
        forall|j: int| 0 <= j < k ==> s[j] == 32,
    ensures
        decode_uint(s) == decode_uint(s.subrange(k, s.len() as int)),
    decreases k,
{
    if k > 0 {
        let t = s.drop_first();
        assert forall|j: int| 0 <= j < k - 1 implies t[j] == 32 by {
            assert(t[j] == s[j + 1]);
        }
        lemma_decode_skip(t, k - 1);
        assert(t.subrange(k - 1, t.len() as int) =~= s.subrange(k, s.len() as int));
    } else {
        assert(s.subrange(0, s.len() as int) =~= s);
    }
}

pub proof fn lemma_decode_digits(s: Seq<u8>)
    requires
        all_digits(s),
        s.len() > 0,
    ensures
        decode_uint(s) == Some(digits_value(s)),
{
    assert(is_digit(s[0]));
}

pub proof fn lemma_zero_padded_round_trip(v: nat, w: nat)
    requires
        v < pow10(w),
        w >= 1,
    ensures
        zero_padded(v, w).len() == w,
        decode_uint(zero_padded(v, w)) == Some(v),
{
    lemma_zero_padded(v, w);
    lemma_decode_digits(zero_padded(v, w));
    vstd::arithmetic::div_mod::lemma_small_mod(v, pow10(w));
}

pub proof fn lemma_space_padded_round_trip(v: nat, w: nat)
    requires
        v < pow10(w),
        w >= 1,
    ensures
        space_padded(v, w).len() == w,
        decode_uint(space_padded(v, w)) == Some(v),
{
    lemma_num_digits(v, w);
    let n = num_digits(v);
    lemma_zero_padded_round_trip(v, n);
    lemma_decode_blanks((w - n) as nat, zero_padded(v, n));
}

pub proof fn lemma_fixed_round_trip(v: nat, wi: nat, f: nat, zeros: bool)
    requires
        v < pow10(wi + f),
        wi >= 1,
    ensures
        encode_fixed(v, wi, f, zeros).len() == wi + 1 + f,
        decode_fixed(encode_fixed(v, wi, f, zeros), wi, f) == Some(v),
{
    let p = pow10(f);
    lemma_pow10_positive(f);
    lemma_pow10_add(wi, f);
    let ip = v / p;
    lemma_fundamental_div_mod(v as int, p as int);
    assert(ip < pow10(wi)) by (nonlinear_arith)
        requires
            v < pow10(wi) * p,
            v == p * ip + v % p,
            0 <= v % p,
            p >= 1,
    ;
    let head = if zeros {
        zero_padded(ip, wi)
    } else {
        space_padded(ip, wi)
    };
    if zeros {
        lemma_zero_padded_round_trip(ip, wi);
    } else {
        lemma_space_padded_round_trip(ip, wi);
    }
    lemma_zero_padded(v % p, f);
    vstd::arithmetic::div_mod::lemma_small_mod((v % p) as nat, p);
    let s = encode_fixed(v, wi, f, zeros);
    assert(s.subrange(0, wi as int) =~= head);
    assert(s.subrange(wi + 1int, s.len() as int) =~= zero_padded(v % p, f));
    assert(ip * p == p * ip) by (nonlinear_arith);
}

pub proof fn lemma_signed_fraction_round_trip(v: int, f: nat)
    requires
        abs(v) < pow10(f),
    ensures
        encode_signed_fraction(v, f).len() == f + 2,
        decode_signed_fraction(encode_signed_fraction(v, f)) == Some(v),
{
    let s = encode_signed_fraction(v, f);
    lemma_zero_padded(abs(v), f);
    vstd::arithmetic::div_mod::lemma_small_mod(abs(v), pow10(f));
    assert(s.subrange(2, s.len() as int) =~= zero_padded(abs(v), f));
}

pub proof fn lemma_exp_round_trip(x: ExpValue)
    requires
        x.wf(),
    ensures
        encode_exp(x).len() == 8,
        decode_exp(encode_exp(x)) == Some(x),
{
    let s = encode_exp(x);
    let m = abs(x.mantissa as int);
    lemma_zero_padded(m, 5);
    lemma_pow10_5();
    vstd::arithmetic::div_mod::lemma_small_mod(m, pow10(5));
    assert(s.subrange(1, 6) =~= zero_padded(m, 5));
}

pub proof fn lemma_pow10_5()
    ensures
        pow10(5) == 100000,
{
    reveal_with_fuel(pow10, 6);
}

/// A blank exponent sign reads exactly as an explicit `+`.
pub proof fn lemma_blank_exponent_sign(s: Seq<u8>)
    requires
        s.len() == 8,
        s[6] == 32,
    ensures
        decode_exp(s) == decode_exp(s.update(6, 43)),
{
    let t = s.update(6, 43);
    assert(t.subrange(1, 6) =~= s.subrange(1, 6));
}

pub proof fn lemma_pow10_18()
    ensures
        pow10(18) == 1_000_000_000_000_000_000,
{
    reveal_with_fuel(pow10, 19);
}

proof fn lemma_all_digits_extend(s: Seq<u8>, a: int, j: int)
    requires
        0 <= a <= j < s.len(),
        all_digits(s.subrange(a, j)),
        is_digit(s[j]),
    ensures
        all_digits(s.subrange(a, j + 1)),
        s.subrange(a, j + 1).drop_last() =~= s.subrange(a, j),
        s.subrange(a, j + 1).last() == s[j],
{
    let t = s.subrange(a, j + 1);
    assert forall|i: int| 0 <= i < t.len() implies is_digit(#[trigger] t[i]) by {
        if i < j - a {
            assert(t[i] == s.subrange(a, j)[i]);
        }
    }
}

/// The number written by `s[start..]`, if that is all digits.
pub fn digits_from(s: &[u8], start: usize) -> (r: Option<u64>)
    requires
        start <= s@.len(),
        s@.len() - start <= 18,
    ensures
        r is Some <==> all_digits(s@.subrange(start as int, s@.len() as int)),
        r matches Some(v) ==> v as nat == digits_value(s@.subrange(start as int, s@.len() as int)),
        r matches Some(v) ==> (v as nat) < pow10((s@.len() - start) as nat),
{
    let mut v: u64 = 0;
    let mut j: usize = start;
    proof {
        lemma_pow10_18();
        assert(s@.subrange(start as int, start as int) =~= Seq::<u8>::empty());
    }
    while j < s.len()
        invariant
            start <= j <= s@.len(),
            s@.len() - start <= 18,
            pow10(18) == 1_000_000_000_000_000_000,
            all_digits(s@.subrange(start as int, j as int)),
            v as nat == digits_value(s@.subrange(start as int, j as int)),
            (v as nat) < pow10((j - start) as nat),
        decreases s@.len() - j,
    {
        let c = s[j];
        if c < 48 || c > 57 {
            proof {
                let t = s@.subrange(start as int, s@.len() as int);
                assert(t[j - start] == c);
            }
            return None;
        }
        proof {
            lemma_all_digits_extend(s@, start as int, j as int);
            let k = (j - start) as nat;
            lemma_pow10_mono(k + 1, 18);
            assert(pow10(k + 1) == 10 * pow10(k));
            assert(v * 10 + (c - 48) < 10 * pow10(k)) by (nonlinear_arith)
                requires
                    v < pow10(k),
                    c - 48 <= 9,
            ;
        }
        v = v * 10 + (c - 48) as u64;
        j = j + 1;
    }
    Some(v)
}

/// Decodes an unsigned integer field.
pub fn decode_uint_field(s: &[u8]) -> (r: Option<u64>)
    requires
        s@.len() <= 18,
    ensures
        r is Some <==> decode_uint(s@) is Some,
        r matches Some(v) ==> decode_uint(s@) == Some(v as nat),
        r matches Some(v) ==> (v as nat) < pow10(s@.len()),
{
    let mut i: usize = 0;
    while i < s.len() && s[i] == 32
        invariant
            i <= s@.len(),
            forall|j: int| 0 <= j < i ==> s@[j] == 32,
        decreases s@.len() - i,
    {
        i = i + 1;
    }
    proof {
        lemma_decode_skip(s@, i as int);
        lemma_pow10_mono((s@.len() - i) as nat, s@.len());
    }
    if i == s.len() {
        proof {
            lemma_pow10_positive(s@.len());
        }
        return Some(0);
    }
    let r = digits_from(s, i);
    proof {
        let t = s@.subrange(i as int, s@.len() as int);
        assert(t[0] == s@[i as int]);
    }
    r
}

/// Decodes a decimal field of `wi` integer columns, a point and `f` fraction
/// digits; `scale` is `10^f`.
pub fn decode_fixed_field(s: &[u8], wi: usize, f: usize, scale: u64) -> (r: Option<u64>)
    requires
        s@.len() == wi + 1 + f,
        wi + f <= 17,
        scale == pow10(f as nat),
    ensures
        r is Some <==> decode_fixed(s@, wi as nat, f as nat) is Some,
        r matches Some(v) ==> decode_fixed(s@, wi as nat, f as nat) == Some(v as nat),
        r matches Some(v) ==> (v as nat) < pow10((wi + f) as nat),
{
    if s[wi] != 46 {
        return None;
    }
    let frac = digits_from(s, wi + 1);
    let ip = decode_uint_field(crate::text::span(s, 0, wi));
    match (ip, frac) {
        (Some(a), Some(b)) => {
            proof {
                lemma_pow10_add(wi as nat, f as nat);
                lemma_pow10_18();
                lemma_pow10_mono((wi + f) as nat, 18);
                assert(a * scale + b < pow10(wi as nat) * pow10(f as nat)) by (nonlinear_arith)
                    requires
                        a < pow10(wi as nat),
                        b < pow10(f as nat),
                        scale == pow10(f as nat),
                ;
            }
            Some(a * scale + b)
        },
        _ => None,
    }
}

/// Decodes a signed fraction field: sign, point, digits.
pub fn decode_signed_fraction_field(s: &[u8]) -> (r: Option<i64>)
    requires
        2 <= s@.len() <= 20,
    ensures
        r is Some <==> decode_signed_fraction(s@) is Some,
        r matches Some(v) ==> decode_signed_fraction(s@) == Some(v as int),
        r matches Some(v) ==> abs(v as int) < pow10((s@.len() - 2) as nat),
{
    if s[1] != 46 {
        return None;
    }
    let neg = if s[0] == 32 || s[0] == 43 {
        false
    } else if s[0] == 45 {
        true
    } else {
        return None;
    };
    match digits_from(s, 2) {
        Some(m) => {
            proof {
                lemma_pow10_18();
                lemma_pow10_mono((s@.len() - 2) as nat, 18);
            }
            let m = m as i64;
            if neg {
                Some(-m)
            } else {
                Some(m)
            }
        },
        None => None,
    }
}

/// Decodes an exponent-style field of eight columns.
pub fn decode_exp_field(s: &[u8]) -> (r: Option<ExpValue>)
    requires
        s@.len() == 8,
    ensures
        r == decode_exp(s@),
        r matches Some(x) ==> x.wf(),
{
    let mneg = if s[0] == 32 || s[0] == 43 {
        false
    } else if s[0] == 45 {
        true
    } else {
        return None;
    };
    let eneg = if s[6] == 32 || s[6] == 43 {
        false
    } else if s[6] == 45 {
        true
    } else {
        return None;
    };
    let d = s[7];
    let m = digits_from(crate::text::span(s, 0, 6), 1);
    proof {
        assert(s@.subrange(0, 6).subrange(1, 6) =~= s@.subrange(1, 6));
    }
    if d < 48 || d > 57 {
        return None;
    }
    match m {
        Some(m) => {
            proof {
                lemma_pow10_5();
            }
            let m = m as i32;
            let e = (d - 48) as i8;
            Some(
                ExpValue {
                    mantissa: if mneg {
                        -m
                    } else {
                        m
                    },
                    exponent: if eneg {
                        -e
                    } else {
                        e
                    },
                },
            )
        },
        None => None,
    }
}

/// Appends the last `w` digits of `v`, with leading zeros.
pub fn push_zero_padded(out: &mut Vec<u8>, v: u64, w: usize)
    ensures
        final(out)@ == old(out)@ + zero_padded(v as nat, w as nat),
    decreases w,
{
    if w == 0 {
        assert(old(out)@ + zero_padded(v as nat, 0) =~= old(out)@);
    } else {
        push_zero_padded(out, v / 10, w - 1);
        out.push((v % 10) as u8 + 48);
        assert(final(out)@ =~= old(out)@ + zero_padded(v as nat, w as nat));
    }
}

pub fn count_digits(v: u64) -> (r: usize)
    ensures
        r as nat == num_digits(v as nat),
        1 <= r <= 20,
    decreases v,
{
    if v < 10 {
        1
    } else {
        proof {
            lemma_num_digits((v / 10) as nat, 19);
            lemma_pow10_18();
            assert(pow10(19) == 10 * pow10(18));
        }
        1 + count_digits(v / 10)
    }
}

pub fn push_blanks(out: &mut Vec<u8>, n: usize)
    ensures
        final(out)@ == old(out)@ + blanks(n as nat),
{
    let mut i: usize = 0;
    while i < n
        invariant
            i <= n,
            out@ == old(out)@ + blanks(i as nat),
        decreases n - i,
    {
        out.push(32);
        i = i + 1;
        assert(out@ =~= old(out)@ + blanks(i as nat));
    }
}

/// Appends `v` right-justified in `w` columns.
pub fn push_space_padded(out: &mut Vec<u8>, v: u64, w: usize)
    requires
        num_digits(v as nat) <= w,
    ensures
        final(out)@ == old(out)@ + space_padded(v as nat, w as nat),
{
    let n = count_digits(v);
    push_blanks(out, w - n);
    push_zero_padded(out, v, n);
    assert(final(out)@ =~= old(out)@ + space_padded(v as nat, w as nat));
}

/// Appends the canonical spelling of a decimal field.
pub fn push_fixed(out: &mut Vec<u8>, v: u64, wi: usize, f: usize, scale: u64, zeros: bool)
    requires
        scale == pow10(f as nat),
        (v as nat) < pow10((wi + f) as nat),
        wi >= 1,
    ensures
        final(out)@ == old(out)@ + encode_fixed(v as nat, wi as nat, f as nat, zeros),
{
    proof {
        lemma_pow10_positive(f as nat);
        lemma_pow10_add(wi as nat, f as nat);
        lemma_fundamental_div_mod(v as int, scale as int);
        assert(v / scale < pow10(wi as nat)) by (nonlinear_arith)
            requires
                v < pow10(wi as nat) * scale,
                v == scale * (v / scale) + v % scale,
                0 <= v % scale,
                scale >= 1,
        ;
        lemma_num_digits((v / scale) as nat, wi as nat);
    }
    let ip = v / scale;
    if zeros {
        push_zero_padded(out, ip, wi);
    } else {
        push_space_padded(out, ip, wi);
    }
    out.push(46);
    push_zero_padded(out, v % scale, f);
    assert(final(out)@ =~= old(out)@ + encode_fixed(v as nat, wi as nat, f as nat, zeros));
}

/// Appends the canonical spelling of a signed fraction with `f` digits.
pub fn push_signed_fraction(out: &mut Vec<u8>, v: i64, f: usize)
    requires
        v > i64::MIN,
    ensures
        final(out)@ == old(out)@ + encode_signed_fraction(v as int, f as nat),
{
    if v < 0 {
        out.push(45);
    } else {
        out.push(32);
    }
    out.push(46);
    let m: u64 = if v < 0 {
        (-v) as u64
    } else {
        v as u64
    };
    push_zero_padded(out, m, f);
    assert(final(out)@ =~= old(out)@ + encode_signed_fraction(v as int, f as nat));
}

/// Appends the canonical spelling of an exponent-style field.
pub fn push_exp(out: &mut Vec<u8>, x: ExpValue)
    requires
        x.wf(),
    ensures
        final(out)@ == old(out)@ + encode_exp(x),
{
    if x.mantissa < 0 {
        out.push(45);
    } else {
        out.push(32);
    }
    let m: u64 = if x.mantissa < 0 {
        (-x.mantissa) as u64
    } else {
        x.mantissa as u64
    };
    push_zero_padded(out, m, 5);
    if x.exponent < 0 {
        out.push(45);
        out.push((48 - x.exponent) as u8);
    } else {
        out.push(43);
        out.push((48 + x.exponent) as u8);
    }
    assert(final(out)@ =~= old(out)@ + encode_exp(x));
}

pub open spec fn all_blank(s: Seq<u8>) -> bool {
    forall|i: int| 0 <= i < s.len() ==> #[trigger] s[i] == 32
}

/// An optional unsigned field: all blank is absent, not zero; anything else
/// is read as an unsigned integer field.
pub open spec fn decode_optional(s: Seq<u8>) -> Option<Option<nat>> {
    if all_blank(s) {
        Some(None)
    } else {
        match decode_uint(s) {
            Some(v) => Some(Some(v)),
            None => None,
        }
    }
}

/// The canonical spelling of an optional field of `w` columns.
pub open spec fn encode_optional(v: Option<nat>, w: nat) -> Seq<u8> {
    match v {
        Some(x) => space_padded(x, w),
        None => blanks(w),
    }
}

pub proof fn lemma_optional_round_trip(v: Option<nat>, w: nat)
    requires
        w >= 1,
        v matches Some(x) ==> x < pow10(w),
    ensures
        encode_optional(v, w).len() == w,
        decode_optional(encode_optional(v, w)) == Some(v),
{
    if let Some(x) = v {
        lemma_space_padded_round_trip(x, w);
        lemma_num_digits(x, w);
        let s = space_padded(x, w);
        let k = (w - num_digits(x)) as int;
        lemma_zero_padded(x, num_digits(x));
        assert(s[k] == zero_padded(x, num_digits(x))[0]);
        assert(is_digit(s[k]));
    }
}

/// Decodes an optional unsigned field.
pub fn decode_optional_field(s: &[u8]) -> (r: Option<Option<u64>>)
    requires
        s@.len() <= 18,
    ensures
        r is Some <==> decode_optional(s@) is Some,
        r matches Some(None) ==> decode_optional(s@) == Some(None::<nat>),
        r matches Some(Some(v)) ==> decode_optional(s@) == Some(Some(v as nat)),
{
    let mut i: usize = 0;
    while i < s.len()
        invariant
            i <= s@.len(),
            s@.len() <= 18,
            forall|j: int| 0 <= j < i ==> s@[j] == 32,
        decreases s@.len() - i,
    {
        if s[i] != 32 {
            match decode_uint_field(s) {
                Some(v) => {
                    return Some(Some(v));
                },
                None => {
                    return None;
                },
            }
        }
        i = i + 1;
    }
    Some(None)
}

/// Appends the canonical spelling of an optional field of `w` columns.
pub fn push_optional(out: &mut Vec<u8>, v: Option<u64>, w: usize)
    requires
        v matches Some(x) ==> num_digits(x as nat) <= w,
    ensures
        final(out)@ == old(out)@ + encode_optional(
            match v {
                Some(x) => Some(x as nat),
                None => None,
            },
            w as nat,
        ),
{
    match v {
        Some(x) => push_space_padded(out, x, w),
        None => push_blanks(out, w),
    }
}

} // verus!
