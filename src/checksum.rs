//! Line checksums: each digit counts its value, each minus sign counts one,
//! every other character counts nothing, and the checksum is the total
//! modulo ten, written as one trailing digit.

use vstd::prelude::*;

use crate::text::{push_all, span};

verus! {

/// ASCII code of `0`.
pub const DIGIT_ZERO: u8 = 48;

/// ASCII code of `-`.
pub const MINUS: u8 = 45;

pub open spec fn is_digit(c: u8) -> bool {
    48 <= c <= 57
}

/// What one character adds to a line's checksum.
pub open spec fn char_weight(c: u8) -> nat {
    if is_digit(c) {
        (c - 48) as nat
    } else if c == 45 {
        1
    } else {
        0
    }
}

/// The sum of the weights of all characters of `s`.
pub open spec fn weight_sum(s: Seq<u8>) -> nat
    decreases s.len(),
{
    if s.len() == 0 {
        0
    } else {
        weight_sum(s.drop_last()) + char_weight(s.last())
    }
}

/// The checksum of a line body, as a number from 0 to 9.
pub open spec fn spec_checksum(body: Seq<u8>) -> u8 {
    (weight_sum(body) % 10) as u8
}

/// The checksum of a line body, as the digit that is written.
pub open spec fn checksum_char(body: Seq<u8>) -> u8 {
    (weight_sum(body) % 10 + 48) as u8
}

/// A line is valid when its last character is the digit of the checksum of
/// everything before it.
pub open spec fn spec_verify(line: Seq<u8>) -> bool {
    line.len() > 0 && line.last() == checksum_char(line.drop_last())
}

pub fn char_weight_of(c: u8) -> (r: u8)
    ensures
        r as nat == char_weight(c),
        r <= 9,
{
    if DIGIT_ZERO <= c && c <= 57 {
        c - DIGIT_ZERO
    } else if c == MINUS {
        1
    } else {
        0
    }
}

/// The checksum of a line body.
pub fn checksum(body: &[u8]) -> (r: u8)
    ensures
        r == spec_checksum(body@),
        r <= 9,
{
    let mut acc: u8 = 0;
    let mut i: usize = 0;
    while i < body.len()
        invariant
            i <= body@.len(),
            acc as nat == weight_sum(body@.subrange(0, i as int)) % 10,
        decreases body@.len() - i,
    {
        let w = char_weight_of(body[i]);
        proof {
            let pre = body@.subrange(0, i as int);
            let next = body@.subrange(0, i + 1);
            assert(next.drop_last() =~= pre);
            assert(weight_sum(next) == weight_sum(pre) + char_weight(body@[i as int]));
            vstd::arithmetic::div_mod::lemma_add_mod_noop(weight_sum(pre) as int, w as int, 10);
            vstd::arithmetic::div_mod::lemma_small_mod(w as nat, 10);
        }
        acc = (acc + w) % 10;
        i = i + 1;
    }
    assert(body@.subrange(0, body@.len() as int) =~= body@);
    acc
}

/// Whether the last character of `line` is the checksum digit of the rest.
pub fn verify(line: &[u8]) -> (r: bool)
    ensures
        r == spec_verify(line@),
{
    if line.len() == 0 {
        return false;
    }
    let n = line.len() - 1;
    let body = span(line, 0, n);
    let c = checksum(body);
    line[n] == c + DIGIT_ZERO
}

/// `body` followed by its checksum digit.
pub fn append_checksum(body: &[u8]) -> (r: Vec<u8>)
    ensures
        r@ == body@.push(checksum_char(body@)),
        spec_verify(r@),
{
    let c = checksum(body);
    let mut r: Vec<u8> = Vec::new();
    push_all(&mut r, body);
    r.push(c + DIGIT_ZERO);
    assert(r@ =~= body@.push(checksum_char(body@)));
    assert(r@.drop_last() =~= body@);
    r
}

} // verus!
