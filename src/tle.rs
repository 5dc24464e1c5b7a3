//! Two-line element sets: the record, its column layout, the parser, the
//! formatter and the checksum helpers for line pairs.
//!
//! Every numeric field is held as a whole number of units of its last written
//! digit, so that a record and its text correspond exactly.

use vstd::prelude::*;

use crate::checksum::{char_weight, checksum, checksum_char, spec_checksum, spec_verify, weight_sum};
use crate::catalog::Ident;
use crate::enums::{Classification, TLEType};
use crate::field::{
    decode_exp, decode_fixed, decode_signed_fraction, decode_uint, encode_exp, encode_fixed,
    encode_signed_fraction, lemma_exp_round_trip, lemma_fixed_round_trip,
    lemma_signed_fraction_round_trip, lemma_space_padded_round_trip, lemma_zero_padded_round_trip,
    pow10, space_padded, zero_padded, ExpValue, decode_exp_field, decode_fixed_field,
    decode_signed_fraction_field, decode_uint_field, lemma_blank_exponent_sign, push_exp,
    push_fixed, push_signed_fraction, push_space_padded, push_zero_padded,
};
use crate::text::{push_all, span};

verus! {

/// Columns in a line, checksum included.
pub const LINE_WIDTH: usize = 69;

/// A decoded two-line element set. Line 1 carries the identification, the
/// epoch and the drag terms; line 2 the mean elements.
#[derive(Debug, Clone, PartialEq, Eq)]
pub struct TleRecord {
    /// Satellite catalog number, five digits.
    pub satnum: u32,
    pub classification: Classification,
    /// International designator, eight columns kept as written.
    pub designator: Vec<u8>,
    /// Epoch year, two digits.
    pub epoch_year: u8,
    /// Epoch day of year, in units of 1e-8 day.
    pub epoch_day: u64,
    /// First derivative of mean motion over two, in units of 1e-8 rev/day^2.
    pub mean_motion_dot: i64,
    /// Second derivative of mean motion over six (for XP sets, the solar
    /// radiation pressure coefficient).
    pub mean_motion_ddot: ExpValue,
    /// Drag term: B* (for XP and SP sets, the ballistic coefficient).
    pub drag: ExpValue,
    pub tle_type: TLEType,
    /// Element set number, up to four digits.
    pub elset_number: u16,
    /// Inclination, in units of 1e-4 degree.
    pub inclination: u32,
    /// Right ascension of the ascending node, in units of 1e-4 degree.
    pub raan: u32,
    /// Eccentricity, in units of 1e-7.
    pub eccentricity: u32,
    /// Argument of perigee, in units of 1e-4 degree.
    pub arg_perigee: u32,
    /// Mean anomaly, in units of 1e-4 degree.
    pub mean_anomaly: u32,
    /// Mean motion, in units of 1e-8 rev/day.
    pub mean_motion: u64,
    /// Revolution number at epoch, up to five digits.
    pub rev_number: u32,
}

/// Why a pair of lines is not a two-line element set.
#[derive(Debug, Clone, Copy, PartialEq, Eq, Structural)]
pub enum TleError {
    /// A line is not 69 columns long.
    WrongLength,
    /// Line 1 does not start with `1`, or line 2 with `2`.
    WrongLineNumber,
    /// A numeric field of the given line holds something else.
    NonNumeric { line: u8 },
    /// The two lines name different satellites.
    SatnumMismatch,
    /// A numeric array does not describe a record: wrong length, a value
    /// that does not fit its columns, or an unknown code.
    BadArray,
}

impl TleRecord {
    /// Every field fits its columns.
    pub open spec fn wf(&self) -> bool {
        &&& self.satnum < 100000
        &&& self.designator@.len() == 8
        &&& self.epoch_year < 100
        &&& self.epoch_day < 100_000_000_000
        &&& -100_000_000 < self.mean_motion_dot < 100_000_000
        &&& self.mean_motion_ddot.wf()
        &&& self.drag.wf()
        &&& self.elset_number < 10000
        &&& self.inclination < 10_000_000
        &&& self.raan < 10_000_000
        &&& self.eccentricity < 10_000_000
        &&& self.arg_perigee < 10_000_000
        &&& self.mean_anomaly < 10_000_000
        &&& self.mean_motion < 10_000_000_000
        &&& self.rev_number < 100000
    }
}

/// The type marker digit of an element-set type.
pub open spec fn type_marker(t: TLEType) -> u8 {
    (t.spec_code() + 48) as u8
}

/// The element-set type that a type-marker column names; anything unknown
/// reads as SGP4.
pub open spec fn marker_type(c: u8) -> TLEType {
    TLEType::spec_from_code((c as int - 48) as i32)
}

/// Line 1 of a record without its checksum.
pub open spec fn line1_body(r: TleRecord) -> Seq<u8> {
    seq![49u8, 32u8] + zero_padded(r.satnum as nat, 5) + seq![r.classification.spec_byte(), 32u8]
        + r.designator@ + seq![32u8] + zero_padded(r.epoch_year as nat, 2) + encode_fixed(
        r.epoch_day as nat,
        3,
        8,
        true,
    ) + seq![32u8] + encode_signed_fraction(r.mean_motion_dot as int, 8) + seq![32u8] + encode_exp(
        r.mean_motion_ddot,
    ) + seq![32u8] + encode_exp(r.drag) + seq![32u8, type_marker(r.tle_type), 32u8] + space_padded(
        r.elset_number as nat,
        4,
    )
}

/// Line 2 of a record without its checksum.
pub open spec fn line2_body(r: TleRecord) -> Seq<u8> {
    seq![50u8, 32u8] + zero_padded(r.satnum as nat, 5) + seq![32u8] + encode_fixed(
        r.inclination as nat,
        3,
        4,
        false,
    ) + seq![32u8] + encode_fixed(r.raan as nat, 3, 4, false) + seq![32u8] + zero_padded(
        r.eccentricity as nat,
        7,
    ) + seq![32u8] + encode_fixed(r.arg_perigee as nat, 3, 4, false) + seq![32u8] + encode_fixed(
        r.mean_anomaly as nat,
        3,
        4,
        false,
    ) + seq![32u8] + encode_fixed(r.mean_motion as nat, 2, 8, false) + space_padded(
        r.rev_number as nat,
        5,
    )
}

pub open spec fn with_checksum(body: Seq<u8>) -> Seq<u8> {
    body.push(checksum_char(body))
}

/// The canonical text of line 1, checksum included.
pub open spec fn line1_text(r: TleRecord) -> Seq<u8> {
    with_checksum(line1_body(r))
}

/// The canonical text of line 2, checksum included.
pub open spec fn line2_text(r: TleRecord) -> Seq<u8> {
    with_checksum(line2_body(r))
}

pub open spec fn cols(l: Seq<u8>, a: int, b: int) -> Seq<u8> {
    l.subrange(a, b)
}

/// Every numeric field of line 1 holds a number.
pub open spec fn line1_numeric(l: Seq<u8>) -> bool {
    &&& decode_uint(cols(l, 2, 7)) is Some
    &&& decode_uint(cols(l, 18, 20)) is Some
    &&& decode_fixed(cols(l, 20, 32), 3, 8) is Some
    &&& decode_signed_fraction(cols(l, 33, 43)) is Some
    &&& decode_exp(cols(l, 44, 52)) is Some
    &&& decode_exp(cols(l, 53, 61)) is Some
    &&& decode_uint(cols(l, 64, 68)) is Some
}

/// Every numeric field of line 2 holds a number.
pub open spec fn line2_numeric(l: Seq<u8>) -> bool {
    &&& decode_uint(cols(l, 2, 7)) is Some
    &&& decode_fixed(cols(l, 8, 16), 3, 4) is Some
    &&& decode_fixed(cols(l, 17, 25), 3, 4) is Some
    &&& decode_uint(cols(l, 26, 33)) is Some
    &&& decode_fixed(cols(l, 34, 42), 3, 4) is Some
    &&& decode_fixed(cols(l, 43, 51), 3, 4) is Some
    &&& decode_fixed(cols(l, 52, 63), 2, 8) is Some
    &&& decode_uint(cols(l, 63, 68)) is Some
}

/// Whether two lines form an element set, and if not, the first reason.
/// Checksums are not part of this: a mismatch is reported beside the record.
pub open spec fn tle_check(l1: Seq<u8>, l2: Seq<u8>) -> Result<(), TleError> {
    if l1.len() != 69 || l2.len() != 69 {
        Err(TleError::WrongLength)
    } else if l1[0] != 49 || l2[0] != 50 {
        Err(TleError::WrongLineNumber)
    } else if !line1_numeric(l1) {
        Err(TleError::NonNumeric { line: 1 })
    } else if !line2_numeric(l2) {
        Err(TleError::NonNumeric { line: 2 })
    } else if decode_uint(cols(l1, 2, 7)) != decode_uint(cols(l2, 2, 7)) {
        Err(TleError::SatnumMismatch)
    } else {
        Ok(())
    }
}

/// `r` is what line 1 `l1` says, field by field.
pub open spec fn line1_decodes_to(l1: Seq<u8>, r: TleRecord) -> bool {
    &&& decode_uint(cols(l1, 2, 7)) == Some(r.satnum as nat)
    &&& r.classification == Classification::spec_from_byte(l1[7])
    &&& r.designator@ == cols(l1, 9, 17)
    &&& decode_uint(cols(l1, 18, 20)) == Some(r.epoch_year as nat)
    &&& decode_fixed(cols(l1, 20, 32), 3, 8) == Some(r.epoch_day as nat)
    &&& decode_signed_fraction(cols(l1, 33, 43)) == Some(r.mean_motion_dot as int)
    &&& decode_exp(cols(l1, 44, 52)) == Some(r.mean_motion_ddot)
    &&& decode_exp(cols(l1, 53, 61)) == Some(r.drag)
    &&& r.tle_type == marker_type(l1[62])
    &&& decode_uint(cols(l1, 64, 68)) == Some(r.elset_number as nat)
}

/// `r` is what line 2 `l2` says, field by field.
pub open spec fn line2_decodes_to(l2: Seq<u8>, r: TleRecord) -> bool {
    &&& decode_uint(cols(l2, 2, 7)) == Some(r.satnum as nat)
    &&& decode_fixed(cols(l2, 8, 16), 3, 4) == Some(r.inclination as nat)
    &&& decode_fixed(cols(l2, 17, 25), 3, 4) == Some(r.raan as nat)
    &&& decode_uint(cols(l2, 26, 33)) == Some(r.eccentricity as nat)
    &&& decode_fixed(cols(l2, 34, 42), 3, 4) == Some(r.arg_perigee as nat)
    &&& decode_fixed(cols(l2, 43, 51), 3, 4) == Some(r.mean_anomaly as nat)
    &&& decode_fixed(cols(l2, 52, 63), 2, 8) == Some(r.mean_motion as nat)
    &&& decode_uint(cols(l2, 63, 68)) == Some(r.rev_number as nat)
}

/// `r` is the record that the line pair says.
pub open spec fn tle_decodes_to(l1: Seq<u8>, l2: Seq<u8>, r: TleRecord) -> bool {
    line1_decodes_to(l1, r) && line2_decodes_to(l2, r)
}

proof fn lemma_pow10_values()
    ensures
        pow10(2) == 100,
        pow10(4) == 10000,
        pow10(5) == 100000,
        pow10(7) == 10_000_000,
        pow10(8) == 100_000_000,
        pow10(10) == 10_000_000_000,
        pow10(11) == 100_000_000_000,
{
    reveal_with_fuel(pow10, 12);
}

proof fn lemma_line1_round_trip(r: TleRecord)
    requires
        r.wf(),
    ensures
        line1_body(r).len() == 68,
        line1_text(r).len() == 69,
        line1_text(r)[0] == 49,
        line1_numeric(line1_text(r)),
        line1_decodes_to(line1_text(r), r),
{
    lemma_pow10_values();
    lemma_zero_padded_round_trip(r.satnum as nat, 5);
    lemma_zero_padded_round_trip(r.epoch_year as nat, 2);
    lemma_fixed_round_trip(r.epoch_day as nat, 3, 8, true);
    lemma_signed_fraction_round_trip(r.mean_motion_dot as int, 8);
    lemma_exp_round_trip(r.mean_motion_ddot);
    lemma_exp_round_trip(r.drag);
    lemma_space_padded_round_trip(r.elset_number as nat, 4);
    let b = line1_body(r);
    let l = line1_text(r);
    assert(b.len() == 68);
    assert(cols(l, 2, 7) =~= zero_padded(r.satnum as nat, 5));
    assert(cols(l, 9, 17) =~= r.designator@);
    assert(cols(l, 18, 20) =~= zero_padded(r.epoch_year as nat, 2));
    assert(cols(l, 20, 32) =~= encode_fixed(r.epoch_day as nat, 3, 8, true));
    assert(cols(l, 33, 43) =~= encode_signed_fraction(r.mean_motion_dot as int, 8));
    assert(cols(l, 44, 52) =~= encode_exp(r.mean_motion_ddot));
    assert(cols(l, 53, 61) =~= encode_exp(r.drag));
    assert(cols(l, 64, 68) =~= space_padded(r.elset_number as nat, 4));
    assert(l[7] == r.classification.spec_byte());
    assert(l[62] == type_marker(r.tle_type));
}

proof fn lemma_line2_round_trip(r: TleRecord)
    requires
        r.wf(),
    ensures
        line2_body(r).len() == 68,
        line2_text(r).len() == 69,
        line2_text(r)[0] == 50,
        line2_numeric(line2_text(r)),
        line2_decodes_to(line2_text(r), r),
{
    lemma_pow10_values();
    lemma_zero_padded_round_trip(r.satnum as nat, 5);
    lemma_fixed_round_trip(r.inclination as nat, 3, 4, false);
    lemma_fixed_round_trip(r.raan as nat, 3, 4, false);
    lemma_zero_padded_round_trip(r.eccentricity as nat, 7);
    lemma_fixed_round_trip(r.arg_perigee as nat, 3, 4, false);
    lemma_fixed_round_trip(r.mean_anomaly as nat, 3, 4, false);
    lemma_fixed_round_trip(r.mean_motion as nat, 2, 8, false);
    lemma_space_padded_round_trip(r.rev_number as nat, 5);
    let b = line2_body(r);
    let l = line2_text(r);
    assert(b.len() == 68);
    assert(cols(l, 2, 7) =~= zero_padded(r.satnum as nat, 5));
    assert(cols(l, 8, 16) =~= encode_fixed(r.inclination as nat, 3, 4, false));
    assert(cols(l, 17, 25) =~= encode_fixed(r.raan as nat, 3, 4, false));
    assert(cols(l, 26, 33) =~= zero_padded(r.eccentricity as nat, 7));
    assert(cols(l, 34, 42) =~= encode_fixed(r.arg_perigee as nat, 3, 4, false));
    assert(cols(l, 43, 51) =~= encode_fixed(r.mean_anomaly as nat, 3, 4, false));
    assert(cols(l, 52, 63) =~= encode_fixed(r.mean_motion as nat, 2, 8, false));
    assert(cols(l, 63, 68) =~= space_padded(r.rev_number as nat, 5));
}

/// A parsed element set, with whether each line's checksum digit was right.
#[derive(Debug, Clone, PartialEq, Eq)]
pub struct TleParse {
    pub record: TleRecord,
    pub line1_checksum_ok: bool,
    pub line2_checksum_ok: bool,
}

/// Formatting a well-formed record and parsing the text gives the record
/// back, and both lines carry their correct checksums.
pub proof fn lemma_format_parse(r: TleRecord)
    requires
        r.wf(),
    ensures
        tle_check(line1_text(r), line2_text(r)) == Ok::<(), TleError>(()),
        tle_decodes_to(line1_text(r), line2_text(r), r),
        spec_verify(line1_text(r)),
        spec_verify(line2_text(r)),
{
    lemma_line1_round_trip(r);
    lemma_line2_round_trip(r);
    assert(line1_text(r).drop_last() =~= line1_body(r));
    assert(line2_text(r).drop_last() =~= line2_body(r));
}

/// Parsing, formatting and parsing again gives what the first parse gave:
/// the same outcome, and exactly the same records.
pub proof fn lemma_reparse_fixed_point(l1: Seq<u8>, l2: Seq<u8>, r: TleRecord)
    requires
        tle_check(l1, l2) is Ok,
        tle_decodes_to(l1, l2, r),
        r.wf(),
    ensures
        tle_check(line1_text(r), line2_text(r)) == tle_check(l1, l2),
        forall|q: TleRecord|
            tle_decodes_to(line1_text(r), line2_text(r), q) <==> #[trigger] tle_decodes_to(l1, l2, q),
{
    lemma_format_parse(r);
}

proof fn lemma_weight_sum_update(s: Seq<u8>, i: int, c: u8)
    requires
        0 <= i < s.len(),
        char_weight(c) == char_weight(s[i]),
    ensures
        weight_sum(s.update(i, c)) == weight_sum(s),
    decreases s.len(),
{
    let t = s.update(i, c);
    if i == s.len() - 1 {
        assert(t.drop_last() =~= s.drop_last());
    } else {
        lemma_weight_sum_update(s.drop_last(), i, c);
        assert(t.drop_last() =~= s.drop_last().update(i, c));
    }
}

/// Writing `+` into a blank exponent sign column of line 1 (the second
/// derivative's or the drag term's) changes nothing that parsing reports.
pub proof fn lemma_blank_exponent_sign_line(l1: Seq<u8>, l2: Seq<u8>, col: int)
    requires
        l1.len() == 69,
        col == 50 || col == 59,
        l1[col] == 32,
    ensures
        tle_check(l1.update(col, 43), l2) == tle_check(l1, l2),
        forall|q: TleRecord|
            tle_decodes_to(l1.update(col, 43), l2, q) <==> #[trigger] tle_decodes_to(l1, l2, q),
        spec_verify(l1.update(col, 43)) == spec_verify(l1),
{
    let u = l1.update(col, 43);
    let a = if col == 50 {
        44int
    } else {
        53int
    };
    let b = if col == 50 {
        53int
    } else {
        44int
    };
    assert(cols(u, a, a + 8) =~= cols(l1, a, a + 8).update(6, 43));
    lemma_blank_exponent_sign(cols(l1, a, a + 8));
    assert(cols(u, b, b + 8) =~= cols(l1, b, b + 8));
    assert(cols(u, 2, 7) =~= cols(l1, 2, 7));
    assert(cols(u, 9, 17) =~= cols(l1, 9, 17));
    assert(cols(u, 18, 20) =~= cols(l1, 18, 20));
    assert(cols(u, 20, 32) =~= cols(l1, 20, 32));
    assert(cols(u, 33, 43) =~= cols(l1, 33, 43));
    assert(cols(u, 64, 68) =~= cols(l1, 64, 68));
    assert(u.drop_last() =~= l1.drop_last().update(col, 43));
    lemma_weight_sum_update(l1.drop_last(), col, 43);
}

/// The canonical line 1 of a record.
pub fn format_line1(r: &TleRecord) -> (l: Vec<u8>)
    requires
        r.wf(),
    ensures
        l@ == line1_text(*r),
{
    let mut out: Vec<u8> = Vec::new();
    out.push(49);
    out.push(32);
    assert(out@ =~= seq![49u8, 32u8]);
    push_zero_padded(&mut out, r.satnum as u64, 5);
    let ghost p = out@;
    out.push(r.classification.to_byte());
    out.push(32);
    assert(out@ =~= p + seq![r.classification.spec_byte(), 32u8]);
    push_all(&mut out, r.designator.as_slice());
    let ghost p = out@;
    out.push(32);
    assert(out@ =~= p + seq![32u8]);
    push_zero_padded(&mut out, r.epoch_year as u64, 2);
    proof {
        lemma_pow10_values();
    }
    push_fixed(&mut out, r.epoch_day, 3, 8, 100_000_000, true);
    let ghost p = out@;
    out.push(32);
    assert(out@ =~= p + seq![32u8]);
    push_signed_fraction(&mut out, r.mean_motion_dot, 8);
    let ghost p = out@;
    out.push(32);
    assert(out@ =~= p + seq![32u8]);
    push_exp(&mut out, r.mean_motion_ddot);
    let ghost p = out@;
    out.push(32);
    assert(out@ =~= p + seq![32u8]);
    push_exp(&mut out, r.drag);
    let ghost p = out@;
    out.push(32);
    out.push((r.tle_type.code() + 48) as u8);
    out.push(32);
    assert(out@ =~= p + seq![32u8, type_marker(r.tle_type), 32u8]);
    proof {
        crate::field::lemma_num_digits(r.elset_number as nat, 4);
    }
    push_space_padded(&mut out, r.elset_number as u64, 4);
    assert(out@ == line1_body(*r));
    let c = checksum(out.as_slice());
    out.push(c + 48);
    out
}

/// The canonical line 2 of a record.
pub fn format_line2(r: &TleRecord) -> (l: Vec<u8>)
    requires
        r.wf(),
    ensures
        l@ == line2_text(*r),
{
    proof {
        lemma_pow10_values();
        crate::field::lemma_num_digits(r.rev_number as nat, 5);
    }
    let mut out: Vec<u8> = Vec::new();
    out.push(50);
    out.push(32);
    assert(out@ =~= seq![50u8, 32u8]);
    push_zero_padded(&mut out, r.satnum as u64, 5);
    let ghost p = out@;
    out.push(32);
    assert(out@ =~= p + seq![32u8]);
    push_fixed(&mut out, r.inclination as u64, 3, 4, 10000, false);
    let ghost p = out@;
    out.push(32);
    assert(out@ =~= p + seq![32u8]);
    push_fixed(&mut out, r.raan as u64, 3, 4, 10000, false);
    let ghost p = out@;
    out.push(32);
    assert(out@ =~= p + seq![32u8]);
    push_zero_padded(&mut out, r.eccentricity as u64, 7);
    let ghost p = out@;
    out.push(32);
    assert(out@ =~= p + seq![32u8]);
    push_fixed(&mut out, r.arg_perigee as u64, 3, 4, 10000, false);
    let ghost p = out@;
    out.push(32);
    assert(out@ =~= p + seq![32u8]);
    push_fixed(&mut out, r.mean_anomaly as u64, 3, 4, 10000, false);
    let ghost p = out@;
    out.push(32);
    assert(out@ =~= p + seq![32u8]);
    push_fixed(&mut out, r.mean_motion, 2, 8, 100_000_000, false);
    push_space_padded(&mut out, r.rev_number as u64, 5);
    assert(out@ == line2_body(*r));
    let c = checksum(out.as_slice());
    out.push(c + 48);
    out
}

/// The canonical two lines of a record, each with a freshly computed checksum.
pub fn format_tle(r: &TleRecord) -> (lines: (Vec<u8>, Vec<u8>))
    requires
        r.wf(),
    ensures
        lines.0@ == line1_text(*r),
        lines.1@ == line2_text(*r),
        spec_verify(lines.0@),
        spec_verify(lines.1@),
{
    proof {
        lemma_format_parse(*r);
    }
    (format_line1(r), format_line2(r))
}

/// Parses a two-line element set. A checksum mismatch does not fail the
/// parse: it is reported beside the record.
pub fn parse_tle(line1: &[u8], line2: &[u8]) -> (r: Result<TleParse, TleError>)
    ensures
        match r {
            Ok(p) => {
                &&& tle_check(line1@, line2@) is Ok
                &&& tle_decodes_to(line1@, line2@, p.record)
                &&& p.record.wf()
                &&& p.line1_checksum_ok == spec_verify(line1@)
                &&& p.line2_checksum_ok == spec_verify(line2@)
            },
            Err(e) => tle_check(line1@, line2@) == Err::<(), TleError>(e),
        },
{
    if line1.len() != LINE_WIDTH || line2.len() != LINE_WIDTH {
        return Err(TleError::WrongLength);
    }
    if line1[0] != 49 || line2[0] != 50 {
        return Err(TleError::WrongLineNumber);
    }
    proof {
        lemma_pow10_values();
    }
    let satnum = decode_uint_field(span(line1, 2, 7));
    let year = decode_uint_field(span(line1, 18, 20));
    let day = decode_fixed_field(span(line1, 20, 32), 3, 8, 100_000_000);
    let ndot = decode_signed_fraction_field(span(line1, 33, 43));
    let nddot = decode_exp_field(span(line1, 44, 52));
    let drag = decode_exp_field(span(line1, 53, 61));
    let elset = decode_uint_field(span(line1, 64, 68));
    let (satnum, year, day, ndot, nddot, drag, elset) = match (
        satnum,
        year,
        day,
        ndot,
        nddot,
        drag,
        elset,
    ) {
        (Some(a), Some(b), Some(c), Some(d), Some(e), Some(f), Some(g)) => (a, b, c, d, e, f, g),
        _ => {
            return Err(TleError::NonNumeric { line: 1 });
        },
    };
    let satnum2 = decode_uint_field(span(line2, 2, 7));
    let incl = decode_fixed_field(span(line2, 8, 16), 3, 4, 10000);
    let raan = decode_fixed_field(span(line2, 17, 25), 3, 4, 10000);
    let ecc = decode_uint_field(span(line2, 26, 33));
    let argp = decode_fixed_field(span(line2, 34, 42), 3, 4, 10000);
    let ma = decode_fixed_field(span(line2, 43, 51), 3, 4, 10000);
    let mm = decode_fixed_field(span(line2, 52, 63), 2, 8, 100_000_000);
    let rev = decode_uint_field(span(line2, 63, 68));
    let (satnum2, incl, raan, ecc, argp, ma, mm, rev) = match (
        satnum2,
        incl,
        raan,
        ecc,
        argp,
        ma,
        mm,
        rev,
    ) {
        (Some(a), Some(b), Some(c), Some(d), Some(e), Some(f), Some(g), Some(h)) => (
            a,
            b,
            c,
            d,
            e,
            f,
            g,
            h,
        ),
        _ => {
            return Err(TleError::NonNumeric { line: 2 });
        },
    };
    if satnum != satnum2 {
        return Err(TleError::SatnumMismatch);
    }
    let mut designator: Vec<u8> = Vec::new();
    push_all(&mut designator, span(line1, 9, 17));
    assert(designator@ =~= cols(line1@, 9, 17));
    let record = TleRecord {
        satnum: satnum as u32,
        classification: Classification::from_byte(line1[7]),
        designator,
        epoch_year: year as u8,
        epoch_day: day,
        mean_motion_dot: ndot,
        mean_motion_ddot: nddot,
        drag,
        tle_type: TLEType::from_code(line1[62] as i32 - 48),
        elset_number: elset as u16,
        inclination: incl as u32,
        raan: raan as u32,
        eccentricity: ecc as u32,
        arg_perigee: argp as u32,
        mean_anomaly: ma as u32,
        mean_motion: mm,
        rev_number: rev as u32,
    };
    let line1_checksum_ok = crate::checksum::verify(line1);
    let line2_checksum_ok = crate::checksum::verify(line2);
    Ok(TleParse { record, line1_checksum_ok, line2_checksum_ok })
}

/// Line 1 with each blank exponent sign written as `+`.
pub open spec fn fixed_exponent_signs(l: Seq<u8>) -> Seq<u8> {
    if l.len() != 69 {
        l
    } else {
        let a = if l[50] == 32 {
            l.update(50, 43)
        } else {
            l
        };
        if a[59] == 32 {
            a.update(59, 43)
        } else {
            a
        }
    }
}

/// Writes `+` into each blank exponent sign column of a 69-column line 1;
/// any other line is left as it is.
pub fn fix_blank_exponent_sign(line1: &mut Vec<u8>)
    ensures
        final(line1)@ == fixed_exponent_signs(old(line1)@),
{
    if line1.len() == LINE_WIDTH {
        if line1[50] == 32 {
            line1.set(50, 43);
        }
        if line1[59] == 32 {
            line1.set(59, 43);
        }
    }
}

/// Whether a line has the length that a checksum can be added to: its 68
/// columns, with or without a checksum column.
pub open spec fn checksum_ready(l: Seq<u8>) -> bool {
    l.len() == 68 || l.len() == 69
}

fn set_checksum(line: &mut Vec<u8>)
    requires
        checksum_ready(old(line)@),
    ensures
        final(line)@ == with_checksum(old(line)@.subrange(0, 68)),
{
    if line.len() == LINE_WIDTH {
        line.pop();
    }
    assert(line@ =~= old(line)@.subrange(0, 68));
    let c = checksum(line.as_slice());
    line.push(c + 48);
}

/// Writes the checksum column of both lines, replacing what was there.
/// Both lines are left as they were unless each is 68 or 69 columns long.
pub fn add_check_sums(line1: &mut Vec<u8>, line2: &mut Vec<u8>) -> (r: Result<(), TleError>)
    ensures
        r is Ok <==> checksum_ready(old(line1)@) && checksum_ready(old(line2)@),
        r is Ok ==> final(line1)@ == with_checksum(old(line1)@.subrange(0, 68)) && final(line2)@
            == with_checksum(old(line2)@.subrange(0, 68)),
        r is Err ==> r == Err::<(), TleError>(TleError::WrongLength) && final(line1)@ == old(line1)@
            && final(line2)@ == old(line2)@,
{
    let n1 = line1.len();
    let n2 = line2.len();
    if (n1 != 68 && n1 != 69) || (n2 != 68 && n2 != 69) {
        return Err(TleError::WrongLength);
    }
    set_checksum(line1);
    set_checksum(line2);
    Ok(())
}

/// The checksums of the first 68 columns of both lines.
pub fn get_check_sums(line1: &[u8], line2: &[u8]) -> (r: Result<(u8, u8), TleError>)
    ensures
        r is Ok <==> line1@.len() >= 68 && line2@.len() >= 68,
        r matches Ok(c) ==> c.0 == spec_checksum(line1@.subrange(0, 68)) && c.1 == spec_checksum(
            line2@.subrange(0, 68),
        ),
        r is Err ==> r == Err::<(u8, u8), TleError>(TleError::WrongLength),
{
    if line1.len() < 68 || line2.len() < 68 {
        return Err(TleError::WrongLength);
    }
    Ok((checksum(span(line1, 0, 68)), checksum(span(line2, 0, 68))))
}

/// What makes two element sets duplicates: the satellite and the epoch.
pub open spec fn tle_ident(r: TleRecord) -> Ident {
    Ident {
        id: r.satnum as u64,
        fingerprint: (r.epoch_year as int * 100_000_000_000 + r.epoch_day as int) as u64,
    }
}

impl TleRecord {
    pub fn ident(&self) -> (id: Ident)
        requires
            self.wf(),
        ensures
            id == tle_ident(*self),
    {
        Ident {
            id: self.satnum as u64,
            fingerprint: self.epoch_year as u64 * 100_000_000_000 + self.epoch_day,
        }
    }
}

/// Entries of the numeric array form of an element set.
pub const ARRAY_LEN: usize = 18;

/// The numeric array form of a record, for callers that exchange flat
/// arrays: satellite number, classification letter, epoch year, epoch day,
/// first derivative, second derivative mantissa and exponent, drag mantissa
/// and exponent, type code, element set number, inclination, node,
/// eccentricity, argument of perigee, mean anomaly, mean motion, revolution
/// number. Units are those of the record's fields. The designator travels
/// beside the array as text.
pub open spec fn record_array(r: TleRecord) -> Seq<i64> {
    seq![
        r.satnum as i64,
        r.classification.spec_byte() as i64,
        r.epoch_year as i64,
        r.epoch_day as i64,
        r.mean_motion_dot,
        r.mean_motion_ddot.mantissa as i64,
        r.mean_motion_ddot.exponent as i64,
        r.drag.mantissa as i64,
        r.drag.exponent as i64,
        r.tle_type.spec_code() as i64,
        r.elset_number as i64,
        r.inclination as i64,
        r.raan as i64,
        r.eccentricity as i64,
        r.arg_perigee as i64,
        r.mean_anomaly as i64,
        r.mean_motion as i64,
        r.rev_number as i64,
    ]
}

/// Whether `a` and `d` describe a well-formed record: every value in its
/// range and every code known.
pub open spec fn array_fits(a: Seq<i64>, d: Seq<u8>) -> bool {
    &&& a.len() == 18
    &&& d.len() == 8
    &&& 0 <= a[0] < 100000
    &&& (a[1] == 85 || a[1] == 67 || a[1] == 83)
    &&& 0 <= a[2] < 100
    &&& 0 <= a[3] < 100_000_000_000
    &&& -100_000_000 < a[4] < 100_000_000
    &&& -99999 <= a[5] <= 99999
    &&& -9 <= a[6] <= 9
    &&& -99999 <= a[7] <= 99999
    &&& -9 <= a[8] <= 9
    &&& (a[9] == 0 || a[9] == 2 || a[9] == 4 || a[9] == 6)
    &&& 0 <= a[10] < 10000
    &&& 0 <= a[11] < 10_000_000
    &&& 0 <= a[12] < 10_000_000
    &&& 0 <= a[13] < 10_000_000
    &&& 0 <= a[14] < 10_000_000
    &&& 0 <= a[15] < 10_000_000
    &&& 0 <= a[16] < 10_000_000_000
    &&& 0 <= a[17] < 100000
}

impl TleRecord {
    /// The numeric array form of the record.
    pub fn to_array(&self) -> (a: Vec<i64>)
        ensures
            a@ == record_array(*self),
    {
        let mut a: Vec<i64> = Vec::new();
        a.push(self.satnum as i64);
        a.push(self.classification.to_byte() as i64);
        a.push(self.epoch_year as i64);
        a.push(self.epoch_day as i64);
        a.push(self.mean_motion_dot);
        a.push(self.mean_motion_ddot.mantissa as i64);
        a.push(self.mean_motion_ddot.exponent as i64);
        a.push(self.drag.mantissa as i64);
        a.push(self.drag.exponent as i64);
        a.push(self.tle_type.code() as i64);
        a.push(self.elset_number as i64);
        a.push(self.inclination as i64);
        a.push(self.raan as i64);
        a.push(self.eccentricity as i64);
        a.push(self.arg_perigee as i64);
        a.push(self.mean_anomaly as i64);
        a.push(self.mean_motion as i64);
        a.push(self.rev_number as i64);
        assert(a@ =~= record_array(*self));
        a
    }

    /// The record that an array and a designator describe.
    pub fn from_array(a: &[i64], designator: &[u8]) -> (r: Result<TleRecord, TleError>)
        ensures
            r is Ok <==> array_fits(a@, designator@),
            r matches Ok(t) ==> t.wf() && record_array(t) == a@ && t.designator@ == designator@,
            r is Err ==> r == Err::<TleRecord, TleError>(TleError::BadArray),
    {
        if a.len() != ARRAY_LEN || designator.len() != 8 {
            return Err(TleError::BadArray);
        }
        let ok = 0 <= a[0] && a[0] < 100000 && (a[1] == 85 || a[1] == 67 || a[1] == 83) && 0 <= a[2]
            && a[2] < 100 && 0 <= a[3] && a[3] < 100_000_000_000 && -100_000_000 < a[4] && a[4]
            < 100_000_000 && -99999 <= a[5] && a[5] <= 99999 && -9 <= a[6] && a[6] <= 9 && -99999
            <= a[7] && a[7] <= 99999 && -9 <= a[8] && a[8] <= 9 && (a[9] == 0 || a[9] == 2 || a[9]
            == 4 || a[9] == 6) && 0 <= a[10] && a[10] < 10000 && 0 <= a[11] && a[11] < 10_000_000
            && 0 <= a[12] && a[12] < 10_000_000 && 0 <= a[13] && a[13] < 10_000_000 && 0 <= a[14]
            && a[14] < 10_000_000 && 0 <= a[15] && a[15] < 10_000_000 && 0 <= a[16] && a[16]
            < 10_000_000_000 && 0 <= a[17] && a[17] < 100000;
        if !ok {
            return Err(TleError::BadArray);
        }
        let mut d: Vec<u8> = Vec::new();
        push_all(&mut d, designator);
        let t = TleRecord {
            satnum: a[0] as u32,
            classification: Classification::from_byte(a[1] as u8),
            designator: d,
            epoch_year: a[2] as u8,
            epoch_day: a[3] as u64,
            mean_motion_dot: a[4],
            mean_motion_ddot: ExpValue { mantissa: a[5] as i32, exponent: a[6] as i8 },
            drag: ExpValue { mantissa: a[7] as i32, exponent: a[8] as i8 },
            tle_type: TLEType::from_code(a[9] as i32),
            elset_number: a[10] as u16,
            inclination: a[11] as u32,
            raan: a[12] as u32,
            eccentricity: a[13] as u32,
            arg_perigee: a[14] as u32,
            mean_anomaly: a[15] as u32,
            mean_motion: a[16] as u64,
            rev_number: a[17] as u32,
        };
        assert(record_array(t) =~= a@);
        Ok(t)
    }
}

/// Two records hold the same fields, the designator compared by its text.
pub open spec fn same_record(a: TleRecord, b: TleRecord) -> bool {
    a.designator@ == b.designator@ && (TleRecord { designator: b.designator, ..a }) == b
}

/// A well-formed record always has an array form that fits, and the array
/// form determines the record.
pub proof fn lemma_array_round_trip(r: TleRecord, q: TleRecord)
    requires
        r.wf(),
    ensures
        array_fits(record_array(r), r.designator@),
        q.wf() && record_array(q) == record_array(r) && q.designator@ == r.designator@ ==> same_record(
            q,
            r,
        ),
{
    if q.wf() && record_array(q) == record_array(r) && q.designator@ == r.designator@ {
        assert(record_array(q)[1] == record_array(r)[1]);
        assert(record_array(q)[9] == record_array(r)[9]);
        assert(q.classification == r.classification);
        assert(q.tle_type == r.tle_type);
        assert(q.mean_motion_ddot == r.mean_motion_ddot) by {
            assert(record_array(q)[5] == record_array(r)[5]);
            assert(record_array(q)[6] == record_array(r)[6]);
        }
        assert(q.drag == r.drag) by {
            assert(record_array(q)[7] == record_array(r)[7]);
            assert(record_array(q)[8] == record_array(r)[8]);
        }
        assert(record_array(q)[0] == record_array(r)[0]);
        assert(record_array(q)[2] == record_array(r)[2]);
        assert(record_array(q)[3] == record_array(r)[3]);
        assert(record_array(q)[4] == record_array(r)[4]);
        assert(record_array(q)[10] == record_array(r)[10]);
        assert(record_array(q)[11] == record_array(r)[11]);
        assert(record_array(q)[12] == record_array(r)[12]);
        assert(record_array(q)[13] == record_array(r)[13]);
        assert(record_array(q)[14] == record_array(r)[14]);
        assert(record_array(q)[15] == record_array(r)[15]);
        assert(record_array(q)[16] == record_array(r)[16]);
        assert(record_array(q)[17] == record_array(r)[17]);
    }
}

/// Parses a line pair into its array form and designator.
pub fn lines_to_arrays(line1: &[u8], line2: &[u8]) -> (r: Result<(Vec<i64>, Vec<u8>), TleError>)
    ensures
        match r {
            Ok(x) => tle_check(line1@, line2@) is Ok && exists|q: TleRecord|
                #[trigger] tle_decodes_to(line1@, line2@, q) && q.wf() && x.0@ == record_array(q)
                    && x.1@ == q.designator@,
            Err(e) => tle_check(line1@, line2@) == Err::<(), TleError>(e),
        },
{
    match parse_tle(line1, line2) {
        Ok(p) => {
            let a = p.record.to_array();
            let d = p.record.designator;
            Ok((a, d))
        },
        Err(e) => Err(e),
    }
}

/// The canonical lines of the record that an array and a designator describe.
pub fn arrays_to_lines(a: &[i64], designator: &[u8]) -> (r: Result<(Vec<u8>, Vec<u8>), TleError>)
    ensures
        r is Ok <==> array_fits(a@, designator@),
        r matches Ok(l) ==> exists|q: TleRecord|
            #[trigger] record_array(q) == a@ && q.designator@ == designator@ && q.wf() && l.0@
                == line1_text(q) && l.1@ == line2_text(q),
        r is Err ==> r == Err::<(Vec<u8>, Vec<u8>), TleError>(TleError::BadArray),
{
    match TleRecord::from_array(a, designator) {
        Ok(t) => Ok(format_tle(&t)),
        Err(e) => Err(e),
    }
}

/// Going from lines to arrays and back gives the canonical lines of the
/// parsed record: any well-formed record with the same array form and
/// designator formats to the same text.
pub proof fn lemma_arrays_to_lines_canonical(r: TleRecord, q: TleRecord)
    requires
        r.wf(),
        q.wf(),
        record_array(q) == record_array(r),
        q.designator@ == r.designator@,
    ensures
        line1_text(q) == line1_text(r),
        line2_text(q) == line2_text(r),
{
    lemma_array_round_trip(r, q);
    let u = TleRecord { designator: r.designator, ..q };
    assert(u == r);
    assert(line1_body(q) =~= line1_body(r));
    assert(line2_body(q) =~= line2_body(r));
}

} // verus!
