use saal::field::{
    count_digits, decode_exp_field, decode_optional_field, push_optional, decode_fixed_field, decode_signed_fraction_field,
    decode_uint_field, push_exp, push_fixed, push_signed_fraction, push_space_padded,
    push_zero_padded, ExpValue,
};

#[test]
fn uint_fields() {
    assert_eq!(decode_uint_field(b"  123"), Some(123));
    assert_eq!(decode_uint_field(b"00042"), Some(42));
    assert_eq!(decode_uint_field(b"     "), Some(0));
    assert_eq!(decode_uint_field(b" 1 2"), None);
    assert_eq!(decode_uint_field(b"12a"), None);
}

#[test]
fn fixed_fields() {
    assert_eq!(decode_fixed_field(b" 51.6416", 3, 4, 10000), Some(516416));
    assert_eq!(decode_fixed_field(b"264.51782528", 3, 8, 100_000_000), Some(26451782528));
    assert_eq!(decode_fixed_field(b" 51,6416", 3, 4, 10000), None);
    assert_eq!(decode_fixed_field(b" 51.64 6", 3, 4, 10000), None);
}

#[test]
fn signed_fraction_fields() {
    assert_eq!(decode_signed_fraction_field(b"-.00002182"), Some(-2182));
    assert_eq!(decode_signed_fraction_field(b" .00012345"), Some(12345));
    assert_eq!(decode_signed_fraction_field(b"+.00012345"), Some(12345));
    assert_eq!(decode_signed_fraction_field(b"*.00012345"), None);
    assert_eq!(decode_signed_fraction_field(b"-000012345"), None);
}

#[test]
fn exp_fields() {
    assert_eq!(decode_exp_field(b"-11606-4"), Some(ExpValue { mantissa: -11606, exponent: -4 }));
    assert_eq!(decode_exp_field(b" 10000 1"), Some(ExpValue { mantissa: 10000, exponent: 1 }));
    assert_eq!(decode_exp_field(b" 10000+1"), Some(ExpValue { mantissa: 10000, exponent: 1 }));
    assert_eq!(decode_exp_field(b" 10000*1"), None);
    assert_eq!(decode_exp_field(b" 1000a-1"), None);
}

#[test]
fn encodings() {
    let mut out = Vec::new();
    push_zero_padded(&mut out, 42, 5);
    push_space_padded(&mut out, 42, 4);
    push_fixed(&mut out, 516416, 3, 4, 10000, false);
    push_fixed(&mut out, 1234567, 3, 8, 100_000_000, true);
    push_signed_fraction(&mut out, -2182, 8);
    push_exp(&mut out, ExpValue { mantissa: 0, exponent: 0 });
    push_exp(&mut out, ExpValue { mantissa: -11606, exponent: -4 });
    assert_eq!(
        String::from_utf8(out).unwrap(),
        "00042  42 51.6416000.01234567-.00002182 00000+0-11606-4"
    );
    assert_eq!(count_digits(0), 1);
    assert_eq!(count_digits(99999), 5);
    assert_eq!(count_digits(u64::MAX), 20);
}

#[test]
fn optional_fields() {
    assert_eq!(decode_optional_field(b"     "), Some(None));
    assert_eq!(decode_optional_field(b"   00"), Some(Some(0)));
    assert_eq!(decode_optional_field(b"  417"), Some(Some(417)));
    assert_eq!(decode_optional_field(b"  4x7"), None);
    let mut out = Vec::new();
    push_optional(&mut out, None, 3);
    push_optional(&mut out, Some(7), 3);
    assert_eq!(out, b"     7".to_vec());
}
