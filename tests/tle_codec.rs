use saal::enums::{Classification, TLEType};
use saal::field::ExpValue;
use saal::tle::{
    add_check_sums, fix_blank_exponent_sign, format_tle, get_check_sums, parse_tle, TleError,
};

const ISS_1: &str = "1 25544U 98067A   08264.51782528 -.00002182  00000-0 -11606-4 0  2927";
const ISS_2: &str = "2 25544  51.6416 247.4627 0006703 130.5360 325.0288 15.72125391563537";

#[test]
fn parse_iss_fields() {
    let p = parse_tle(ISS_1.as_bytes(), ISS_2.as_bytes()).unwrap();
    let r = &p.record;
    assert!(p.line1_checksum_ok);
    assert!(p.line2_checksum_ok);
    assert_eq!(r.satnum, 25544);
    assert_eq!(r.classification, Classification::Unclassified);
    assert_eq!(r.designator, b"98067A  ".to_vec());
    assert_eq!(r.epoch_year, 8);
    assert_eq!(r.epoch_day, 26451782528);
    assert_eq!(r.mean_motion_dot, -2182);
    assert_eq!(r.mean_motion_ddot, ExpValue { mantissa: 0, exponent: 0 });
    assert_eq!(r.drag, ExpValue { mantissa: -11606, exponent: -4 });
    assert_eq!(r.tle_type, TLEType::SGP);
    assert_eq!(r.elset_number, 292);
    assert_eq!(r.inclination, 516416);
    assert_eq!(r.raan, 2474627);
    assert_eq!(r.eccentricity, 6703);
    assert_eq!(r.arg_perigee, 1305360);
    assert_eq!(r.mean_anomaly, 3250288);
    assert_eq!(r.mean_motion, 1572125391);
    assert_eq!(r.rev_number, 56353);
}

#[test]
fn format_iss_canonical_text() {
    let p = parse_tle(ISS_1.as_bytes(), ISS_2.as_bytes()).unwrap();
    let (l1, l2) = format_tle(&p.record);
    assert_eq!(
        String::from_utf8(l1).unwrap(),
        "1 25544U 98067A   08264.51782528 -.00002182  00000+0 -11606-4 0  2926"
    );
    assert_eq!(String::from_utf8(l2).unwrap(), ISS_2);
}

#[test]
fn reparse_is_fixed_point() {
    let first = parse_tle(ISS_1.as_bytes(), ISS_2.as_bytes()).unwrap();
    let (l1, l2) = format_tle(&first.record);
    let second = parse_tle(&l1, &l2).unwrap();
    assert_eq!(second.record, first.record);
    let (m1, m2) = format_tle(&second.record);
    assert_eq!(m1, l1);
    assert_eq!(m2, l2);
}

#[test]
fn formatted_lines_verify() {
    let p = parse_tle(ISS_1.as_bytes(), ISS_2.as_bytes()).unwrap();
    let (l1, l2) = format_tle(&p.record);
    assert!(saal::checksum::verify(&l1));
    assert!(saal::checksum::verify(&l2));
}

#[test]
fn checksum_mismatch_is_reported_not_fatal() {
    let bad = ISS_1.replace("2927", "2921");
    let p = parse_tle(bad.as_bytes(), ISS_2.as_bytes()).unwrap();
    assert!(!p.line1_checksum_ok);
    assert!(p.line2_checksum_ok);
    let (l1, _l2) = format_tle(&p.record);
    assert!(saal::checksum::verify(&l1));
}

#[test]
fn blank_exponent_sign_reads_as_plus() {
    let blank = "1 25544U 98067A   08264.51782528 -.00002182  00000-0  11606 4 0  2925";
    let plus = "1 25544U 98067A   08264.51782528 -.00002182  00000-0  11606+4 0  2925";
    let a = parse_tle(blank.as_bytes(), ISS_2.as_bytes()).unwrap();
    let b = parse_tle(plus.as_bytes(), ISS_2.as_bytes()).unwrap();
    assert_eq!(a.record.drag, ExpValue { mantissa: 11606, exponent: 4 });
    assert_eq!(a.record.drag, b.record.drag);
    assert_eq!(a, b);
}

#[test]
fn fix_blank_exponent_sign_writes_plus() {
    let mut line = b"1 25544U 98067A   08264.51782528 -.00002182  00000 0  11606 4 0  2925".to_vec();
    fix_blank_exponent_sign(&mut line);
    assert_eq!(
        String::from_utf8(line).unwrap(),
        "1 25544U 98067A   08264.51782528 -.00002182  00000+0  11606+4 0  2925"
    );
    let mut short = b"1 2554".to_vec();
    fix_blank_exponent_sign(&mut short);
    assert_eq!(short, b"1 2554".to_vec());
}

#[test]
fn wrong_length_is_refused() {
    let short = &ISS_1[..68];
    assert_eq!(parse_tle(short.as_bytes(), ISS_2.as_bytes()), Err(TleError::WrongLength));
}

#[test]
fn wrong_line_number_is_refused() {
    assert_eq!(parse_tle(ISS_2.as_bytes(), ISS_1.as_bytes()), Err(TleError::WrongLineNumber));
}

#[test]
fn non_numeric_field_is_refused() {
    let bad1 = ISS_1.replace("08264.51782528", "08264.5178252X");
    assert_eq!(
        parse_tle(bad1.as_bytes(), ISS_2.as_bytes()),
        Err(TleError::NonNumeric { line: 1 })
    );
    let bad2 = ISS_2.replace(" 51.6416", " 51,6416");
    assert_eq!(
        parse_tle(ISS_1.as_bytes(), bad2.as_bytes()),
        Err(TleError::NonNumeric { line: 2 })
    );
}

#[test]
fn satnum_mismatch_is_refused() {
    let other = ISS_2.replace("2 25544", "2 25545");
    assert_eq!(parse_tle(ISS_1.as_bytes(), other.as_bytes()), Err(TleError::SatnumMismatch));
}

#[test]
fn add_check_sums_sets_both_lines() {
    let mut l1 = ISS_1[..68].as_bytes().to_vec();
    let mut l2 = ISS_2.replace("563537", "563530").into_bytes();
    assert_eq!(add_check_sums(&mut l1, &mut l2), Ok(()));
    assert_eq!(String::from_utf8(l1).unwrap(), ISS_1);
    assert_eq!(String::from_utf8(l2).unwrap(), ISS_2);
    let mut s1 = b"1 2".to_vec();
    let mut s2 = ISS_2.as_bytes().to_vec();
    assert_eq!(add_check_sums(&mut s1, &mut s2), Err(TleError::WrongLength));
    assert_eq!(s1, b"1 2".to_vec());
}

#[test]
fn get_check_sums_of_iss() {
    assert_eq!(get_check_sums(ISS_1.as_bytes(), ISS_2.as_bytes()), Ok((7, 7)));
    assert_eq!(get_check_sums(b"1", ISS_2.as_bytes()), Err(TleError::WrongLength));
}

#[test]
fn type_marker_and_classification() {
    let xp = ISS_1.replace(" 0  2927", " 4  2927").replace("25544U", "25544S");
    let p = parse_tle(xp.as_bytes(), ISS_2.as_bytes()).unwrap();
    assert_eq!(p.record.tle_type, TLEType::XP);
    assert_eq!(p.record.classification, Classification::Secret);
    assert!(!p.line1_checksum_ok);
    let odd = ISS_1.replace(" 0  2927", " 7  2927").replace("25544U", "25544Q");
    let q = parse_tle(odd.as_bytes(), ISS_2.as_bytes()).unwrap();
    assert_eq!(q.record.tle_type, TLEType::SGP4);
    assert_eq!(q.record.classification, Classification::Unclassified);
}

#[test]
fn arrays_round_trip_to_canonical_lines() {
    let (a, d) = saal::tle::lines_to_arrays(ISS_1.as_bytes(), ISS_2.as_bytes()).unwrap();
    assert_eq!(
        a,
        vec![
            25544, 85, 8, 26451782528, -2182, 0, 0, -11606, -4, 0, 292, 516416, 2474627, 6703,
            1305360, 3250288, 1572125391, 56353
        ]
    );
    assert_eq!(d, b"98067A  ".to_vec());
    let (l1, l2) = saal::tle::arrays_to_lines(&a, &d).unwrap();
    let p = parse_tle(ISS_1.as_bytes(), ISS_2.as_bytes()).unwrap();
    assert_eq!((l1, l2), format_tle(&p.record));
}

#[test]
fn bad_arrays_are_refused() {
    let (mut a, d) = saal::tle::lines_to_arrays(ISS_1.as_bytes(), ISS_2.as_bytes()).unwrap();
    assert_eq!(saal::tle::arrays_to_lines(&a[..17], &d), Err(TleError::BadArray));
    assert_eq!(saal::tle::arrays_to_lines(&a, b"98067A"), Err(TleError::BadArray));
    a[9] = 3;
    assert_eq!(saal::tle::arrays_to_lines(&a, &d), Err(TleError::BadArray));
    a[9] = 4;
    a[13] = 10_000_000;
    assert_eq!(saal::tle::arrays_to_lines(&a, &d), Err(TleError::BadArray));
    assert_eq!(
        saal::tle::lines_to_arrays(ISS_2.as_bytes(), ISS_1.as_bytes()),
        Err(TleError::WrongLineNumber)
    );
}
