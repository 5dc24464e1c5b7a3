use saal::checksum::{append_checksum, checksum, verify};

#[test]
fn digits_and_minus_signs_sum_to_thirty_seven() {
    // 9 + 9 + 9 + 1 (minus) + 9 = 37; blanks, `+` and `.` count nothing.
    assert_eq!(checksum(b"99 9-9 +."), 7);
}

#[test]
fn letters_count_nothing() {
    assert_eq!(checksum(b"ABCxyz"), 0);
    assert_eq!(checksum(b""), 0);
    assert_eq!(checksum(b"U-5"), 6);
}

#[test]
fn verify_line_checksums() {
    assert!(verify(b"12-4"));
    assert!(!verify(b"12-1"));
    assert!(!verify(b""));
    assert!(!verify(b"12-X"));
}

#[test]
fn append_checksum_digit() {
    assert_eq!(append_checksum(b"1234"), b"12340".to_vec());
    assert_eq!(append_checksum(b"-7"), b"-78".to_vec());
    assert!(verify(&append_checksum(b"99 9-9 +.")));
}
