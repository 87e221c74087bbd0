use trace4rs::config::Policy;
use trace4rs::error::{Error, NumberError};

fn bytes(size: &str) -> u64 {
    match Policy::calculate_maximum_file_size(size) {
        Ok(n) => n,
        Err(e) => panic!("{:?}", e),
    }
}

#[test]
fn size_without_unit_counts_bytes() {
    assert_eq!(bytes("10"), 10);
    assert_eq!(bytes("0"), 0);
    assert_eq!(bytes("18446744073709551615"), u64::MAX);
}

#[test]
fn size_in_bytes() {
    assert_eq!(bytes("10b"), 10);
    assert_eq!(bytes("10B"), 10);
}

#[test]
fn size_in_kilobytes() {
    assert_eq!(bytes("10kb"), 10240);
    assert_eq!(bytes("10kib"), 10240);
    assert_eq!(bytes("10KB"), 10240);
    assert_eq!(bytes("10KiB"), 10240);
}

#[test]
fn size_in_megabytes() {
    assert_eq!(bytes("1mb"), 1_048_576);
    assert_eq!(bytes("1mib"), 1_048_576);
    assert_eq!(bytes("3Mb"), 3 * 1_048_576);
}

#[test]
fn size_in_gigabytes() {
    assert_eq!(bytes("1gb"), 1_073_741_824);
    assert_eq!(bytes("1gib"), 1_073_741_824);
}

#[test]
fn size_in_terabytes() {
    assert_eq!(bytes("1tb"), 1_099_511_627_776);
    assert_eq!(bytes("1tib"), 1_099_511_627_776);
}

#[test]
fn size_with_space_around_the_unit() {
    assert_eq!(bytes("10 kb"), 10240);
    assert_eq!(bytes("10\tmb  "), 10 * 1_048_576);
    assert_eq!(bytes("7   "), 7);
    assert_eq!(bytes("7\u{a0}\u{2003}b\u{3000}"), 7);
}

#[test]
fn size_with_unknown_unit() {
    match Policy::calculate_maximum_file_size("5xy") {
        Err(Error::UnexpectedUnit(unit)) => assert_eq!(unit, "xy"),
        other => panic!("{:?}", other),
    }
    match Policy::calculate_maximum_file_size("5 k b ") {
        Err(Error::UnexpectedUnit(unit)) => assert_eq!(unit, "k b"),
        other => panic!("{:?}", other),
    }
    match Policy::calculate_maximum_file_size("5kbb") {
        Err(Error::UnexpectedUnit(unit)) => assert_eq!(unit, "kbb"),
        other => panic!("{:?}", other),
    }
    match Policy::calculate_maximum_file_size("5-1") {
        Err(Error::UnexpectedUnit(unit)) => assert_eq!(unit, "-1"),
        other => panic!("{:?}", other),
    }
}

#[test]
fn size_that_overflows() {
    match Policy::calculate_maximum_file_size("16777216tb") {
        Err(Error::Overflow { number, unit }) => {
            assert_eq!(number, 16_777_216);
            assert_eq!(unit, "tb");
        },
        other => panic!("{:?}", other),
    }
    assert_eq!(bytes("16777215tb"), 16_777_215 * 1_099_511_627_776);
    match Policy::calculate_maximum_file_size("18446744073709551615 KiB") {
        Err(Error::Overflow { number, unit }) => {
            assert_eq!(number, u64::MAX);
            assert_eq!(unit, "KiB");
        },
        other => panic!("{:?}", other),
    }
}

#[test]
fn size_without_number() {
    assert!(matches!(
        Policy::calculate_maximum_file_size(""),
        Err(Error::Number(NumberError::Empty))
    ));
    assert!(matches!(
        Policy::calculate_maximum_file_size("kb"),
        Err(Error::Number(NumberError::Empty))
    ));
    assert!(matches!(
        Policy::calculate_maximum_file_size(" 10"),
        Err(Error::Number(NumberError::Empty))
    ));
    assert!(matches!(
        Policy::calculate_maximum_file_size("+10"),
        Err(Error::Number(NumberError::Empty))
    ));
    assert!(matches!(
        Policy::calculate_maximum_file_size("-10"),
        Err(Error::Number(NumberError::Empty))
    ));
}

#[test]
fn size_with_number_above_u64() {
    assert!(matches!(
        Policy::calculate_maximum_file_size("18446744073709551616"),
        Err(Error::Number(NumberError::TooLarge))
    ));
    assert!(matches!(
        Policy::calculate_maximum_file_size("99999999999999999999999kb"),
        Err(Error::Number(NumberError::TooLarge))
    ));
}
