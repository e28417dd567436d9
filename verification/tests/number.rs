use podping_tray::number::{decimal_text, parse_number, two_digit_text, NumberError};

#[test]
fn decimal_text_matches_display() {
    for n in [0u64, 7, 9, 10, 99, 100, 65535, 1_000_000, u64::MAX] {
        assert_eq!(decimal_text(n), format!("{}", n));
    }
}

#[test]
fn two_digit_text_pads_one_digit_only() {
    for n in [0u64, 5, 9, 10, 59, 100] {
        assert_eq!(two_digit_text(n), format!("{:02}", n));
    }
}

fn sample_numbers() -> Vec<String> {
    let mut all: Vec<String> = [
        "", "+", "-", "+5", "-5", "++5", "0", "00", "7", "1f", "1F", "FFff", "g", "1g", "12a", " 1",
        "1 ", "١",
    ]
    .iter()
    .map(|s| s.to_string())
    .collect();
    all.push(format!("{}", usize::MAX));
    all.push(format!("{}0", usize::MAX));
    all.push(format!("{:x}", usize::MAX));
    all.push(format!("{:x}0", usize::MAX));
    all.push(format!("{:x}0g", usize::MAX));
    all.push(format!("{}g", usize::MAX));
    all
}

#[test]
fn numbers_are_read_as_std_reads_them() {
    for s in sample_numbers() {
        for radix in [10usize, 16] {
            let expected = usize::from_str_radix(&s, radix as u32).map_err(|e| e.to_string());
            let got = parse_number(&s, radix).map_err(|e| e.message());
            assert_eq!(got, expected, "{:?} in base {}", s, radix);
        }
    }
}

#[test]
fn each_number_error_has_an_input() {
    assert_eq!(parse_number("", 16), Err(NumberError::Empty));
    assert_eq!(parse_number("xyz", 16), Err(NumberError::InvalidDigit));
    assert_eq!(
        parse_number("fffffffffffffffffffffffff", 16),
        Err(NumberError::TooLarge)
    );
    assert_eq!(
        parse_number("99999999999999999999999999", 10),
        Err(NumberError::TooLarge)
    );
}

#[test]
fn written_decimals_are_read_back() {
    for n in [0u64, 1, 10, 4096, 123_456_789] {
        assert_eq!(parse_number(&decimal_text(n), 10), Ok(n as usize));
    }
}
