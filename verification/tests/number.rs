use rair_core::number::{str_to_num, to_decimal, to_hex, NumErr};

#[test]
fn decimal_numbers() {
    assert_eq!(str_to_num("0"), Ok(0));
    assert_eq!(str_to_num("7"), Ok(7));
    assert_eq!(str_to_num("4096"), Ok(4096));
    assert_eq!(str_to_num("18446744073709551615"), Ok(u64::MAX));
}

#[test]
fn hexadecimal_numbers() {
    assert_eq!(str_to_num("0x1000"), Ok(0x1000));
    assert_eq!(str_to_num("0X2000"), Ok(0x2000));
    assert_eq!(str_to_num("0x100"), Ok(0x100));
    assert_eq!(str_to_num("0xdeadBEEF"), Ok(0xdead_beef));
    assert_eq!(str_to_num("0xffffffffffffffff"), Ok(u64::MAX));
    assert_eq!(str_to_num("0x0000000000000000001"), Ok(1));
}

#[test]
fn binary_numbers() {
    assert_eq!(str_to_num("0b101"), Ok(5));
    assert_eq!(str_to_num("0B11"), Ok(3));
}

#[test]
fn octal_numbers() {
    assert_eq!(str_to_num("017"), Ok(15));
    assert_eq!(str_to_num("00"), Ok(0));
}

#[test]
fn empty_numbers() {
    assert_eq!(str_to_num(""), Err(NumErr::Empty));
    assert_eq!(str_to_num("0x"), Err(NumErr::Empty));
    assert_eq!(str_to_num("0b"), Err(NumErr::Empty));
}

#[test]
fn invalid_digits() {
    assert_eq!(str_to_num("12a"), Err(NumErr::InvalidDigit));
    assert_eq!(str_to_num("0xg"), Err(NumErr::InvalidDigit));
    assert_eq!(str_to_num("0b2"), Err(NumErr::InvalidDigit));
    assert_eq!(str_to_num("08"), Err(NumErr::InvalidDigit));
    assert_eq!(str_to_num("-1"), Err(NumErr::InvalidDigit));
    assert_eq!(str_to_num("x10"), Err(NumErr::InvalidDigit));
    assert_eq!(str_to_num(" 1"), Err(NumErr::InvalidDigit));
    assert_eq!(str_to_num("１"), Err(NumErr::InvalidDigit));
    // An invalid digit is reported wherever it stands.
    assert_eq!(str_to_num("99999999999999999999999x"), Err(NumErr::InvalidDigit));
}

#[test]
fn numbers_that_do_not_fit() {
    assert_eq!(str_to_num("18446744073709551616"), Err(NumErr::Overflow));
    assert_eq!(str_to_num("0x10000000000000000"), Err(NumErr::Overflow));
    assert_eq!(str_to_num("02000000000000000000000"), Err(NumErr::Overflow));
    assert_eq!(
        str_to_num("0b10000000000000000000000000000000000000000000000000000000000000000"),
        Err(NumErr::Overflow)
    );
}

#[test]
fn causes_as_text() {
    assert_eq!(NumErr::Empty.to_string(), "cannot parse integer from empty string");
    assert_eq!(NumErr::InvalidDigit.to_string(), "invalid digit found in string");
    assert_eq!(NumErr::Overflow.to_string(), "number too large to fit in target type");
}

#[test]
fn decimal_text() {
    assert_eq!(to_decimal(0), "0");
    assert_eq!(to_decimal(9), "9");
    assert_eq!(to_decimal(10), "10");
    assert_eq!(to_decimal(4096), "4096");
    assert_eq!(to_decimal(u64::MAX), "18446744073709551615");
}

#[test]
fn hexadecimal_text() {
    assert_eq!(to_hex(0), "0x0000000000000000");
    assert_eq!(to_hex(0x1000), "0x0000000000001000");
    assert_eq!(to_hex(0xdead_beef), "0x00000000deadbeef");
    assert_eq!(to_hex(u64::MAX), "0xffffffffffffffff");
}
