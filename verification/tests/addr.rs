use atorsl::{Addr, ParseError};

#[test]
fn nil_is_zero() {
    assert!(Addr::nil().is_nil());
    assert_eq!(Addr::nil(), Addr(0));
    assert!(!Addr(1).is_nil());
    assert_eq!(Addr::default(), Addr::nil());
}

#[test]
fn parses_decimal_and_hex() {
    assert_eq!(Addr::parse("4096"), Ok(Addr(4096)));
    assert_eq!(Addr::parse("0x1000"), Ok(Addr(0x1000)));
    assert_eq!(Addr::parse("ff"), Ok(Addr(255)));
    assert_eq!(Addr::parse("FF"), Ok(Addr(255)));
    assert_eq!(Addr::parse("0x100001020"), Ok(Addr(0x1_0000_1020)));
    assert_eq!(Addr::parse("+12"), Ok(Addr(12)));
    assert_eq!(Addr::parse("0x0x10"), Ok(Addr(16)));
    assert_eq!(Addr::parse("18446744073709551615"), Ok(Addr(u64::MAX)));
    assert_eq!(Addr::parse("0xffffffffffffffff"), Ok(Addr(u64::MAX)));
}

#[test]
fn decimal_comes_before_hex() {
    assert_eq!(Addr::parse("10"), Ok(Addr(10)));
    assert_eq!(Addr::parse("0x10"), Ok(Addr(16)));
}

#[test]
fn parse_errors() {
    assert_eq!(Addr::parse(""), Err(ParseError::Empty));
    assert_eq!(Addr::parse("0x"), Err(ParseError::Empty));
    assert_eq!(Addr::parse("+"), Err(ParseError::InvalidDigit));
    assert_eq!(Addr::parse("xyz"), Err(ParseError::InvalidDigit));
    assert_eq!(Addr::parse("-1"), Err(ParseError::InvalidDigit));
    assert_eq!(Addr::parse("0X10"), Err(ParseError::InvalidDigit));
    assert_eq!(Addr::parse("0x10\n"), Err(ParseError::InvalidDigit));
    assert_eq!(Addr::parse("0x10000000000000000"), Err(ParseError::Overflow));
    assert_eq!(Addr::parse("18446744073709551616"), Err(ParseError::Overflow));
}

#[test]
fn parse_agrees_with_std() {
    let inputs = [
        "0", "1", "255", "0x0", "0xdeadBEEF", "beef", "+7", "++7", "0x+7", "12a", "g", " 1", "1 ",
        "0x0xff", "x0", "00x1", "0xffffffffffffffffff", "99999999999999999999", "٣", "",
    ];
    for s in inputs {
        let std = s
            .parse::<u64>()
            .or_else(|_| u64::from_str_radix(s.trim_start_matches("0x"), 16))
            .ok();
        assert_eq!(Addr::parse(s).ok(), std.map(Addr), "{:?}", s);
    }
}

#[test]
fn formats_as_padded_hex() {
    assert_eq!(Addr(0).to_string(), "0x0000000000000000");
    assert_eq!(Addr(0x1_0000_1020).to_string(), "0x0000000100001020");
    assert_eq!(Addr(u64::MAX).to_string(), "0xffffffffffffffff");
    assert_eq!(Addr(0xABCDEF).to_string().len(), 18);
    assert_eq!(Addr(0xABCDEF).to_string(), format!("{:#018x}", 0xABCDEFu64));
}

#[test]
fn checked_arithmetic() {
    assert_eq!(Addr(5).checked_add(Addr(7)), Some(Addr(12)));
    assert_eq!(Addr(u64::MAX).checked_add(Addr(1)), None);
    assert_eq!(Addr(5).checked_sub(Addr(7)), None);
    assert_eq!(Addr(7).checked_sub(Addr(5)), Some(Addr(2)));
    assert_eq!(Addr(7).checked_sub(Addr(7)), Some(Addr(0)));
    assert_eq!(Addr(7).checked_add_signed(-7), Some(Addr(0)));
    assert_eq!(Addr(7).checked_add_signed(-8), None);
    assert_eq!(Addr(7).checked_add_signed(i64::MIN), None);
    assert_eq!(Addr(1 << 63).checked_add_signed(i64::MIN), Some(Addr(0)));
    assert_eq!(Addr(u64::MAX).checked_add_signed(1), None);
    assert_eq!(Addr(u64::MAX - 1).checked_add_signed(1), Some(Addr(u64::MAX)));
    assert_eq!(Addr::from(9u64), Addr(9));
    assert_eq!(Addr(9).value(), 9);
}

#[test]
fn addresses_are_ordered() {
    assert!(Addr(1) < Addr(2));
    assert!(Addr(2) >= Addr(2));
}
