use steam_giveaway_tool::steam::decimal::parse_unsigned;
use steam_giveaway_tool::steam::wire::deserialize_timestamp;
use steam_giveaway_tool::steam::{deserialize_u32, deserialize_u64, WireError, WireValue};

fn text(s: &str) -> WireValue {
    WireValue::Text(s.to_string())
}

#[test]
fn u64_comes_as_number_or_text() {
    assert_eq!(deserialize_u64(&WireValue::Unsigned(0)), Ok(0));
    assert_eq!(deserialize_u64(&WireValue::Unsigned(u64::MAX)), Ok(u64::MAX));
    assert_eq!(deserialize_u64(&text("76561198000000000")), Ok(76561198000000000));
    assert_eq!(deserialize_u64(&text("18446744073709551615")), Ok(u64::MAX));
    assert_eq!(deserialize_u64(&text("0")), Ok(0));
    assert_eq!(deserialize_u64(&text("007")), Ok(7));
    assert_eq!(deserialize_u64(&text("+12")), Ok(12));
}

#[test]
fn u64_errors_are_typed() {
    assert_eq!(deserialize_u64(&WireValue::Absent), Err(WireError::Missing));
    assert_eq!(deserialize_u64(&WireValue::Negative(-1)), Err(WireError::LargeOrNegative));
    assert_eq!(deserialize_u64(&WireValue::Other), Err(WireError::UnsupportedType));
    for bad in [
        "", "+", "-1", "-0", "1 ", " 1", "1_000", "0x10", "1.0", "1e3", "++1", "1+",
        "18446744073709551616", "99999999999999999999999", "\u{661}\u{662}", "12a",
    ] {
        assert_eq!(deserialize_u64(&text(bad)), Err(WireError::NotANumber), "{bad}");
    }
}

#[test]
fn u32_comes_as_number_or_text() {
    assert_eq!(deserialize_u32(&WireValue::Unsigned(730)), Ok(730));
    assert_eq!(deserialize_u32(&WireValue::Unsigned(4294967295)), Ok(u32::MAX));
    assert_eq!(deserialize_u32(&text("4294967295")), Ok(u32::MAX));
    assert_eq!(deserialize_u32(&text("730")), Ok(730));
}

#[test]
fn u32_errors_are_typed() {
    assert_eq!(deserialize_u32(&WireValue::Absent), Err(WireError::Missing));
    assert_eq!(deserialize_u32(&WireValue::Unsigned(4294967296)), Err(WireError::LargeOrNegative));
    assert_eq!(deserialize_u32(&WireValue::Negative(-730)), Err(WireError::LargeOrNegative));
    assert_eq!(deserialize_u32(&text("4294967296")), Err(WireError::NotANumber));
    assert_eq!(deserialize_u32(&text("seven")), Err(WireError::NotANumber));
    assert_eq!(deserialize_u32(&WireValue::Other), Err(WireError::UnsupportedType));
}

#[test]
fn timestamps_come_as_whole_numbers() {
    assert_eq!(deserialize_timestamp(&WireValue::Unsigned(1700000000)), Ok(1700000000));
    assert_eq!(deserialize_timestamp(&WireValue::Negative(-1)), Ok(-1));
    assert_eq!(deserialize_timestamp(&WireValue::Unsigned(i64::MAX as u64)), Ok(i64::MAX));
    assert_eq!(
        deserialize_timestamp(&WireValue::Unsigned(i64::MAX as u64 + 1)),
        Err(WireError::LargeOrNegative)
    );
    assert_eq!(deserialize_timestamp(&text("1700000000")), Err(WireError::UnsupportedType));
    assert_eq!(deserialize_timestamp(&WireValue::Other), Err(WireError::UnsupportedType));
    assert_eq!(deserialize_timestamp(&WireValue::Absent), Err(WireError::Missing));
}

#[test]
fn unsigned_text_agrees_with_the_standard_parser() {
    for sample in [
        "0", "1", "9", "10", "+0", "+", "", "-", "-5", "255", "256", "4294967295", "4294967296",
        "18446744073709551615", "18446744073709551616", "000000000000000000000000001", "1a", "a1",
        " 1", "1 ", "+-1", "+ 1", "１",
    ] {
        assert_eq!(parse_unsigned(sample, u64::MAX), sample.parse::<u64>().ok(), "{sample}");
        assert_eq!(
            parse_unsigned(sample, u32::MAX as u64),
            sample.parse::<u32>().ok().map(u64::from),
            "{sample}"
        );
        assert_eq!(
            parse_unsigned(sample, 255),
            sample.parse::<u8>().ok().map(u64::from),
            "{sample}"
        );
        assert_eq!(
            parse_unsigned(sample, 0),
            sample.parse::<u64>().ok().filter(|&n| n == 0),
            "{sample}"
        );
        assert_eq!(
            parse_unsigned(sample, 5),
            sample.parse::<u64>().ok().filter(|&n| n <= 5),
            "{sample}"
        );
    }
}
