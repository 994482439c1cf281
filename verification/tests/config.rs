use lora_ble_bridge::config::{
    choose_frequency, choose_tx_power, parse_i32, parse_integer, parse_u32, resolve_frequency,
    resolve_tx_power, Origin, DEFAULT_FREQUENCY_HZ, DEFAULT_TX_POWER_DBM, MAGNITUDE_LIMIT,
    MAX_TX_POWER_DBM, MIN_TX_POWER_DBM,
};

const SPELLINGS: [&str; 58] = [
    "",
    "0",
    "7",
    "14",
    "+14",
    "-14",
    "-4",
    "20",
    "21",
    "-0",
    "+0",
    "00",
    "007",
    "-007",
    "+007",
    "0000000000000000000000000000000017",
    "-0000000000000000000000000000000017",
    "2147483647",
    "2147483648",
    "+2147483647",
    "-2147483647",
    "-2147483648",
    "-2147483649",
    "4294967295",
    "4294967296",
    "+4294967295",
    "-4294967295",
    "4294967297",
    "-4294967296",
    "-4294967297",
    "42949672950",
    "99999999999999999999999999999999",
    "-99999999999999999999999999999999",
    "433920000",
    "868100000",
    "+",
    "-",
    "+-5",
    "-+5",
    "--5",
    "++5",
    "5-",
    "5+",
    " 5",
    "5 ",
    "1 4",
    "1_4",
    "1.4",
    "1e4",
    "0x10",
    "abc",
    "14dBm",
    "٣",
    "１４",
    "²",
    "\u{0}",
    "1\n",
    "4294967295x",
];

#[test]
fn defaults_of_the_settings() {
    assert_eq!(DEFAULT_TX_POWER_DBM, 14);
    assert_eq!(MIN_TX_POWER_DBM, -4);
    assert_eq!(MAX_TX_POWER_DBM, 20);
    assert_eq!(DEFAULT_FREQUENCY_HZ, 433_920_000);
}

#[test]
fn tx_power_without_a_setting() {
    assert_eq!(resolve_tx_power(None), (14, Origin::NotConfigured));
}

#[test]
fn tx_power_in_range_is_taken() {
    assert_eq!(resolve_tx_power(Some("17")), (17, Origin::Configured));
    assert_eq!(resolve_tx_power(Some("-4")), (-4, Origin::Configured));
    assert_eq!(resolve_tx_power(Some("20")), (20, Origin::Configured));
    assert_eq!(resolve_tx_power(Some("0")), (0, Origin::Configured));
    assert_eq!(resolve_tx_power(Some("+5")), (5, Origin::Configured));
    assert_eq!(resolve_tx_power(Some("14")), (14, Origin::Configured));
}

#[test]
fn tx_power_out_of_range_falls_back() {
    assert_eq!(resolve_tx_power(Some("21")), (14, Origin::OutOfRange));
    assert_eq!(resolve_tx_power(Some("-5")), (14, Origin::OutOfRange));
    assert_eq!(resolve_tx_power(Some("2147483647")), (14, Origin::OutOfRange));
    assert_eq!(resolve_tx_power(Some("-2147483648")), (14, Origin::OutOfRange));
}

#[test]
fn tx_power_that_is_no_number_falls_back() {
    for s in ["", "abc", "14dBm", " 14", "14 ", "1.5", "0x10", "2147483648", "-", "+", "1_0"] {
        assert_eq!(resolve_tx_power(Some(s)), (14, Origin::Unparseable), "{:?}", s);
    }
}

#[test]
fn tx_power_for_each_reading() {
    assert_eq!(choose_tx_power(None), (14, Origin::NotConfigured));
    assert_eq!(choose_tx_power(Some(None)), (14, Origin::Unparseable));
    for dbm in -4..=20 {
        assert_eq!(choose_tx_power(Some(Some(dbm))), (dbm, Origin::Configured));
    }
    for dbm in [i32::MIN, -100, -5, 21, 100, i32::MAX] {
        assert_eq!(choose_tx_power(Some(Some(dbm))), (14, Origin::OutOfRange));
    }
}

#[test]
fn frequency_without_a_setting() {
    assert_eq!(resolve_frequency(None), (433_920_000, Origin::NotConfigured));
}

#[test]
fn frequency_in_a_band_is_taken() {
    for hz in [
        433_050_000u32,
        433_920_000,
        434_790_000,
        863_000_000,
        868_100_000,
        870_000_000,
        902_000_000,
        915_000_000,
        928_000_000,
    ] {
        assert_eq!(choose_frequency(Some(Some(hz))), (hz, Origin::Configured));
        assert_eq!(resolve_frequency(Some(&format!("{}", hz))), (hz, Origin::Configured));
    }
}

#[test]
fn frequency_outside_the_bands_falls_back() {
    for hz in [
        0u32,
        433_049_999,
        434_790_001,
        500_000_000,
        862_999_999,
        870_000_001,
        901_999_999,
        928_000_001,
        u32::MAX,
    ] {
        assert_eq!(choose_frequency(Some(Some(hz))), (433_920_000, Origin::OutOfRange));
        assert_eq!(
            resolve_frequency(Some(&format!("{}", hz))),
            (433_920_000, Origin::OutOfRange)
        );
    }
}

#[test]
fn frequency_that_is_no_number_falls_back() {
    assert_eq!(choose_frequency(Some(None)), (433_920_000, Origin::Unparseable));
    for s in ["", "433.92", "433920000Hz", "-433920000", "4294967296", "868 MHz"] {
        assert_eq!(resolve_frequency(Some(s)), (433_920_000, Origin::Unparseable), "{:?}", s);
    }
}

#[test]
fn signed_numbers_read_as_the_standard_library_reads_them() {
    for s in SPELLINGS {
        assert_eq!(parse_i32(s), s.parse::<i32>().ok(), "{:?}", s);
    }
    for n in [i32::MIN, i32::MIN + 1, -21, -5, -4, -1, 0, 1, 14, 20, 21, i32::MAX - 1, i32::MAX] {
        assert_eq!(parse_i32(&format!("{}", n)), Some(n));
        assert_eq!(parse_i32(&format!("{:+}", n)), Some(n));
        assert_eq!(parse_i32(&format!("{:+011}", n)), format!("{:+011}", n).parse::<i32>().ok());
    }
}

#[test]
fn unsigned_numbers_read_as_the_standard_library_reads_them() {
    for s in SPELLINGS {
        assert_eq!(parse_u32(s), s.parse::<u32>().ok(), "{:?}", s);
    }
    for n in [0u32, 1, 9, 10, 433_920_000, 868_000_000, 928_000_000, u32::MAX - 1, u32::MAX] {
        assert_eq!(parse_u32(&format!("{}", n)), Some(n));
        assert_eq!(parse_u32(&format!("+{}", n)), Some(n));
        assert_eq!(parse_u32(&format!("-{}", n)), None);
        assert_eq!(parse_u32(&format!("{:012}", n)), Some(n));
    }
}

#[test]
fn numbers_are_read_up_to_the_limit_of_magnitude() {
    assert_eq!(MAGNITUDE_LIMIT, 4_294_967_296);
    assert_eq!(parse_integer("4294967296", true), Some(4_294_967_296));
    assert_eq!(parse_integer("-4294967296", true), Some(-4_294_967_296));
    assert_eq!(parse_integer("4294967297", true), None);
    assert_eq!(parse_integer("-4294967297", true), None);
    assert_eq!(parse_integer("4294967296", false), Some(4_294_967_296));
    assert_eq!(parse_integer("-1", false), None);
    assert_eq!(parse_integer("-1", true), Some(-1));
    assert_eq!(parse_integer("+1", false), Some(1));
    assert_eq!(parse_integer("", true), None);
    assert_eq!(parse_integer("-", true), None);
    assert_eq!(parse_integer("12a", true), None);
    for s in SPELLINGS {
        let wide = s.parse::<i64>().ok().filter(|v| v.abs() <= MAGNITUDE_LIMIT);
        assert_eq!(parse_integer(s, true), wide, "{:?}", s);
        assert_eq!(parse_integer(s, false), wide.filter(|_| !s.starts_with('-')), "{:?}", s);
    }
}
