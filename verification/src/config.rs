//! The two settings of the long-range link, transmit power and carrier
//! frequency. Each is resolved once, at startup, from an optional string;
//! a string that is no number, or a number that is out of range, falls
//! back to the default and never stops the bridge.

use vstd::prelude::*;

verus! {

/// Transmit power where none is configured, in dBm.
pub const DEFAULT_TX_POWER_DBM: i32 = 14;

/// Lowest transmit power that the transceiver offers, in dBm.
pub const MIN_TX_POWER_DBM: i32 = -4;

/// Highest transmit power that the transceiver offers, in dBm.
pub const MAX_TX_POWER_DBM: i32 = 20;

/// Carrier frequency where none is configured, in Hz.
pub const DEFAULT_FREQUENCY_HZ: u32 = 433_920_000;

/// How a setting came to its value.
#[derive(Debug, Clone, Copy, PartialEq, Eq, Structural)]
pub enum Origin {
    /// The configured value is in range and was taken.
    Configured,
    /// The configured value is a number out of range: the default stands in.
    OutOfRange,
    /// The configured string is no number: the default stands in.
    Unparseable,
    /// Nothing is configured: the default stands in.
    NotConfigured,
}

/// Whether the transceiver offers this transmit power.
pub open spec fn tx_power_in_range(dbm: int) -> bool {
    -4 <= dbm <= 20
}

/// Whether the frequency lies in one of the ISM sub-bands around 433 MHz,
/// 868 MHz and 915 MHz.
pub open spec fn frequency_in_band(hz: int) -> bool {
    ||| 433_050_000 <= hz <= 434_790_000
    ||| 863_000_000 <= hz <= 870_000_000
    ||| 902_000_000 <= hz <= 928_000_000
}

/// The transmit power for a setting: `None` where nothing is configured,
/// `Some(None)` where the string is no number.
pub open spec fn tx_power_for(setting: Option<Option<i32>>) -> (i32, Origin) {
    match setting {
        None => (14, Origin::NotConfigured),
        Some(None) => (14, Origin::Unparseable),
        Some(Some(dbm)) => if tx_power_in_range(dbm as int) {
            (dbm, Origin::Configured)
        } else {
            (14, Origin::OutOfRange)
        },
    }
}

/// The carrier frequency for a setting: `None` where nothing is configured,
/// `Some(None)` where the string is no number.
pub open spec fn frequency_for(setting: Option<Option<u32>>) -> (u32, Origin) {
    match setting {
        None => (433_920_000, Origin::NotConfigured),
        Some(None) => (433_920_000, Origin::Unparseable),
        Some(Some(hz)) => if frequency_in_band(hz as int) {
            (hz, Origin::Configured)
        } else {
            (433_920_000, Origin::OutOfRange)
        },
    }
}

/// Whether `c` is one of the digits `0` to `9`.
pub open spec fn is_digit(c: char) -> bool {
    '0' <= c && c <= '9'
}

/// Whether `s` holds decimal digits only.
pub open spec fn all_digits(s: Seq<char>) -> bool {
    forall|i: int| 0 <= i < s.len() ==> is_digit(#[trigger] s[i])
}

/// The number that a string of decimal digits spells; leading zeros count
/// for nothing.
pub open spec fn digits_value(digits: Seq<char>) -> int
    decreases digits.len(),
{
    if digits.len() == 0 {
        0
    } else {
        10 * digits_value(digits.drop_last()) + (digits.last() as int - '0' as int)
    }
}

/// The digits of a number, without the sign that may stand in front of
/// them: a `+` or, for a signed number, a `-`.
pub open spec fn unsigned_part(s: Seq<char>, signed: bool) -> Seq<char> {
    if s.len() > 0 && (s[0] == '+' || (signed && s[0] == '-')) {
        s.skip(1)
    } else {
        s
    }
}

/// The integer that `s` spells: one decimal digit or more, after an
/// optional `+` or, for a signed number, an optional `-` in its place.
/// Nothing else may stand in the string, neither blanks nor separators.
pub open spec fn spelled(s: Seq<char>, signed: bool) -> Option<int> {
    let digits = unsigned_part(s, signed);
    if digits.len() == 0 || !all_digits(digits) {
        None
    } else if signed && s[0] == '-' {
        Some(-digits_value(digits))
    } else {
        Some(digits_value(digits))
    }
}

/// The `i32` that `s` spells, if it spells an integer that is one.
pub open spec fn spelled_i32(s: Seq<char>) -> Option<i32> {
    match spelled(s, true) {
        Some(v) => if i32::MIN <= v <= i32::MAX {
            Some(v as i32)
        } else {
            None
        },
        None => None,
    }
}

/// The `u32` that `s` spells, if it spells an integer that is one.
pub open spec fn spelled_u32(s: Seq<char>) -> Option<u32> {
    match spelled(s, false) {
        Some(v) => if v <= u32::MAX {
            Some(v as u32)
        } else {
            None
        },
        None => None,
    }
}

/// A string of digits spells no less than any of its beginnings.
proof fn lemma_digits_grow(digits: Seq<char>, k: int)
    requires
        all_digits(digits),
        0 <= k <= digits.len(),
    ensures
        0 <= digits_value(digits.take(k)) <= digits_value(digits),
    decreases digits.len() - k,
{
    if k == digits.len() {
        assert(digits.take(k) =~= digits);
        lemma_digits_nonnegative(digits);
    } else {
        lemma_digits_grow(digits, k + 1);
        assert(digits.take(k + 1).drop_last() =~= digits.take(k));
    }
}

proof fn lemma_digits_nonnegative(digits: Seq<char>)
    requires
        all_digits(digits),
    ensures
        0 <= digits_value(digits),
    decreases digits.len(),
{
    if digits.len() > 0 {
        lemma_digits_nonnegative(digits.drop_last());
    }
}

/// Largest magnitude that [`parse_integer`] tells: enough for every `i32`
/// and every `u32`.
pub const MAGNITUDE_LIMIT: i64 = 0x1_0000_0000;

/// Reads the integer that `s` spells, as far as its magnitude is within
/// [`MAGNITUDE_LIMIT`]; `None` for a string that spells no integer and for
/// an integer beyond that.
pub fn parse_integer(s: &str, signed: bool) -> (r: Option<i64>)
    ensures
        r == match spelled(s@, signed) {
            Some(v) => if -MAGNITUDE_LIMIT <= v <= MAGNITUDE_LIMIT {
                Some(v as i64)
            } else {
                None
            },
            None => None,
        },
{
    let mut negative = false;
    let mut magnitude: i64 = 0;
    let mut any_digit = false;
    let mut first = true;
    let ghost digits = unsigned_part(s@, signed);
    let ghost lead = s@.len() - digits.len();
    let ghost mut digits_read: int = 0;
    for c in it: s.chars()
        invariant
            it.seq() == s@,
            digits == unsigned_part(s@, signed),
            lead == s@.len() - digits.len(),
            first <==> it.index() == 0,
            first ==> digits_read == 0 && magnitude == 0 && !negative,
            !first ==> it.index() >= lead && digits_read == it.index() - lead,
            !first ==> (negative <==> signed && s@[0] == '-'),
            any_digit <==> digits_read > 0,
            0 <= digits_read <= digits.len(),
            all_digits(digits.take(digits_read)),
            magnitude == digits_value(digits.take(digits_read)),
            0 <= magnitude <= MAGNITUDE_LIMIT,
    {
        if first && (c == '+' || (signed && c == '-')) {
            negative = c == '-';
        } else if '0' <= c && c <= '9' {
            proof {
                assert(digits.take(digits_read + 1).drop_last() =~= digits.take(digits_read));
                if all_digits(digits) {
                    lemma_digits_grow(digits, digits_read + 1);
                }
                digits_read = digits_read + 1;
            }
            magnitude = magnitude * 10 + (c as u8 - 48) as i64;
            if magnitude > MAGNITUDE_LIMIT {
                return None;
            }
            any_digit = true;
        } else {
            proof {
                assert(digits[digits_read] == c);
            }
            return None;
        }
        first = false;
    }
    proof {
        assert(digits.take(digits_read) =~= digits);
    }
    if !any_digit {
        None
    } else if negative {
        Some(-magnitude)
    } else {
        Some(magnitude)
    }
}

/// Reads the `i32` that `s` spells.
pub fn parse_i32(s: &str) -> (r: Option<i32>)
    ensures
        r == spelled_i32(s@),
{
    match parse_integer(s, true) {
        Some(v) => if -0x8000_0000 <= v && v <= 0x7fff_ffff {
            Some(v as i32)
        } else {
            None
        },
        None => None,
    }
}

/// Reads the `u32` that `s` spells.
pub fn parse_u32(s: &str) -> (r: Option<u32>)
    ensures
        r == spelled_u32(s@),
{
    proof {
        if all_digits(unsigned_part(s@, false)) {
            lemma_digits_nonnegative(unsigned_part(s@, false));
        }
    }
    match parse_integer(s, false) {
        Some(v) => if 0 <= v && v <= 0xffff_ffff {
            Some(v as u32)
        } else {
            None
        },
        None => None,
    }
}

/// The transmit power for what was read from the configuration: the number
/// itself where it is between -4 and 20 dBm, and 14 dBm otherwise.
pub fn choose_tx_power(setting: Option<Option<i32>>) -> (choice: (i32, Origin))
    ensures
        choice == tx_power_for(setting),
        tx_power_in_range(choice.0 as int),
{
    match setting {
        None => (DEFAULT_TX_POWER_DBM, Origin::NotConfigured),
        Some(None) => (DEFAULT_TX_POWER_DBM, Origin::Unparseable),
        Some(Some(dbm)) => {
            if MIN_TX_POWER_DBM <= dbm && dbm <= MAX_TX_POWER_DBM {
                (dbm, Origin::Configured)
            } else {
                (DEFAULT_TX_POWER_DBM, Origin::OutOfRange)
            }
        },
    }
}

/// The carrier frequency for what was read from the configuration: the
/// number itself where it lies in an ISM sub-band, and 433.92 MHz
/// otherwise.
pub fn choose_frequency(setting: Option<Option<u32>>) -> (choice: (u32, Origin))
    ensures
        choice == frequency_for(setting),
        frequency_in_band(choice.0 as int),
{
    match setting {
        None => (DEFAULT_FREQUENCY_HZ, Origin::NotConfigured),
        Some(None) => (DEFAULT_FREQUENCY_HZ, Origin::Unparseable),
        Some(Some(hz)) => {
            if (433_050_000 <= hz && hz <= 434_790_000) || (863_000_000 <= hz && hz
                <= 870_000_000) || (902_000_000 <= hz && hz <= 928_000_000) {
                (hz, Origin::Configured)
            } else {
                (DEFAULT_FREQUENCY_HZ, Origin::OutOfRange)
            }
        },
    }
}

/// Resolves the transmit power from the configured string, if there is one.
/// Whatever the string holds, the result is a power that the transceiver
/// offers.
pub fn resolve_tx_power(configured: Option<&str>) -> (choice: (i32, Origin))
    ensures
        choice == tx_power_for(
            match configured {
                None => None,
                Some(s) => Some(spelled_i32(s@)),
            },
        ),
        tx_power_in_range(choice.0 as int),
{
    match configured {
        None => choose_tx_power(None),
        Some(s) => choose_tx_power(Some(parse_i32(s))),
    }
}

/// Resolves the carrier frequency from the configured string, if there is
/// one. Whatever the string holds, the result lies in an ISM sub-band.
pub fn resolve_frequency(configured: Option<&str>) -> (choice: (u32, Origin))
    ensures
        choice == frequency_for(
            match configured {
                None => None,
                Some(s) => Some(spelled_u32(s@)),
            },
        ),
        frequency_in_band(choice.0 as int),
{
    match configured {
        None => choose_frequency(None),
        Some(s) => choose_frequency(Some(parse_u32(s))),
    }
}

} // verus!
