use vstd::prelude::*;
use vstd::string::StringSliceAdditionalSpecFns;
use chrono::{DateTime, Datelike, FixedOffset, Timelike};
use crate::weather::WeatherData;

verus! {

/// The MySQL port used where none is configured.
pub const DEFAULT_PORT: u16 = 3306;

/// What a connection to the database is made with.
#[derive(Debug, PartialEq, Eq)]
pub struct ConnectionSettings {
    pub user: String,
    pub pass: String,
    pub host: String,
    pub port: u16,
    pub db_name: String,
}

/// Whether every byte of `s` is an ASCII digit.
pub open spec fn all_digits(s: Seq<u8>) -> bool {
    forall|i: int| 0 <= i < s.len() ==> 48 <= #[trigger] s[i] <= 57
}

/// The number that the decimal digits `s` stand for.
pub open spec fn digits_value(s: Seq<u8>) -> nat
    decreases s.len(),
{
    if s.len() == 0 {
        0
    } else {
        digits_value(s.drop_last()) * 10 + (s.last() - 48) as nat
    }
}

/// What `u16::from_str` makes of the bytes `s`: an optional `+` followed by one
/// or more decimal digits whose value fits in 16 bits; anything else fails.
pub open spec fn parsed_u16(s: Seq<u8>) -> Option<u16> {
    let digits = if s.len() > 0 && s[0] == 43 { s.drop_first() } else { s };
    if digits.len() > 0 && all_digits(digits) && digits_value(digits) <= 65535 {
        Some(digits_value(digits) as u16)
    } else {
        None
    }
}

/// Appending digits never makes the value smaller.
proof fn lemma_digits_value_grows(s: Seq<u8>, i: int)
    requires
        0 <= i <= s.len(),
        all_digits(s),
    ensures
        digits_value(s.take(i)) <= digits_value(s),
    decreases s.len() - i,
{
    if i < s.len() {
        lemma_digits_value_grows(s, i + 1);
        assert(s.take(i + 1).drop_last() =~= s.take(i));
    } else {
        assert(s.take(i) =~= s);
    }
}

/// Parses a port number as `str::parse::<u16>` does.
pub fn parse_port(text: &str) -> (port: Option<u16>)
    ensures
        port == parsed_u16(text.spec_bytes()),
{
    let bytes = text.as_bytes();
    let mut start: usize = 0;
    if bytes.len() > 0 && bytes[0] == 43 {
        start = 1;
    }
    let ghost digits = bytes@.subrange(start as int, bytes@.len() as int);
    assert(digits =~= if bytes@.len() > 0 && bytes@[0] == 43 { bytes@.drop_first() } else { bytes@ });
    if start == bytes.len() {
        return None;
    }
    let mut value: u32 = 0;
    let mut i: usize = start;
    while i < bytes.len()
        invariant
            start <= i <= bytes@.len(),
            start < bytes@.len(),
            bytes@ == text.spec_bytes(),
            digits == bytes@.subrange(start as int, bytes@.len() as int),
            digits == (if bytes@.len() > 0 && bytes@[0] == 43 { bytes@.drop_first() } else { bytes@ }),
            all_digits(digits.take(i - start)),
            value == digits_value(digits.take(i - start)),
            value <= 65535,
        decreases bytes.len() - i,
    {
        let b = bytes[i];
        if b < 48 || b > 57 {
            assert(digits[i - start] == b);
            return None;
        }
        let ghost k = i - start;
        assert(digits.take(k + 1).drop_last() =~= digits.take(k));
        assert(digits.take(k + 1).last() == b);
        assert(all_digits(digits.take(k + 1)));
        value = value * 10 + (b - 48) as u32;
        i += 1;
        if value > 65535 {
            proof {
                if all_digits(digits) {
                    lemma_digits_value_grows(digits, k + 1);
                }
            }
            return None;
        }
    }
    assert(digits.take(i - start) =~= digits);
    Some(value as u16)
}

/// The port of the connection: the value of the port variable where it is set
/// and parses as a port number, else the default.
pub open spec fn resolved_port(port_var: Option<Seq<u8>>) -> u16 {
    match port_var {
        Some(text) => match parsed_u16(text) {
            Some(port) => port,
            None => DEFAULT_PORT,
        },
        None => DEFAULT_PORT,
    }
}

/// The settings of the database connection. `pass` names an environment
/// variable; its value, `pass_var`, is the password where the variable is set,
/// else `pass` itself is. `port_var` is the value of the port variable, where
/// it is set.
pub fn get_opts(
    user: &str,
    pass: &str,
    addr: &str,
    database: &str,
    pass_var: Option<String>,
    port_var: Option<&str>,
) -> (settings: ConnectionSettings)
    ensures
        settings.user@ == user@,
        settings.pass@ == (match pass_var {
            Some(value) => value@,
            None => pass@,
        }),
        settings.host@ == addr@,
        settings.db_name@ == database@,
        settings.port == resolved_port(match port_var {
            Some(text) => Some(text.spec_bytes()),
            None => None,
        }),
{
    let pass = match pass_var {
        Some(value) => value,
        None => pass.to_owned(),
    };
    let port = match port_var {
        Some(text) => match parse_port(text) {
            Some(port) => port,
            None => DEFAULT_PORT,
        },
        None => DEFAULT_PORT,
    };
    ConnectionSettings {
        user: user.to_owned(),
        pass,
        host: addr.to_owned(),
        port,
        db_name: database.to_owned(),
    }
}

/// A point in time in UTC, as the database stores it.
#[derive(Debug, Clone, Copy, PartialEq, Eq)]
pub struct UtcTimestamp {
    pub year: i32,
    pub month: u32,
    pub day: u32,
    pub hour: u32,
    pub minute: u32,
    pub second: u32,
    pub nanosecond: u32,
}

/// What `DateTime::<FixedOffset>::parse_from_rfc3339` followed by `naive_utc`
/// makes of a text: the time it names, moved to UTC, or `None` where the text is
/// not an RFC 3339 date and time.
pub uninterp spec fn rfc3339_utc(text: Seq<char>) -> Option<UtcTimestamp>;

/// `DateTime::<FixedOffset>::parse_from_rfc3339`, with the result taken in UTC
/// (`naive_utc` returns the UTC time that the value holds) and broken into its
/// fields. The contract equates the result with `rfc3339_utc` of the text.
#[verifier::external_body]
fn parse_rfc3339_utc(text: &str) -> (res: Option<UtcTimestamp>)
    ensures
        res == rfc3339_utc(text@),
{
    DateTime::<FixedOffset>::parse_from_rfc3339(text).ok().map(|t| {
        let t = t.naive_utc();
        UtcTimestamp {
            year: t.year(),
            month: t.month(),
            day: t.day(),
            hour: t.hour(),
            minute: t.minute(),
            second: t.second(),
            nanosecond: t.nanosecond(),
        }
    })
}

/// An observation as it is written to the database: its time in UTC, every
/// other field as read.
#[derive(Debug, PartialEq, Eq)]
pub struct WeatherRow {
    pub station_id: String,
    pub timestamp: UtcTimestamp,
    pub air_temperature: String,
    pub road_temperature: String,
    pub air_humidity: String,
    pub wind_speed: String,
    pub wind_direction: String,
}

/// Why an observation cannot be written.
#[derive(Debug, PartialEq, Eq)]
pub enum RowError {
    BadTimestamp,
}

/// Whether `row` holds the fields of `record` with the time `timestamp`.
pub open spec fn row_of(row: WeatherRow, record: WeatherData, timestamp: UtcTimestamp) -> bool {
    &&& row.timestamp == timestamp
    &&& row.station_id@ == record.station_id@
    &&& row.air_temperature@ == record.air_temperature@
    &&& row.road_temperature@ == record.road_temperature@
    &&& row.air_humidity@ == record.air_humidity@
    &&& row.wind_speed@ == record.wind_speed@
    &&& row.wind_direction@ == record.wind_direction@
}

/// The row of an observation: its fields, with the timestamp read as RFC 3339
/// and moved to UTC; `BadTimestamp` where the timestamp is not RFC 3339.
pub fn weather_row(record: &WeatherData) -> (row: Result<WeatherRow, RowError>)
    ensures
        rfc3339_utc(record.timestamp@) is None ==> row == Err::<WeatherRow, RowError>(RowError::BadTimestamp),
        rfc3339_utc(record.timestamp@) matches Some(t) ==> row matches Ok(r) && row_of(r, *record, t),
        row matches Ok(r) ==> {
            &&& rfc3339_utc(record.timestamp@) == Some(r.timestamp)
            &&& r.station_id@ == record.station_id@
            &&& r.air_temperature@ == record.air_temperature@
            &&& r.road_temperature@ == record.road_temperature@
            &&& r.air_humidity@ == record.air_humidity@
            &&& r.wind_speed@ == record.wind_speed@
            &&& r.wind_direction@ == record.wind_direction@
        },
{
    weather_row_at(record, parse_rfc3339_utc(record.timestamp.as_str()))
}

/// The row of an observation given what its timestamp reads as: the record's
/// fields with that time, or `BadTimestamp` where the timestamp did not read.
pub fn weather_row_at(record: &WeatherData, timestamp: Option<UtcTimestamp>) -> (row: Result<WeatherRow, RowError>)
    ensures
        timestamp is None ==> row == Err::<WeatherRow, RowError>(RowError::BadTimestamp),
        timestamp matches Some(t) ==> row matches Ok(r) && row_of(r, *record, t),
        row matches Ok(r) ==> {
            &&& timestamp == Some(r.timestamp)
            &&& r.station_id@ == record.station_id@
            &&& r.air_temperature@ == record.air_temperature@
            &&& r.road_temperature@ == record.road_temperature@
            &&& r.air_humidity@ == record.air_humidity@
            &&& r.wind_speed@ == record.wind_speed@
            &&& r.wind_direction@ == record.wind_direction@
        },
{
    let timestamp = match timestamp {
        Some(t) => t,
        None => return Err(RowError::BadTimestamp),
    };
    Ok(WeatherRow {
        station_id: record.station_id.clone(),
        timestamp,
        air_temperature: record.air_temperature.clone(),
        road_temperature: record.road_temperature.clone(),
        air_humidity: record.air_humidity.clone(),
        wind_speed: record.wind_speed.clone(),
        wind_direction: record.wind_direction.clone(),
    })
}

} // verus!

verus! {

/// The value of digits written after other digits: the first part shifted by
/// one decimal place per later digit, plus the later part.
proof fn lemma_digits_value_concat(a: Seq<u8>, b: Seq<u8>)
    ensures
        digits_value(a + b) == digits_value(a) * vstd::arithmetic::power::pow(10, b.len()) + digits_value(b),
    decreases b.len(),
{
    reveal(vstd::arithmetic::power::pow);
    if b.len() == 0 {
        assert(a + b =~= a);
    } else {
        lemma_digits_value_concat(a, b.drop_last());
        assert((a + b).drop_last() =~= a + b.drop_last());
        vstd::arithmetic::mul::lemma_mul_is_associative(
            digits_value(a) as int, vstd::arithmetic::power::pow(10, (b.len() - 1) as nat), 10);
        vstd::arithmetic::mul::lemma_mul_is_distributive_add_other_way(
            10, digits_value(a) * vstd::arithmetic::power::pow(10, (b.len() - 1) as nat), digits_value(b.drop_last()) as int);
    }
}

/// How `parse_port` reads a number: a leading `+` changes nothing, nor do
/// leading zeros; appending a digit to a number multiplies it by ten and adds
/// the digit, as long as the result fits; a byte other than a digit (past an
/// optional leading `+`) makes the text no number; and no number is larger
/// than 65535.
pub proof fn lemma_port_numbers(digits: Seq<u8>, digit: u8)
    requires
        digits.len() > 0,
        digits[0] != 43,
    ensures
        parsed_u16(seq![43u8] + digits) == parsed_u16(digits),
        all_digits(digits) ==> parsed_u16(seq![48u8] + digits) == parsed_u16(digits),
        parsed_u16(digits) is Some && 48 <= digit <= 57 && 10 * parsed_u16(digits)->0 + (digit - 48) <= 65535
            ==> parsed_u16(digits.push(digit)) == Some((10 * parsed_u16(digits)->0 + (digit - 48)) as u16),
        (parsed_u16(digits) is Some && 48 <= digit <= 57 && parsed_u16(digits.push(digit)) is Some)
            ==> parsed_u16(digits.push(digit))->0 == 10 * parsed_u16(digits)->0 + (digit - 48),
        !(48 <= digit <= 57) ==> parsed_u16(digits.push(digit)) is None,
        parsed_u16(digits) is None && all_digits(digits) ==> parsed_u16(digits.push(digit)) is None,
{
    assert((seq![43u8] + digits).drop_first() =~= digits);
    let zeroed = seq![48u8] + digits;
    assert(zeroed[0] != 43);
    if all_digits(digits) {
        lemma_digits_value_concat(seq![48u8], digits);
        assert(digits_value(seq![48u8]) == 0) by {
            assert(seq![48u8].drop_last() =~= Seq::<u8>::empty());
            assert(digits_value(Seq::<u8>::empty()) == 0);
            assert(seq![48u8].last() == 48);
        }
        assert(zeroed =~= seq![48u8] + digits);
        assert(all_digits(zeroed)) by {
            assert forall|i: int| 0 <= i < zeroed.len() implies 48 <= #[trigger] zeroed[i] <= 57 by {
                if i > 0 {
                    assert(zeroed[i] == digits[i - 1]);
                }
            }
        }
    }
    let longer = digits.push(digit);
    assert(longer.drop_last() =~= digits);
    assert(longer[0] == digits[0]);
    if !(48 <= digit <= 57) {
        assert(longer[longer.len() - 1] == digit);
    }
    if parsed_u16(digits) is None && all_digits(digits) {
        if all_digits(longer) {
            assert(digits_value(longer) >= digits_value(digits)) by {
                assert(digits_value(longer) == digits_value(digits) * 10 + (digit - 48) as nat);
            }
        }
    }
    if all_digits(longer) {
        assert(all_digits(digits)) by {
            assert forall|i: int| 0 <= i < digits.len() implies 48 <= #[trigger] digits[i] <= 57 by {
                assert(digits[i] == longer[i]);
            }
        }
    }
}

} // verus!
