use datex_weather::database::{
    get_opts, parse_port, weather_row, weather_row_at, ConnectionSettings, RowError, UtcTimestamp,
    DEFAULT_PORT,
};
use datex_weather::weather::WeatherData;
use datex_weather::xml::{bytes_eq, find_attribute, XmlAttribute};

fn record(ts: &str) -> WeatherData {
    WeatherData {
        station_id: "SE_STA_VVIS_1001".to_string(),
        timestamp: ts.to_string(),
        road_temperature: "-3.0".to_string(),
        air_temperature: "-1.5".to_string(),
        air_humidity: "".to_string(),
        wind_speed: "4.2".to_string(),
        wind_direction: "north".to_string(),
    }
}

#[test]
fn port_numbers_parse_as_u16() {
    assert_eq!(parse_port("3307"), Some(3307));
    assert_eq!(parse_port("+80"), Some(80));
    assert_eq!(parse_port("0"), Some(0));
    assert_eq!(parse_port("00065535"), Some(65535));
    assert_eq!(parse_port("65536"), None);
    assert_eq!(parse_port("999999999999"), None);
    assert_eq!(parse_port(""), None);
    assert_eq!(parse_port("+"), None);
    assert_eq!(parse_port("-1"), None);
    assert_eq!(parse_port(" 80"), None);
    assert_eq!(parse_port("8a"), None);
    assert_eq!(parse_port("++8"), None);
    for text in ["1", "443", "3306", "65535", "+7", "x", "70000", "٣"] {
        assert_eq!(parse_port(text), text.parse::<u16>().ok());
    }
}

#[test]
fn settings_take_the_environment_where_set() {
    let s = get_opts("weather", "DB_PASS", "localhost", "datex", Some("secret".to_string()), Some("3310"));
    assert_eq!(
        s,
        ConnectionSettings {
            user: "weather".to_string(),
            pass: "secret".to_string(),
            host: "localhost".to_string(),
            port: 3310,
            db_name: "datex".to_string(),
        }
    );
}

#[test]
fn settings_fall_back_to_the_defaults() {
    let s = get_opts("u", "literal", "h", "d", None, None);
    assert_eq!(s.pass, "literal");
    assert_eq!(s.port, DEFAULT_PORT);
    assert_eq!(DEFAULT_PORT, 3306);
    let s = get_opts("u", "p", "h", "d", None, Some("not a port"));
    assert_eq!(s.port, 3306);
}

#[test]
fn weather_row_moves_the_time_to_utc() {
    let row = weather_row(&record("2020-01-15T12:30:05.25+01:00")).unwrap();
    assert_eq!(
        row.timestamp,
        UtcTimestamp { year: 2020, month: 1, day: 15, hour: 11, minute: 30, second: 5, nanosecond: 250_000_000 }
    );
    assert_eq!(row.station_id, "SE_STA_VVIS_1001");
    assert_eq!(row.air_temperature, "-1.5");
    assert_eq!(row.road_temperature, "-3.0");
    assert_eq!(row.air_humidity, "");
    assert_eq!(row.wind_speed, "4.2");
    assert_eq!(row.wind_direction, "north");
    let row = weather_row(&record("2019-12-31T23:30:00-01:00")).unwrap();
    assert_eq!(
        row.timestamp,
        UtcTimestamp { year: 2020, month: 1, day: 1, hour: 0, minute: 30, second: 0, nanosecond: 0 }
    );
}

#[test]
fn weather_row_refuses_a_missing_timestamp() {
    assert_eq!(weather_row(&record("")), Err(RowError::BadTimestamp));
    assert_eq!(weather_row(&record("2020-01-15 12:30")), Err(RowError::BadTimestamp));
}

#[test]
fn byte_strings_compare() {
    assert!(bytes_eq(b"abc", b"abc"));
    assert!(!bytes_eq(b"abc", b"abd"));
    assert!(!bytes_eq(b"ab", b"abc"));
    assert!(bytes_eq(b"", b""));
}

#[test]
fn first_well_formed_attribute_with_the_key_is_found() {
    let attrs = vec![
        None,
        Some(XmlAttribute { key: b"version".to_vec(), value: b"1".to_vec() }),
        Some(XmlAttribute { key: b"id".to_vec(), value: b"first".to_vec() }),
        Some(XmlAttribute { key: b"id".to_vec(), value: b"second".to_vec() }),
    ];
    let found = find_attribute(&attrs, b"id").unwrap();
    assert_eq!(found.value, b"first".to_vec());
    assert!(find_attribute(&attrs, b"name").is_none());
    assert!(find_attribute(&vec![None], b"id").is_none());
}

#[test]
fn row_takes_the_given_time() {
    let t = UtcTimestamp { year: 2021, month: 6, day: 30, hour: 23, minute: 59, second: 59, nanosecond: 1 };
    let row = weather_row_at(&record("whatever"), Some(t)).unwrap();
    assert_eq!(row.timestamp, t);
    assert_eq!(row.wind_direction, "north");
    assert_eq!(weather_row_at(&record("2020-01-15T12:30:00Z"), None), Err(RowError::BadTimestamp));
}

