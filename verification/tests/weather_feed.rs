use datex_weather::error::ParseError;
use datex_weather::weather::{
    is_site_reference_tag, parse_weather, weather_end_step, weather_start_step, WeatherCollector,
    WeatherData, WeatherField, WeatherGroup,
};

const WEATHER: &str = r#"<?xml version="1.0" encoding="UTF-8"?>
<d2LogicalModel xmlns="http://datex2.eu/schema/2/2_0">
  <payloadPublication>
    <siteMeasurements>
      <measurementSiteReference id="SE_STA_VVIS_1001" targetClass="MeasurementSiteRecord" version="3"/>
      <measurementTimeDefault>2020-01-15T12:30:00+01:00</measurementTimeDefault>
      <measuredValue index="1"><measuredValue><basicData>
        <airTemperature><temperature>-1.5</temperature></airTemperature>
      </basicData></measuredValue></measuredValue>
      <measuredValue index="2"><measuredValue><basicData>
        <roadSurfaceTemperature><temperature>-3.0</temperature></roadSurfaceTemperature>
      </basicData></measuredValue></measuredValue>
      <measuredValue index="3"><measuredValue><basicData>
        <relativeHumidity><percentage>85.2</percentage></relativeHumidity>
      </basicData></measuredValue></measuredValue>
      <measuredValue index="4"><measuredValue><basicData>
        <windSpeed><speed>4.2</speed></windSpeed>
        <windDirection><directionCompass>northEast</directionCompass></windDirection>
      </basicData></measuredValue></measuredValue>
    </siteMeasurements>
    <siteMeasurements>
      <measurementSiteReference id="SE_STA_VVIS_1002" version="1"/>
      <measurementTimeDefault>2020-01-15T12:35:00+01:00</measurementTimeDefault>
      <temperature>99</temperature>
    </siteMeasurements>
  </payloadPublication>
</d2LogicalModel>
"#;

fn weather(id: &str, ts: &str, road: &str, air: &str, hum: &str, speed: &str, dir: &str) -> WeatherData {
    WeatherData {
        station_id: id.to_string(),
        timestamp: ts.to_string(),
        road_temperature: road.to_string(),
        air_temperature: air.to_string(),
        air_humidity: hum.to_string(),
        wind_speed: speed.to_string(),
        wind_direction: dir.to_string(),
    }
}

#[test]
fn reads_every_observation() {
    let records = parse_weather(WEATHER.as_bytes()).unwrap();
    assert_eq!(
        records,
        vec![
            weather("SE_STA_VVIS_1001", "2020-01-15T12:30:00+01:00", "-3.0", "-1.5", "85.2", "4.2", "northEast"),
            weather("SE_STA_VVIS_1002", "2020-01-15T12:35:00+01:00", "", "", "", "", ""),
        ]
    );
}

#[test]
fn empty_weather_feed_has_no_observations() {
    assert!(parse_weather(b"<d2LogicalModel/>").unwrap().is_empty());
}

#[test]
fn field_before_any_observation_is_refused() {
    let xml = b"<a><measurementTimeDefault>2020-01-15T12:30:00Z</measurementTimeDefault></a>";
    assert!(matches!(parse_weather(xml), Err(ParseError::NoRecord)));
}

#[test]
fn group_tags_need_no_observation() {
    let xml = b"<a><airTemperature></airTemperature><measurementSiteReference id=\"s\"/></a>";
    let records = parse_weather(xml).unwrap();
    assert_eq!(records.len(), 1);
    assert_eq!(records[0].station_id, "s");
}

#[test]
fn site_reference_without_id_is_refused() {
    let xml = b"<a><measurementSiteReference version=\"1\"/></a>";
    assert!(matches!(parse_weather(xml), Err(ParseError::MissingId)));
}

#[test]
fn site_reference_as_start_tag_is_not_an_observation() {
    let xml = b"<a><measurementSiteReference id=\"s\"></measurementSiteReference></a>";
    assert!(parse_weather(xml).unwrap().is_empty());
}

#[test]
fn broken_weather_feed_is_refused() {
    assert!(matches!(parse_weather(b"<a><b></c></a>"), Err(ParseError::Xml(_))));
}

#[test]
fn values_count_only_inside_their_group() {
    let xml = b"<a><measurementSiteReference id=\"s\"/>\
        <roadSurfaceTemperature><speed>9</speed><temperature>1.0</temperature></roadSurfaceTemperature>\
        <temperature>7</temperature><windSpeed><temperature>5</temperature><speed>3</speed></windSpeed></a>";
    let records = parse_weather(xml).unwrap();
    assert_eq!(records, vec![weather("s", "", "1.0", "", "", "3", "")]);
}

#[test]
fn start_steps_follow_the_groups() {
    assert_eq!(weather_start_step(WeatherGroup::Root, b"airTemperature"), (WeatherGroup::Air, None));
    assert_eq!(weather_start_step(WeatherGroup::Root, b"roadSurfaceTemperature"), (WeatherGroup::Road, None));
    assert_eq!(weather_start_step(WeatherGroup::Root, b"relativeHumidity"), (WeatherGroup::Humidity, None));
    assert_eq!(weather_start_step(WeatherGroup::Root, b"windSpeed"), (WeatherGroup::Wind, None));
    assert_eq!(weather_start_step(WeatherGroup::Root, b"measurementTimeDefault"), (WeatherGroup::Root, Some(WeatherField::Timestamp)));
    assert_eq!(weather_start_step(WeatherGroup::Root, b"directionCompass"), (WeatherGroup::Root, Some(WeatherField::WindDirection)));
    assert_eq!(weather_start_step(WeatherGroup::Root, b"temperature"), (WeatherGroup::Root, None));
    assert_eq!(weather_start_step(WeatherGroup::Air, b"temperature"), (WeatherGroup::Air, Some(WeatherField::AirTemperature)));
    assert_eq!(weather_start_step(WeatherGroup::Road, b"temperature"), (WeatherGroup::Road, Some(WeatherField::RoadTemperature)));
    assert_eq!(weather_start_step(WeatherGroup::Humidity, b"percentage"), (WeatherGroup::Humidity, Some(WeatherField::AirHumidity)));
    assert_eq!(weather_start_step(WeatherGroup::Wind, b"speed"), (WeatherGroup::Wind, Some(WeatherField::WindSpeed)));
    assert_eq!(weather_start_step(WeatherGroup::Air, b"windSpeed"), (WeatherGroup::Air, None));
    assert_eq!(weather_start_step(WeatherGroup::Wind, b"directionCompass"), (WeatherGroup::Wind, None));
}

#[test]
fn end_steps_close_only_their_group() {
    assert_eq!(weather_end_step(WeatherGroup::Air, b"airTemperature"), WeatherGroup::Root);
    assert_eq!(weather_end_step(WeatherGroup::Road, b"roadSurfaceTemperature"), WeatherGroup::Root);
    assert_eq!(weather_end_step(WeatherGroup::Humidity, b"relativeHumidity"), WeatherGroup::Root);
    assert_eq!(weather_end_step(WeatherGroup::Wind, b"windSpeed"), WeatherGroup::Root);
    assert_eq!(weather_end_step(WeatherGroup::Air, b"windSpeed"), WeatherGroup::Air);
    assert_eq!(weather_end_step(WeatherGroup::Root, b"airTemperature"), WeatherGroup::Root);
}

#[test]
fn group_opened_and_closed_is_back_at_root() {
    for (open, group) in [
        (&b"airTemperature"[..], WeatherGroup::Air),
        (&b"roadSurfaceTemperature"[..], WeatherGroup::Road),
        (&b"relativeHumidity"[..], WeatherGroup::Humidity),
        (&b"windSpeed"[..], WeatherGroup::Wind),
    ] {
        let (inside, field) = weather_start_step(WeatherGroup::Root, open);
        assert_eq!((inside, field), (group, None));
        assert_eq!(weather_end_step(inside, open), WeatherGroup::Root);
    }
}

#[test]
fn site_reference_tag_is_recognised() {
    assert!(is_site_reference_tag(b"measurementSiteReference"));
    assert!(!is_site_reference_tag(b"measurementSiteRecord"));
}

#[test]
fn weather_collector_fills_the_last_observation() {
    let mut c = WeatherCollector::new();
    assert!(matches!(c.start_tag(b"measurementTimeDefault"), Err(ParseError::NoRecord)));
    assert_eq!(c.start_tag(b"airTemperature").unwrap(), None);
    c.begin_observation("a".to_string());
    c.begin_observation("b".to_string());
    assert_eq!(c.start_tag(b"temperature").unwrap(), Some(WeatherField::AirTemperature));
    c.store_text(WeatherField::AirTemperature, "2".to_string());
    c.end_tag(b"airTemperature");
    assert_eq!(c.start_tag(b"temperature").unwrap(), None);
    let records = c.into_records();
    assert_eq!(records, vec![weather("a", "", "", "", "", "", ""), weather("b", "", "", "2", "", "", "")]);
}

#[test]
fn time_and_group_values_fill_one_observation() {
    let xml = "<d><measurementSiteReference id='S1'/><measurementTimeDefault>2019-03-01T12:00:00Z</measurementTimeDefault><airTemperature><temperature>1.5</temperature></airTemperature><roadSurfaceTemperature><temperature>-2.0</temperature></roadSurfaceTemperature></d>";
    let r = parse_weather(xml.as_bytes()).unwrap();
    assert_eq!(r, vec![weather("S1", "2019-03-01T12:00:00Z", "-2.0", "1.5", "", "", "")]);
}

#[test]
fn value_tags_outside_a_group_are_ignored() {
    let xml = "<d><measurementSiteReference id='A'/><temperature>5</temperature><speed>7</speed><percentage>9</percentage></d>";
    let r = parse_weather(xml.as_bytes()).unwrap();
    assert_eq!(r, vec![weather("A", "", "", "", "", "", "")]);
}

#[test]
fn later_values_overwrite_and_go_to_the_latest_observation() {
    let xml = "<d><measurementSiteReference id='A'/><windSpeed><speed>3</speed></windSpeed><windSpeed><speed>4</speed></windSpeed><measurementSiteReference id='B'/><directionCompass>N</directionCompass></d>";
    let r = parse_weather(xml.as_bytes()).unwrap();
    assert_eq!(r, vec![weather("A", "", "", "", "", "4", ""), weather("B", "", "", "", "", "", "N")]);
}

#[test]
fn weather_ids_and_texts_are_unescaped() {
    let xml = "<d><measurementSiteReference id='a&amp;b'/><directionCompass>N&amp;E</directionCompass></d>";
    let r = parse_weather(xml.as_bytes()).unwrap();
    assert_eq!(r, vec![weather("a&b", "", "", "", "", "", "N&E")]);
}

#[test]
fn time_before_any_site_reference_is_refused() {
    let xml = "<d><measurementTimeDefault>2019-03-01T12:00:00Z</measurementTimeDefault><measurementSiteReference id='A'/></d>";
    assert!(matches!(parse_weather(xml.as_bytes()), Err(ParseError::NoRecord)));
}

#[test]
fn site_reference_with_bad_id_is_refused() {
    let xml = "<d><measurementSiteReference id='a&nope;'/></d>";
    assert!(matches!(parse_weather(xml.as_bytes()), Err(ParseError::BadId(_))));
}

#[test]
fn field_with_markup_inside_is_refused() {
    let xml = "<d><measurementSiteReference id='A'/><directionCompass><x/></directionCompass></d>";
    assert!(matches!(parse_weather(xml.as_bytes()), Err(ParseError::Text(_))));
}

#[test]
fn appended_site_reference_appends_one_empty_observation() {
    let doc1 = "<d><measurementSiteReference id='A'/><windSpeed><speed>3</speed></windSpeed></d>";
    let doc2 = "<d><measurementSiteReference id='A'/><windSpeed><speed>3</speed></windSpeed><measurementSiteReference id='X'/></d>";
    let mut r1 = parse_weather(doc1.as_bytes()).unwrap();
    let r2 = parse_weather(doc2.as_bytes()).unwrap();
    r1.push(weather("X", "", "", "", "", "", ""));
    assert_eq!(r1, r2);
}

#[test]
fn same_document_same_observations() {
    assert_eq!(parse_weather(WEATHER.as_bytes()).unwrap(), parse_weather(WEATHER.as_bytes()).unwrap());
}
