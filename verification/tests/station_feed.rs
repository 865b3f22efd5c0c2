use datex_weather::error::ParseError;
use datex_weather::station::{
    parse_station, station_tag, StationCollector, StationData, StationField, StationTag,
};

const STATIONS: &str = r#"<?xml version="1.0" encoding="UTF-8"?>
<ns0:d2LogicalModel xmlns:ns0="http://datex2.eu/schema/2/2_0">
  <ns0:payloadPublication>
    <ns0:measurementSiteTable>
      <ns0:measurementSiteRecord id="SE_STA_VVIS_1001" version="3">
        <ns0:measurementSiteName>
          <ns0:values><ns0:value lang="sv">Ale &amp; Kungälv</ns0:value></ns0:values>
        </ns0:measurementSiteName>
        <ns0:roadNumber>45</ns0:roadNumber>
        <ns0:countyNumber>14</ns0:countyNumber>
        <ns0:measurementSiteLocation>
          <ns0:pointByCoordinates><ns0:pointCoordinates>
            <ns0:latitude>57.9</ns0:latitude><ns0:longitude>12.0</ns0:longitude>
          </ns0:pointCoordinates></ns0:pointByCoordinates>
          <ns0:pointCoordinates>
            <ns0:latitude>57.91</ns0:latitude><ns0:longitude>12.01</ns0:longitude>
          </ns0:pointCoordinates>
        </ns0:measurementSiteLocation>
      </ns0:measurementSiteRecord>
      <ns0:measurementSiteRecord version="1" id="SE_STA_VVIS_1002">
        <ns0:roadNumber>E6</ns0:roadNumber>
        <ns0:latitude>58.1</ns0:latitude><ns0:longitude>11.8</ns0:longitude>
        <ns0:latitude>58.2</ns0:latitude><ns0:longitude>11.9</ns0:longitude>
      </ns0:measurementSiteRecord>
    </ns0:measurementSiteTable>
  </ns0:payloadPublication>
</ns0:d2LogicalModel>
"#;

fn station(id: &str, name: &str, road: &str, county: &str, lat: &str, lon: &str) -> StationData {
    StationData {
        id: id.to_string(),
        name: name.to_string(),
        road_number: road.to_string(),
        county_number: county.to_string(),
        latitude: lat.to_string(),
        longitude: lon.to_string(),
    }
}

#[test]
fn reads_every_station_record() {
    let stations = parse_station(STATIONS.as_bytes()).unwrap();
    assert_eq!(
        stations,
        vec![
            station("SE_STA_VVIS_1001", "Ale & Kungälv", "45", "14", "57.9", "12.0"),
            station("SE_STA_VVIS_1002", "", "E6", "", "58.1", "11.8"),
        ]
    );
}

#[test]
fn empty_feed_has_no_stations() {
    let stations = parse_station(b"<root></root>").unwrap();
    assert!(stations.is_empty());
    let stations = parse_station(b"").unwrap();
    assert!(stations.is_empty());
}

#[test]
fn third_coordinate_is_stored_again() {
    let xml = b"<ns0:measurementSiteRecord id=\"a\">\
        <ns0:latitude>1</ns0:latitude><ns0:latitude>2</ns0:latitude><ns0:latitude>3</ns0:latitude>\
        </ns0:measurementSiteRecord>";
    let stations = parse_station(xml).unwrap();
    assert_eq!(stations.len(), 1);
    assert_eq!(stations[0].latitude, "3");
}

#[test]
fn pairing_of_coordinates_runs_across_records() {
    let xml = b"<r><ns0:measurementSiteRecord id=\"a\"><ns0:latitude>1</ns0:latitude></ns0:measurementSiteRecord>\
        <ns0:measurementSiteRecord id=\"b\"><ns0:latitude>2</ns0:latitude><ns0:latitude>3</ns0:latitude></ns0:measurementSiteRecord></r>";
    let stations = parse_station(xml).unwrap();
    assert_eq!(stations[0].latitude, "1");
    assert_eq!(stations[1].latitude, "3");
}

#[test]
fn field_before_any_record_is_refused() {
    let xml = b"<r><ns0:roadNumber>45</ns0:roadNumber></r>";
    assert!(matches!(parse_station(xml), Err(ParseError::NoRecord)));
}

#[test]
fn record_without_id_is_refused() {
    let xml = b"<ns0:measurementSiteRecord version=\"1\"></ns0:measurementSiteRecord>";
    assert!(matches!(parse_station(xml), Err(ParseError::MissingId)));
}

#[test]
fn malformed_id_attribute_is_skipped_before_the_search() {
    let xml = b"<ns0:measurementSiteRecord id=\"x\" id=\"y\"></ns0:measurementSiteRecord>";
    let stations = parse_station(xml).unwrap();
    assert_eq!(stations[0].id, "x");
}

#[test]
fn id_with_bad_escape_is_refused() {
    let xml = b"<ns0:measurementSiteRecord id=\"a&bogus;\"></ns0:measurementSiteRecord>";
    assert!(matches!(parse_station(xml), Err(ParseError::BadId(_))));
}

#[test]
fn mismatched_end_tag_is_refused() {
    let xml = b"<a><b></a>";
    assert!(matches!(parse_station(xml), Err(ParseError::Xml(_))));
}

#[test]
fn field_without_text_is_refused() {
    let xml = b"<ns0:measurementSiteRecord id=\"a\"><ns0:roadNumber><x/></ns0:roadNumber></ns0:measurementSiteRecord>";
    assert!(matches!(parse_station(xml), Err(ParseError::Text(_))));
}

#[test]
fn empty_field_reads_as_empty_text() {
    let xml = b"<ns0:measurementSiteRecord id=\"a\"><ns0:roadNumber> </ns0:roadNumber></ns0:measurementSiteRecord>";
    let stations = parse_station(xml).unwrap();
    assert_eq!(stations[0].road_number, "");
}

#[test]
fn tag_names_are_classified() {
    assert_eq!(station_tag(b"ns0:measurementSiteRecord"), StationTag::Record);
    assert_eq!(station_tag(b"ns0:value"), StationTag::Name);
    assert_eq!(station_tag(b"ns0:roadNumber"), StationTag::RoadNumber);
    assert_eq!(station_tag(b"ns0:countyNumber"), StationTag::CountyNumber);
    assert_eq!(station_tag(b"ns0:latitude"), StationTag::Latitude);
    assert_eq!(station_tag(b"ns0:longitude"), StationTag::Longitude);
    assert_eq!(station_tag(b"value"), StationTag::Other);
    assert_eq!(station_tag(b"ns0:latitudes"), StationTag::Other);
}

#[test]
fn collector_follows_the_coordinate_pairs() {
    let mut c = StationCollector::new();
    assert!(matches!(c.start_tag(StationTag::Latitude), Err(ParseError::NoRecord)));
    c.begin_record("s1".to_string());
    assert_eq!(c.start_tag(StationTag::Latitude).unwrap(), Some(StationField::Latitude));
    c.store_text(StationField::Latitude, "1.5".to_string());
    assert_eq!(c.start_tag(StationTag::Latitude).unwrap(), None);
    assert_eq!(c.start_tag(StationTag::Longitude).unwrap(), Some(StationField::Longitude));
    c.store_text(StationField::Longitude, "2.5".to_string());
    assert_eq!(c.start_tag(StationTag::Other).unwrap(), None);
    assert_eq!(c.start_tag(StationTag::Name).unwrap(), Some(StationField::Name));
    c.store_text(StationField::Name, "N".to_string());
    let stations = c.into_stations();
    assert_eq!(stations, vec![station("s1", "N", "", "", "1.5", "2.5")]);
}

#[test]
fn record_id_is_unescaped() {
    let xml = b"<ns0:measurementSiteRecord id=\"A&amp;B&#x43;\"></ns0:measurementSiteRecord>";
    let stations = parse_station(xml).unwrap();
    assert_eq!(stations[0].id, "A&BC");
}

#[test]
fn ids_in_single_quotes_are_read() {
    let xml = b"<ns0:measurementSiteRecord id='s-1'/><ns0:measurementSiteRecord id='s-2'></ns0:measurementSiteRecord>";
    let stations = parse_station(xml).unwrap();
    assert_eq!(stations.len(), 1);
    assert_eq!(stations[0].id, "s-2");
}

#[test]
fn self_closing_record_starts_no_station() {
    let xml = b"<r><ns0:measurementSiteRecord id=\"a\"/><ns0:roadNumber>1</ns0:roadNumber></r>";
    assert!(matches!(parse_station(xml), Err(ParseError::NoRecord)));
}

#[test]
fn fields_between_records_go_to_the_latest() {
    let xml = b"<r><ns0:measurementSiteRecord id=\"a\"><ns0:countyNumber>1</ns0:countyNumber></ns0:measurementSiteRecord>\
        <ns0:countyNumber>2</ns0:countyNumber><ns0:measurementSiteRecord id=\"b\"></ns0:measurementSiteRecord></r>";
    let stations = parse_station(xml).unwrap();
    assert_eq!(stations, vec![station("a", "", "", "2", "", ""), station("b", "", "", "", "", "")]);
}
