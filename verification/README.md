# datex_weather

Reads the DATEX II road-weather feeds of a measurement-station network and
writes them to MySQL.

- `src/` is the verified library (Verus):
  - `xml.rs`: the XML pull reader (quick_xml) behind a small trusted
    interface, tag names and attributes as plain bytes, with a model of the
    reader's state (document, trimming, operations so far) whose steps are
    named, so that reading a document is a function of its bytes;
  - `station.rs`: the station feed, a state machine over start tags that keeps
    one station per record and only the first of each coordinate pair;
    `parse_station(xml)` equals `station_outcome(xml)`, errors included;
  - `weather.rs`: the weather feed, a state machine over measurement groups
    (air, road, humidity, wind) that keeps one observation per site reference;
    `parse_weather(xml)` equals `weather_outcome(xml)`, errors included;
  - `database.rs`: connection settings (password and port from the
    environment, with their defaults) and the database row of an observation,
    its time moved to UTC (chrono);
  - `error.rs`: why a feed could not be read.
- `app/` is the service around it: fetching the feeds over HTTP (reqwest),
  reading the cached files, and the MySQL statements (mysql).
- `tests/` runs the library on sample feeds.
