use vstd::prelude::*;
use crate::error::{failure_of, ParseError, ParseFailure};
use vstd::string::StringSliceAdditionalSpecFns;
use crate::xml::{
    bytes_eq, decode_attribute_value, find_attribute, lemma_distinct_names, read_event, read_text,
    after_call, first_value, initial_model, next_event, reader_model, text_until, unescaped_text,
    unread_input, ReaderCall, ReaderModel, XmlEvent, XmlEventView, XmlSource, XmlTagView,
};

verus! {

/// One weather observation of a measurement station, as the weather feed
/// reports it. Every field holds the text of its tag; a field whose tag did
/// not occur is empty.
#[derive(Debug, PartialEq, Eq)]
pub struct WeatherData {
    pub station_id: String,
    pub timestamp: String,
    pub road_temperature: String,
    pub air_temperature: String,
    pub air_humidity: String,
    pub wind_speed: String,
    pub wind_direction: String,
}

/// The value of a `WeatherData`.
pub struct Weather {
    pub station_id: Seq<char>,
    pub timestamp: Seq<char>,
    pub road_temperature: Seq<char>,
    pub air_temperature: Seq<char>,
    pub air_humidity: Seq<char>,
    pub wind_speed: Seq<char>,
    pub wind_direction: Seq<char>,
}

impl View for WeatherData {
    type V = Weather;

    open spec fn view(&self) -> Weather {
        Weather {
            station_id: self.station_id@,
            timestamp: self.timestamp@,
            road_temperature: self.road_temperature@,
            air_temperature: self.air_temperature@,
            air_humidity: self.air_humidity@,
            wind_speed: self.wind_speed@,
            wind_direction: self.wind_direction@,
        }
    }
}

/// The measurement group that reading is inside: a temperature or a speed tag
/// means something only inside its group.
#[derive(Debug, Clone, Copy, PartialEq, Eq)]
pub enum WeatherGroup {
    Root,
    Air,
    Road,
    Humidity,
    Wind,
}

/// The fields of an observation that take the text of a tag.
#[derive(Debug, Clone, Copy, PartialEq, Eq)]
pub enum WeatherField {
    Timestamp,
    RoadTemperature,
    AirTemperature,
    AirHumidity,
    WindSpeed,
    WindDirection,
}

/// Whether `name` is the empty-element tag that starts an observation.
pub open spec fn is_site_reference(name: Seq<u8>) -> bool {
    name == "measurementSiteReference".spec_bytes()
}

/// What a start tag named `name` does in group `group`: the next group, and the
/// field that takes the tag's text, if any.
pub open spec fn weather_start_of(group: WeatherGroup, name: Seq<u8>) -> (WeatherGroup, Option<WeatherField>) {
    match group {
        WeatherGroup::Root => if name == "airTemperature".spec_bytes() {
            (WeatherGroup::Air, None)
        } else if name == "measurementTimeDefault".spec_bytes() {
            (WeatherGroup::Root, Some(WeatherField::Timestamp))
        } else if name == "roadSurfaceTemperature".spec_bytes() {
            (WeatherGroup::Road, None)
        } else if name == "relativeHumidity".spec_bytes() {
            (WeatherGroup::Humidity, None)
        } else if name == "windSpeed".spec_bytes() {
            (WeatherGroup::Wind, None)
        } else if name == "directionCompass".spec_bytes() {
            (WeatherGroup::Root, Some(WeatherField::WindDirection))
        } else {
            (WeatherGroup::Root, None)
        },
        WeatherGroup::Air => if name == "temperature".spec_bytes() {
            (WeatherGroup::Air, Some(WeatherField::AirTemperature))
        } else {
            (WeatherGroup::Air, None)
        },
        WeatherGroup::Road => if name == "temperature".spec_bytes() {
            (WeatherGroup::Road, Some(WeatherField::RoadTemperature))
        } else {
            (WeatherGroup::Road, None)
        },
        WeatherGroup::Humidity => if name == "percentage".spec_bytes() {
            (WeatherGroup::Humidity, Some(WeatherField::AirHumidity))
        } else {
            (WeatherGroup::Humidity, None)
        },
        WeatherGroup::Wind => if name == "speed".spec_bytes() {
            (WeatherGroup::Wind, Some(WeatherField::WindSpeed))
        } else {
            (WeatherGroup::Wind, None)
        },
    }
}

/// The tag that opens each group, and so closes it.
pub open spec fn group_tag(group: WeatherGroup) -> Seq<u8> {
    match group {
        WeatherGroup::Root => Seq::empty(),
        WeatherGroup::Air => "airTemperature".spec_bytes(),
        WeatherGroup::Road => "roadSurfaceTemperature".spec_bytes(),
        WeatherGroup::Humidity => "relativeHumidity".spec_bytes(),
        WeatherGroup::Wind => "windSpeed".spec_bytes(),
    }
}

/// What an end tag named `name` does in group `group`: the end tag of the group
/// leads back to the root; every other end tag changes nothing.
pub open spec fn weather_end_of(group: WeatherGroup, name: Seq<u8>) -> WeatherGroup {
    if group != WeatherGroup::Root && name == group_tag(group) {
        WeatherGroup::Root
    } else {
        group
    }
}

/// Whether `name` is the tag that starts an observation.
pub fn is_site_reference_tag(name: &[u8]) -> (is: bool)
    ensures
        is == is_site_reference(name@),
{
    bytes_eq(name, "measurementSiteReference".as_bytes())
}

/// The step of the group machine for a start tag named `name`.
pub fn weather_start_step(group: WeatherGroup, name: &[u8]) -> (step: (WeatherGroup, Option<WeatherField>))
    ensures
        step == weather_start_of(group, name@),
{
    match group {
        WeatherGroup::Root => if bytes_eq(name, "airTemperature".as_bytes()) {
            (WeatherGroup::Air, None)
        } else if bytes_eq(name, "measurementTimeDefault".as_bytes()) {
            (WeatherGroup::Root, Some(WeatherField::Timestamp))
        } else if bytes_eq(name, "roadSurfaceTemperature".as_bytes()) {
            (WeatherGroup::Road, None)
        } else if bytes_eq(name, "relativeHumidity".as_bytes()) {
            (WeatherGroup::Humidity, None)
        } else if bytes_eq(name, "windSpeed".as_bytes()) {
            (WeatherGroup::Wind, None)
        } else if bytes_eq(name, "directionCompass".as_bytes()) {
            (WeatherGroup::Root, Some(WeatherField::WindDirection))
        } else {
            (WeatherGroup::Root, None)
        },
        WeatherGroup::Air => if bytes_eq(name, "temperature".as_bytes()) {
            (WeatherGroup::Air, Some(WeatherField::AirTemperature))
        } else {
            (WeatherGroup::Air, None)
        },
        WeatherGroup::Road => if bytes_eq(name, "temperature".as_bytes()) {
            (WeatherGroup::Road, Some(WeatherField::RoadTemperature))
        } else {
            (WeatherGroup::Road, None)
        },
        WeatherGroup::Humidity => if bytes_eq(name, "percentage".as_bytes()) {
            (WeatherGroup::Humidity, Some(WeatherField::AirHumidity))
        } else {
            (WeatherGroup::Humidity, None)
        },
        WeatherGroup::Wind => if bytes_eq(name, "speed".as_bytes()) {
            (WeatherGroup::Wind, Some(WeatherField::WindSpeed))
        } else {
            (WeatherGroup::Wind, None)
        },
    }
}

/// The step of the group machine for an end tag named `name`.
pub fn weather_end_step(group: WeatherGroup, name: &[u8]) -> (next: WeatherGroup)
    ensures
        next == weather_end_of(group, name@),
{
    match group {
        WeatherGroup::Root => WeatherGroup::Root,
        WeatherGroup::Air => if bytes_eq(name, "airTemperature".as_bytes()) { WeatherGroup::Root } else { group },
        WeatherGroup::Road => if bytes_eq(name, "roadSurfaceTemperature".as_bytes()) { WeatherGroup::Root } else { group },
        WeatherGroup::Humidity => if bytes_eq(name, "relativeHumidity".as_bytes()) { WeatherGroup::Root } else { group },
        WeatherGroup::Wind => if bytes_eq(name, "windSpeed".as_bytes()) { WeatherGroup::Root } else { group },
    }
}

/// What has been read of the weather feed so far: the observations, in the
/// order of their site references, and the group that reading is inside.
pub struct WeatherState {
    pub records: Seq<Weather>,
    pub group: WeatherGroup,
}

/// The state before anything is read.
pub open spec fn initial_weather_state() -> WeatherState {
    WeatherState { records: Seq::empty(), group: WeatherGroup::Root }
}

/// An observation of the given station with every other field empty.
pub open spec fn new_weather(station_id: Seq<char>) -> Weather {
    Weather {
        station_id,
        timestamp: Seq::empty(),
        road_temperature: Seq::empty(),
        air_temperature: Seq::empty(),
        air_humidity: Seq::empty(),
        wind_speed: Seq::empty(),
        wind_direction: Seq::empty(),
    }
}

/// A site reference starts a new observation, last in the list.
pub open spec fn begin_observation(state: WeatherState, station_id: Seq<char>) -> WeatherState {
    WeatherState { records: state.records.push(new_weather(station_id)), ..state }
}

/// What a start tag does to the state, and the field that takes its text; `None`
/// where that field would be filled before any observation exists.
pub open spec fn weather_start(state: WeatherState, name: Seq<u8>) -> Option<(WeatherState, Option<WeatherField>)> {
    let (group, field) = weather_start_of(state.group, name);
    if field is Some && state.records.len() == 0 {
        None
    } else {
        Some((WeatherState { group, ..state }, field))
    }
}

/// What an end tag does to the state.
pub open spec fn weather_end(state: WeatherState, name: Seq<u8>) -> WeatherState {
    WeatherState { group: weather_end_of(state.group, name), ..state }
}

/// An observation with one field set to `text`.
pub open spec fn with_weather_field(record: Weather, field: WeatherField, text: Seq<char>) -> Weather {
    match field {
        WeatherField::Timestamp => Weather { timestamp: text, ..record },
        WeatherField::RoadTemperature => Weather { road_temperature: text, ..record },
        WeatherField::AirTemperature => Weather { air_temperature: text, ..record },
        WeatherField::AirHumidity => Weather { air_humidity: text, ..record },
        WeatherField::WindSpeed => Weather { wind_speed: text, ..record },
        WeatherField::WindDirection => Weather { wind_direction: text, ..record },
    }
}

/// The text of a field tag goes to the last observation.
pub open spec fn store_weather_text(state: WeatherState, field: WeatherField, text: Seq<char>) -> WeatherState {
    let last = state.records.len() - 1;
    WeatherState { records: state.records.update(last, with_weather_field(state.records[last], field, text)), ..state }
}

/// What reading hands to the collector: a site reference with the raw value of
/// its `id` attribute, a start tag with the text that follows it (used only when the tag
/// takes text), or an end tag.
pub enum WeatherInput {
    Site(Seq<u8>),
    Start(Seq<u8>, Seq<char>),
    End(Seq<u8>),
}

/// One input applied to a state: a site reference starts an observation with
/// its decoded id; `None` where the id does not decode or a field tag comes
/// before any observation.
pub open spec fn weather_step(state: WeatherState, input: WeatherInput) -> Option<WeatherState> {
    match input {
        WeatherInput::Site(raw_id) => match unescaped_text(raw_id) {
            Some(id) => Some(begin_observation(state, id)),
            None => None,
        },
        WeatherInput::Start(name, text) => match weather_start(state, name) {
            None => None,
            Some((next, None)) => Some(next),
            Some((next, Some(field))) => Some(store_weather_text(next, field, text)),
        },
        WeatherInput::End(name) => Some(weather_end(state, name)),
    }
}

/// The inputs applied in turn from the initial state.
pub open spec fn weather_run(inputs: Seq<WeatherInput>) -> Option<WeatherState>
    decreases inputs.len(),
{
    if inputs.len() == 0 {
        Some(initial_weather_state())
    } else {
        match weather_run(inputs.drop_last()) {
            None => None,
            Some(state) => weather_step(state, inputs.last()),
        }
    }
}

/// A list of observations as a sequence of values.
pub open spec fn weather_values(records: Seq<WeatherData>) -> Seq<Weather> {
    records.map_values(|w: WeatherData| w@)
}

/// The observations read so far and the group that reading is inside.
pub struct WeatherCollector {
    records: Vec<WeatherData>,
    group: WeatherGroup,
}

impl View for WeatherCollector {
    type V = WeatherState;

    closed spec fn view(&self) -> WeatherState {
        WeatherState { records: weather_values(self.records@), group: self.group }
    }
}

impl WeatherCollector {
    /// A collector that has read nothing.
    pub fn new() -> (collector: WeatherCollector)
        ensures
            collector@ == initial_weather_state(),
    {
        let collector = WeatherCollector { records: Vec::new(), group: WeatherGroup::Root };
        assert(collector@.records =~= Seq::<Weather>::empty());
        collector
    }

    /// Starts a new observation of the given station.
    pub fn begin_observation(&mut self, station_id: String)
        ensures
            final(self)@ == begin_observation(old(self)@, station_id@),
    {
        let record = WeatherData {
            station_id,
            timestamp: String::new(),
            road_temperature: String::new(),
            air_temperature: String::new(),
            air_humidity: String::new(),
            wind_speed: String::new(),
            wind_direction: String::new(),
        };
        self.records.push(record);
        assert(self@.records =~= old(self)@.records.push(new_weather(station_id@)));
    }

    /// Handles a start tag: moves into or stays in a group, says which field, if
    /// any, takes the tag's text, and fails with `NoRecord` where that would be
    /// before any observation.
    pub fn start_tag(&mut self, name: &[u8]) -> (res: Result<Option<WeatherField>, ParseError>)
        ensures
            match weather_start(old(self)@, name@) {
                None => res matches Err(ParseError::NoRecord) && final(self)@ == old(self)@,
                Some((next, field)) => res matches Ok(f) && f == field && final(self)@ == next,
            },
    {
        let (group, field) = weather_start_step(self.group, name);
        if field.is_some() && self.records.len() == 0 {
            return Err(ParseError::NoRecord);
        }
        self.group = group;
        Ok(field)
    }

    /// Handles an end tag: the end of the current group leads back to the root.
    pub fn end_tag(&mut self, name: &[u8])
        ensures
            final(self)@ == weather_end(old(self)@, name@),
    {
        self.group = weather_end_step(self.group, name);
    }

    /// Stores the text of a field tag in the last observation.
    pub fn store_text(&mut self, field: WeatherField, text: String)
        requires
            old(self)@.records.len() > 0,
        ensures
            final(self)@ == store_weather_text(old(self)@, field, text@),
    {
        let mut record = self.records.pop().unwrap();
        match field {
            WeatherField::Timestamp => record.timestamp = text,
            WeatherField::RoadTemperature => record.road_temperature = text,
            WeatherField::AirTemperature => record.air_temperature = text,
            WeatherField::AirHumidity => record.air_humidity = text,
            WeatherField::WindSpeed => record.wind_speed = text,
            WeatherField::WindDirection => record.wind_direction = text,
        }
        self.records.push(record);
        let ghost last = old(self)@.records.len() - 1;
        assert(self@.records =~= old(self)@.records.update(
            last,
            with_weather_field(old(self)@.records[last], field, text@),
        ));
    }

    /// The observations read, in the order of their site references.
    pub fn into_records(self) -> (records: Vec<WeatherData>)
        ensures
            weather_values(records@) == self@.records,
    {
        self.records
    }
}

/// What reading the weather feed from reader state `model` and collector state
/// `state` comes to, with at most `fuel` more events: the final state, or why
/// reading stops.
pub open spec fn weather_loop(model: ReaderModel, state: WeatherState, fuel: nat) -> Result<WeatherState, ParseFailure>
    decreases fuel,
{
    if fuel == 0 {
        Err(ParseFailure::Unfinished)
    } else {
        let next = after_call(model, ReaderCall::Event);
        match next_event(model) {
            Err(_) => Err(ParseFailure::Xml),
            Ok(XmlEventView::Eof) => Ok(state),
            Ok(XmlEventView::Empty(tag)) => if is_site_reference(tag.name) {
                match first_value(tag.attributes, "id".spec_bytes()) {
                    None => Err(ParseFailure::MissingId),
                    Some(raw_id) => match unescaped_text(raw_id) {
                        None => Err(ParseFailure::BadId),
                        Some(id) => weather_loop(next, begin_observation(state, id), (fuel - 1) as nat),
                    },
                }
            } else {
                weather_loop(next, state, (fuel - 1) as nat)
            },
            Ok(XmlEventView::Start(tag)) => match weather_start(state, tag.name) {
                None => Err(ParseFailure::NoRecord),
                Some((after, None)) => weather_loop(next, after, (fuel - 1) as nat),
                Some((after, Some(field))) => match text_until(next, tag.name) {
                    Err(_) => Err(ParseFailure::Text),
                    Ok(text) => weather_loop(
                        after_call(next, ReaderCall::Text(tag.name)),
                        store_weather_text(after, field, text),
                        (fuel - 1) as nat,
                    ),
                },
            },
            Ok(XmlEventView::End(name)) => weather_loop(next, weather_end(state, name), (fuel - 1) as nat),
            Ok(XmlEventView::Other) => weather_loop(next, state, (fuel - 1) as nat),
        }
    }
}

/// What reading the weather feed `xml` comes to: the observations, in
/// document order, or why reading stops. One event per byte (and one for the
/// end) is more than reading ever takes.
pub open spec fn weather_outcome(xml: Seq<u8>) -> Result<Seq<Weather>, ParseFailure> {
    match weather_loop(initial_model(xml), initial_weather_state(), xml.len() + 1) {
        Ok(state) => Ok(state.records),
        Err(failure) => Err(failure),
    }
}

/// Reads the weather feed `xml`: one observation per `measurementSiteReference`
/// empty-element tag, with its `id` attribute as the station id, and the text of
/// the time, temperature, humidity, wind speed and wind direction tags stored in
/// the latest observation, a temperature or speed tag only inside its group.
/// The result is `weather_outcome` of the document, errors included.
pub fn parse_weather(xml: &[u8]) -> (res: Result<Vec<WeatherData>, ParseError>)
    ensures
        match weather_outcome(xml@) {
            Ok(records) => res matches Ok(v) && weather_values(v@) == records,
            Err(failure) => res matches Err(e) && failure_of(e) == failure,
        },
{
    let mut source = XmlSource::new(xml);
    let mut collector = WeatherCollector::new();
    let ghost mut fuel: nat = (xml@.len() + 1) as nat;
    let ghost goal = weather_loop(initial_model(xml@), initial_weather_state(), (xml@.len() + 1) as nat);
    loop
        invariant_except_break
            weather_loop(reader_model(source), collector@, fuel) == goal,
            unread_input(source).len() + 1 <= fuel,
        invariant
            goal == weather_loop(initial_model(xml@), initial_weather_state(), (xml@.len() + 1) as nat),
        ensures
            goal == Ok::<WeatherState, ParseFailure>(collector@),
        decreases unread_input(source).len(),
    {
        let ghost model = reader_model(source);
        let event = match read_event(&mut source) {
            Ok(event) => event,
            Err(e) => return Err(ParseError::Xml(e)),
        };
        match event {
            XmlEvent::Empty(tag) => {
                if is_site_reference_tag(&tag.name) {
                    let attribute = match find_attribute(&tag.attributes, "id".as_bytes()) {
                        Some(attribute) => attribute,
                        None => return Err(ParseError::MissingId),
                    };
                    let id = match decode_attribute_value(&source, attribute) {
                        Ok(id) => id,
                        Err(e) => return Err(ParseError::BadId(e)),
                    };
                    collector.begin_observation(id);
                }
            },
            XmlEvent::Start(tag) => {
                let name = tag.name;
                let field = match collector.start_tag(&name) {
                    Ok(field) => field,
                    Err(e) => return Err(e),
                };
                match field {
                    Some(field) => {
                        let text = match read_text(&mut source, &name) {
                            Ok(text) => text,
                            Err(e) => return Err(ParseError::Text(e)),
                        };
                        collector.store_text(field, text);
                    },
                    None => {},
                }
            },
            XmlEvent::End(name) => {
                collector.end_tag(&name);
            },
            XmlEvent::Eof => {
                assert(weather_loop(model, collector@, fuel) == Ok::<WeatherState, ParseFailure>(collector@));
                break;
            },
            XmlEvent::Other => {},
        }
        proof {
            fuel = (fuel - 1) as nat;
        }
    }
    let records = collector.into_records();
    Ok(records)
}

} // verus!

verus! {

/// The number of site references among `inputs`.
pub open spec fn site_count(inputs: Seq<WeatherInput>) -> nat
    decreases inputs.len(),
{
    if inputs.len() == 0 {
        0
    } else {
        site_count(inputs.drop_last()) + if inputs.last() is Site { 1nat } else { 0nat }
    }
}

/// The tag inside a group whose text is the group's value.
pub open spec fn value_tag(group: WeatherGroup) -> Seq<u8> {
    match group {
        WeatherGroup::Root => Seq::empty(),
        WeatherGroup::Air => "temperature".spec_bytes(),
        WeatherGroup::Road => "temperature".spec_bytes(),
        WeatherGroup::Humidity => "percentage".spec_bytes(),
        WeatherGroup::Wind => "speed".spec_bytes(),
    }
}

/// The field that takes the value of a group.
pub open spec fn value_field(group: WeatherGroup) -> Option<WeatherField> {
    match group {
        WeatherGroup::Root => None,
        WeatherGroup::Air => Some(WeatherField::AirTemperature),
        WeatherGroup::Road => Some(WeatherField::RoadTemperature),
        WeatherGroup::Humidity => Some(WeatherField::AirHumidity),
        WeatherGroup::Wind => Some(WeatherField::WindSpeed),
    }
}

/// The names that mean something at the root, and the value tags, are all
/// different from one another.
proof fn lemma_weather_names_distinct()
    ensures
        "airTemperature".spec_bytes() != "measurementTimeDefault".spec_bytes(),
        "airTemperature".spec_bytes() != "roadSurfaceTemperature".spec_bytes(),
        "airTemperature".spec_bytes() != "relativeHumidity".spec_bytes(),
        "airTemperature".spec_bytes() != "windSpeed".spec_bytes(),
        "measurementTimeDefault".spec_bytes() != "roadSurfaceTemperature".spec_bytes(),
        "measurementTimeDefault".spec_bytes() != "relativeHumidity".spec_bytes(),
        "measurementTimeDefault".spec_bytes() != "windSpeed".spec_bytes(),
        "roadSurfaceTemperature".spec_bytes() != "relativeHumidity".spec_bytes(),
        "roadSurfaceTemperature".spec_bytes() != "windSpeed".spec_bytes(),
        "relativeHumidity".spec_bytes() != "windSpeed".spec_bytes(),
        "temperature".spec_bytes() != "airTemperature".spec_bytes(),
        "temperature".spec_bytes() != "measurementTimeDefault".spec_bytes(),
        "temperature".spec_bytes() != "roadSurfaceTemperature".spec_bytes(),
        "temperature".spec_bytes() != "relativeHumidity".spec_bytes(),
        "temperature".spec_bytes() != "windSpeed".spec_bytes(),
        "temperature".spec_bytes() != "directionCompass".spec_bytes(),
        "percentage".spec_bytes() != "airTemperature".spec_bytes(),
        "percentage".spec_bytes() != "measurementTimeDefault".spec_bytes(),
        "percentage".spec_bytes() != "roadSurfaceTemperature".spec_bytes(),
        "percentage".spec_bytes() != "relativeHumidity".spec_bytes(),
        "percentage".spec_bytes() != "windSpeed".spec_bytes(),
        "percentage".spec_bytes() != "directionCompass".spec_bytes(),
        "speed".spec_bytes() != "airTemperature".spec_bytes(),
        "speed".spec_bytes() != "measurementTimeDefault".spec_bytes(),
        "speed".spec_bytes() != "roadSurfaceTemperature".spec_bytes(),
        "speed".spec_bytes() != "relativeHumidity".spec_bytes(),
        "speed".spec_bytes() != "windSpeed".spec_bytes(),
        "speed".spec_bytes() != "directionCompass".spec_bytes(),
        "directionCompass".spec_bytes() != "airTemperature".spec_bytes(),
        "directionCompass".spec_bytes() != "measurementTimeDefault".spec_bytes(),
        "directionCompass".spec_bytes() != "roadSurfaceTemperature".spec_bytes(),
        "directionCompass".spec_bytes() != "relativeHumidity".spec_bytes(),
        "directionCompass".spec_bytes() != "windSpeed".spec_bytes(),
{
    reveal_strlit("airTemperature");
    reveal_strlit("measurementTimeDefault");
    reveal_strlit("roadSurfaceTemperature");
    reveal_strlit("relativeHumidity");
    reveal_strlit("windSpeed");
    reveal_strlit("directionCompass");
    reveal_strlit("temperature");
    reveal_strlit("percentage");
    reveal_strlit("speed");
    assert("measurementTimeDefault"@[0] != "roadSurfaceTemperature"@[0]);
    lemma_distinct_names("airTemperature", "measurementTimeDefault");
    lemma_distinct_names("airTemperature", "roadSurfaceTemperature");
    lemma_distinct_names("airTemperature", "relativeHumidity");
    lemma_distinct_names("airTemperature", "windSpeed");
    lemma_distinct_names("measurementTimeDefault", "roadSurfaceTemperature");
    lemma_distinct_names("measurementTimeDefault", "relativeHumidity");
    lemma_distinct_names("measurementTimeDefault", "windSpeed");
    lemma_distinct_names("roadSurfaceTemperature", "relativeHumidity");
    lemma_distinct_names("roadSurfaceTemperature", "windSpeed");
    lemma_distinct_names("relativeHumidity", "windSpeed");
    lemma_distinct_names("temperature", "airTemperature");
    lemma_distinct_names("temperature", "measurementTimeDefault");
    lemma_distinct_names("temperature", "roadSurfaceTemperature");
    lemma_distinct_names("temperature", "relativeHumidity");
    lemma_distinct_names("temperature", "windSpeed");
    lemma_distinct_names("temperature", "directionCompass");
    lemma_distinct_names("percentage", "airTemperature");
    lemma_distinct_names("percentage", "measurementTimeDefault");
    lemma_distinct_names("percentage", "roadSurfaceTemperature");
    lemma_distinct_names("percentage", "relativeHumidity");
    lemma_distinct_names("percentage", "windSpeed");
    lemma_distinct_names("percentage", "directionCompass");
    lemma_distinct_names("speed", "airTemperature");
    lemma_distinct_names("speed", "measurementTimeDefault");
    lemma_distinct_names("speed", "roadSurfaceTemperature");
    lemma_distinct_names("speed", "relativeHumidity");
    lemma_distinct_names("speed", "windSpeed");
    lemma_distinct_names("speed", "directionCompass");
    assert("directionCompass"@[0] != "relativeHumidity"@[0]);
    lemma_distinct_names("directionCompass", "airTemperature");
    lemma_distinct_names("directionCompass", "measurementTimeDefault");
    lemma_distinct_names("directionCompass", "roadSurfaceTemperature");
    lemma_distinct_names("directionCompass", "relativeHumidity");
    lemma_distinct_names("directionCompass", "windSpeed");
}

/// Opening a group at the root enters it without reading anything, and its end
/// tag leads back to the root: a group's start and end undo each other.
pub proof fn lemma_group_roundtrip(group: WeatherGroup)
    requires
        group != WeatherGroup::Root,
    ensures
        weather_start_of(WeatherGroup::Root, group_tag(group)) == (group, None::<WeatherField>),
        weather_end_of(group, group_tag(group)) == WeatherGroup::Root,
{
    lemma_weather_names_distinct();
}

/// A value tag counts only inside its group: inside the group it fills the
/// group's field; at the root it reads nothing; and inside a group any other
/// start tag, another group's opening tag among them, changes nothing.
pub proof fn lemma_values_only_in_their_group(group: WeatherGroup, name: Seq<u8>)
    requires
        group != WeatherGroup::Root,
    ensures
        weather_start_of(group, value_tag(group)) == (group, value_field(group)),
        weather_start_of(WeatherGroup::Root, value_tag(group)) == (WeatherGroup::Root, None::<WeatherField>),
        name != value_tag(group) ==> weather_start_of(group, name) == (group, None::<WeatherField>),
{
    lemma_weather_names_distinct();
}

/// At the root an end tag changes nothing, and inside a group only the group's
/// own end tag does.
pub proof fn lemma_end_tags(group: WeatherGroup, name: Seq<u8>)
    ensures
        weather_end_of(WeatherGroup::Root, name) == WeatherGroup::Root,
        name != group_tag(group) ==> weather_end_of(group, name) == group,
{
}

/// A start or end tag never adds or removes an observation, changes no
/// observation but the last one, and never changes an observation's station id.
pub proof fn lemma_tags_touch_only_last(state: WeatherState, input: WeatherInput)
    requires
        !(input is Site),
    ensures
        weather_step(state, input) matches Some(next) ==> {
            &&& next.records.len() == state.records.len()
            &&& forall|i: int| 0 <= i < state.records.len() - 1 ==> next.records[i] == state.records[i]
            &&& forall|i: int| 0 <= i < state.records.len() ==> next.records[i].station_id == state.records[i].station_id
        },
{
}

/// There are as many observations as there were site references.
pub proof fn lemma_one_observation_per_site(inputs: Seq<WeatherInput>)
    ensures
        weather_run(inputs) matches Some(state) ==> state.records.len() == site_count(inputs),
    decreases inputs.len(),
{
    if inputs.len() > 0 {
        lemma_one_observation_per_site(inputs.drop_last());
        if let Some(state) = weather_run(inputs.drop_last()) {
            if !(inputs.last() is Site) {
                lemma_tags_touch_only_last(state, inputs.last());
            }
        }
    }
}

} // verus!

verus! {

/// Reading goes through the collector: where reading from a state that some
/// inputs reach succeeds, its final state is reached by those inputs followed by
/// what reading hands over. The returned sequence is such inputs.
proof fn lemma_loop_extends_run(model: ReaderModel, state: WeatherState, fuel: nat, inputs: Seq<WeatherInput>) -> (all: Seq<WeatherInput>)
    requires
        weather_run(inputs) == Some(state),
        weather_loop(model, state, fuel) is Ok,
    ensures
        weather_loop(model, state, fuel) matches Ok(last) && weather_run(all) == Some(last),
    decreases fuel,
{
    let next = after_call(model, ReaderCall::Event);
    match next_event(model) {
        Ok(XmlEventView::Empty(tag)) => if is_site_reference(tag.name) {
            let raw_id = first_value(tag.attributes, "id".spec_bytes())->0;
            let more = inputs.push(WeatherInput::Site(raw_id));
            assert(more.drop_last() =~= inputs);
            let id = unescaped_text(raw_id)->0;
            lemma_loop_extends_run(next, begin_observation(state, id), (fuel - 1) as nat, more)
        } else {
            lemma_loop_extends_run(next, state, (fuel - 1) as nat, inputs)
        },
        Ok(XmlEventView::Start(tag)) => match weather_start(state, tag.name) {
            Some((after, None)) => {
                let more = inputs.push(WeatherInput::Start(tag.name, Seq::empty()));
                assert(more.drop_last() =~= inputs);
                lemma_loop_extends_run(next, after, (fuel - 1) as nat, more)
            },
            Some((after, Some(field))) => {
                let text = text_until(next, tag.name)->Ok_0;
                let more = inputs.push(WeatherInput::Start(tag.name, text));
                assert(more.drop_last() =~= inputs);
                lemma_loop_extends_run(
                    after_call(next, ReaderCall::Text(tag.name)),
                    store_weather_text(after, field, text),
                    (fuel - 1) as nat,
                    more,
                )
            },
            None => inputs,
        },
        Ok(XmlEventView::End(name)) => {
            let more = inputs.push(WeatherInput::End(name));
            assert(more.drop_last() =~= inputs);
            lemma_loop_extends_run(next, weather_end(state, name), (fuel - 1) as nat, more)
        },
        Ok(XmlEventView::Other) => lemma_loop_extends_run(next, state, (fuel - 1) as nat, inputs),
        _ => inputs,
    }
}

/// What a document reads to is what the collector makes of some inputs, with
/// one observation per site reference input: the laws of the collector hold of
/// every weather feed that reads.
pub proof fn lemma_outcome_is_a_run(xml: Seq<u8>)
    ensures
        weather_outcome(xml) matches Ok(records) ==> exists|inputs: Seq<WeatherInput>|
            #[trigger] weather_run(inputs) matches Some(state) && state.records == records
                && records.len() == site_count(inputs),
{
    if weather_outcome(xml) is Ok {
        let empty = Seq::<WeatherInput>::empty();
        let inputs = lemma_loop_extends_run(initial_model(xml), initial_weather_state(), (xml.len() + 1) as nat, empty);
        lemma_one_observation_per_site(inputs);
    }
}

} // verus!

verus! {

/// Storing text in a field of a non-empty state changes exactly that field of
/// the last observation, to the text, whatever the number of observations:
/// every other field of the last observation, every earlier observation, and
/// the group stay as they were.
pub proof fn lemma_store_sets_exactly_that_field(state: WeatherState, field: WeatherField, text: Seq<char>)
    requires
        state.records.len() > 0,
    ensures
        store_weather_text(state, field, text).records.len() == state.records.len(),
        store_weather_text(state, field, text).group == state.group,
        forall|i: int| 0 <= i < state.records.len() - 1
            ==> #[trigger] store_weather_text(state, field, text).records[i] == state.records[i],
        store_weather_text(state, field, text).records.last().station_id == state.records.last().station_id,
        store_weather_text(state, field, text).records.last().timestamp
            == (if field == WeatherField::Timestamp { text } else { state.records.last().timestamp }),
        store_weather_text(state, field, text).records.last().road_temperature
            == (if field == WeatherField::RoadTemperature { text } else { state.records.last().road_temperature }),
        store_weather_text(state, field, text).records.last().air_temperature
            == (if field == WeatherField::AirTemperature { text } else { state.records.last().air_temperature }),
        store_weather_text(state, field, text).records.last().air_humidity
            == (if field == WeatherField::AirHumidity { text } else { state.records.last().air_humidity }),
        store_weather_text(state, field, text).records.last().wind_speed
            == (if field == WeatherField::WindSpeed { text } else { state.records.last().wind_speed }),
        store_weather_text(state, field, text).records.last().wind_direction
            == (if field == WeatherField::WindDirection { text } else { state.records.last().wind_direction }),
{
}

/// Once an observation exists, the value tag of a group, read inside that
/// group with text `text`, sets the group's field of the last observation to
/// `text` (air and road temperature, humidity, wind speed) and stays in the
/// group; at the root the time and the wind direction tags set theirs. This
/// holds however many observations came before.
pub proof fn lemma_value_tags_fill_the_last_observation(state: WeatherState, text: Seq<char>)
    requires
        state.records.len() > 0,
    ensures
        state.group == WeatherGroup::Air ==> (weather_step(state, WeatherInput::Start("temperature".spec_bytes(), text))
            matches Some(next) && next.group == WeatherGroup::Air && next.records.len() == state.records.len()
            && next.records.last().air_temperature == text),
        state.group == WeatherGroup::Road ==> (weather_step(state, WeatherInput::Start("temperature".spec_bytes(), text))
            matches Some(next) && next.group == WeatherGroup::Road && next.records.len() == state.records.len()
            && next.records.last().road_temperature == text),
        state.group == WeatherGroup::Humidity ==> (weather_step(state, WeatherInput::Start("percentage".spec_bytes(), text))
            matches Some(next) && next.group == WeatherGroup::Humidity && next.records.len() == state.records.len()
            && next.records.last().air_humidity == text),
        state.group == WeatherGroup::Wind ==> (weather_step(state, WeatherInput::Start("speed".spec_bytes(), text))
            matches Some(next) && next.group == WeatherGroup::Wind && next.records.len() == state.records.len()
            && next.records.last().wind_speed == text),
        state.group == WeatherGroup::Root ==> (weather_step(state, WeatherInput::Start("measurementTimeDefault".spec_bytes(), text))
            matches Some(next) && next.group == WeatherGroup::Root && next.records.len() == state.records.len()
            && next.records.last().timestamp == text),
        state.group == WeatherGroup::Root ==> (weather_step(state, WeatherInput::Start("directionCompass".spec_bytes(), text))
            matches Some(next) && next.group == WeatherGroup::Root && next.records.len() == state.records.len()
            && next.records.last().wind_direction == text),
{
    lemma_weather_names_distinct();
}

/// Which group a start tag leads to and which field it fills do not depend on
/// how many observations have been read: two non-empty states in the same
/// group make the same choice for every tag name.
pub proof fn lemma_field_choice_ignores_observation_count(a: WeatherState, b: WeatherState, name: Seq<u8>)
    requires
        a.records.len() > 0,
        b.records.len() > 0,
        a.group == b.group,
    ensures
        weather_start(a, name) matches Some((next_a, field_a)) && weather_start(b, name) matches Some((next_b, field_b))
            && field_a == field_b && next_a.group == next_b.group,
{
}

} // verus!

verus! {

/// A site reference whose id decodes adds, last, an observation of that
/// station with every other field empty, keeping the observations before it
/// and the group.
pub proof fn lemma_site_adds_empty_observation(state: WeatherState, raw_id: Seq<u8>, id: Seq<char>)
    requires
        unescaped_text(raw_id) == Some(id),
    ensures
        weather_step(state, WeatherInput::Site(raw_id)) == Some(WeatherState {
            records: state.records.push(Weather {
                station_id: id,
                timestamp: Seq::empty(),
                road_temperature: Seq::empty(),
                air_temperature: Seq::empty(),
                air_humidity: Seq::empty(),
                wind_speed: Seq::empty(),
                wind_direction: Seq::empty(),
            }),
            group: state.group,
        }),
{
}

/// The groups are opened and closed by their own tags: at the root,
/// `airTemperature`, `roadSurfaceTemperature`, `relativeHumidity` and
/// `windSpeed` enter the air, road, humidity and wind groups, whether or not an
/// observation exists, reading no text; inside each, its own end tag leads back
/// to the root. End tags never touch the observations.
pub proof fn lemma_group_tags(state: WeatherState, name: Seq<u8>, text: Seq<char>)
    ensures
        state.group == WeatherGroup::Root ==> weather_step(state, WeatherInput::Start("airTemperature".spec_bytes(), text))
            == Some(WeatherState { group: WeatherGroup::Air, ..state }),
        state.group == WeatherGroup::Root ==> weather_step(state, WeatherInput::Start("roadSurfaceTemperature".spec_bytes(), text))
            == Some(WeatherState { group: WeatherGroup::Road, ..state }),
        state.group == WeatherGroup::Root ==> weather_step(state, WeatherInput::Start("relativeHumidity".spec_bytes(), text))
            == Some(WeatherState { group: WeatherGroup::Humidity, ..state }),
        state.group == WeatherGroup::Root ==> weather_step(state, WeatherInput::Start("windSpeed".spec_bytes(), text))
            == Some(WeatherState { group: WeatherGroup::Wind, ..state }),
        state.group == WeatherGroup::Air ==> weather_step(state, WeatherInput::End("airTemperature".spec_bytes()))
            == Some(WeatherState { group: WeatherGroup::Root, ..state }),
        state.group == WeatherGroup::Road ==> weather_step(state, WeatherInput::End("roadSurfaceTemperature".spec_bytes()))
            == Some(WeatherState { group: WeatherGroup::Root, ..state }),
        state.group == WeatherGroup::Humidity ==> weather_step(state, WeatherInput::End("relativeHumidity".spec_bytes()))
            == Some(WeatherState { group: WeatherGroup::Root, ..state }),
        state.group == WeatherGroup::Wind ==> weather_step(state, WeatherInput::End("windSpeed".spec_bytes()))
            == Some(WeatherState { group: WeatherGroup::Root, ..state }),
        weather_step(state, WeatherInput::End(name)) matches Some(next) && next.records == state.records,
{
    lemma_weather_names_distinct();
}

/// How reading the weather feed goes on from one event: a reader error stops it
/// with `Xml`; the end of input ends it with the observations read; a site
/// reference starts an observation with its decoded id (or stops with
/// `MissingId` or `BadId`) and any other empty-element tag changes nothing; an
/// end tag moves the group only; a start tag that takes text stores the text
/// that follows it in the last observation (or stops with `NoRecord` when there
/// is none), and one that takes none moves the group only.
pub proof fn lemma_weather_reading_steps(
    model: ReaderModel,
    state: WeatherState,
    fuel: nat,
    tag: XmlTagView,
    raw_id: Seq<u8>,
    id: Seq<char>,
    text: Seq<char>,
)
    requires
        fuel > 0,
    ensures
        next_event(model) is Err ==> weather_loop(model, state, fuel) == Err::<WeatherState, ParseFailure>(ParseFailure::Xml),
        next_event(model) == Ok::<XmlEventView, ()>(XmlEventView::Eof)
            ==> weather_loop(model, state, fuel) == Ok::<WeatherState, ParseFailure>(state),
        next_event(model) == Ok::<XmlEventView, ()>(XmlEventView::Other)
            ==> weather_loop(model, state, fuel) == weather_loop(after_call(model, ReaderCall::Event), state, (fuel - 1) as nat),
        next_event(model) == Ok::<XmlEventView, ()>(XmlEventView::End(tag.name))
            ==> weather_loop(model, state, fuel) == weather_loop(
                after_call(model, ReaderCall::Event),
                WeatherState { group: weather_end_of(state.group, tag.name), ..state },
                (fuel - 1) as nat,
            ),
        next_event(model) == Ok::<XmlEventView, ()>(XmlEventView::Empty(tag)) && !is_site_reference(tag.name)
            ==> weather_loop(model, state, fuel) == weather_loop(after_call(model, ReaderCall::Event), state, (fuel - 1) as nat),
        next_event(model) == Ok::<XmlEventView, ()>(XmlEventView::Empty(tag)) && is_site_reference(tag.name)
            && first_value(tag.attributes, "id".spec_bytes()) is None
            ==> weather_loop(model, state, fuel) == Err::<WeatherState, ParseFailure>(ParseFailure::MissingId),
        next_event(model) == Ok::<XmlEventView, ()>(XmlEventView::Empty(tag)) && is_site_reference(tag.name)
            && first_value(tag.attributes, "id".spec_bytes()) == Some(raw_id) && unescaped_text(raw_id) is None
            ==> weather_loop(model, state, fuel) == Err::<WeatherState, ParseFailure>(ParseFailure::BadId),
        next_event(model) == Ok::<XmlEventView, ()>(XmlEventView::Empty(tag)) && is_site_reference(tag.name)
            && first_value(tag.attributes, "id".spec_bytes()) == Some(raw_id) && unescaped_text(raw_id) == Some(id)
            ==> weather_loop(model, state, fuel) == weather_loop(
                after_call(model, ReaderCall::Event),
                WeatherState { records: state.records.push(new_weather(id)), ..state },
                (fuel - 1) as nat,
            ),
        next_event(model) == Ok::<XmlEventView, ()>(XmlEventView::Start(tag))
            && weather_start_of(state.group, tag.name).1 is None
            ==> weather_loop(model, state, fuel) == weather_loop(
                after_call(model, ReaderCall::Event),
                WeatherState { group: weather_start_of(state.group, tag.name).0, ..state },
                (fuel - 1) as nat,
            ),
        next_event(model) == Ok::<XmlEventView, ()>(XmlEventView::Start(tag))
            && weather_start_of(state.group, tag.name).1 is Some && state.records.len() == 0
            ==> weather_loop(model, state, fuel) == Err::<WeatherState, ParseFailure>(ParseFailure::NoRecord),
        next_event(model) == Ok::<XmlEventView, ()>(XmlEventView::Start(tag))
            && weather_start_of(state.group, tag.name).1 is Some && state.records.len() > 0
            && text_until(after_call(model, ReaderCall::Event), tag.name) == Ok::<Seq<char>, ()>(text)
            ==> weather_loop(model, state, fuel) == weather_loop(
                after_call(after_call(model, ReaderCall::Event), ReaderCall::Text(tag.name)),
                store_weather_text(
                    WeatherState { group: weather_start_of(state.group, tag.name).0, ..state },
                    weather_start_of(state.group, tag.name).1->0,
                    text,
                ),
                (fuel - 1) as nat,
            ),
{
}

} // verus!

verus! {

/// At the root only the four group tags, the time tag and the wind direction
/// tag do anything; every other start tag, the value tags of the groups among
/// them, leaves the group at the root and reads no text.
pub proof fn lemma_other_root_tags_do_nothing(name: Seq<u8>)
    requires
        name != "airTemperature".spec_bytes(),
        name != "roadSurfaceTemperature".spec_bytes(),
        name != "relativeHumidity".spec_bytes(),
        name != "windSpeed".spec_bytes(),
        name != "measurementTimeDefault".spec_bytes(),
        name != "directionCompass".spec_bytes(),
    ensures
        weather_start_of(WeatherGroup::Root, name) == (WeatherGroup::Root, None::<WeatherField>),
{
}

} // verus!
