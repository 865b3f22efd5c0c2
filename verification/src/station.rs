use vstd::prelude::*;
use crate::error::{failure_of, ParseError, ParseFailure};
use vstd::string::StringSliceAdditionalSpecFns;
use crate::xml::{
    bytes_eq, decode_attribute_value, find_attribute, lemma_distinct_names, read_event, read_text,
    after_call, first_value, initial_model, reader_model, text_until, next_event, unescaped_text,
    unread_input, ReaderCall, ReaderModel, XmlEvent, XmlEventView, XmlSource, XmlTagView,
};

verus! {

/// A measurement station of the road-weather network, as its record in the
/// station feed describes it. Every field holds the text of its tag.
#[derive(Debug, PartialEq, Eq)]
pub struct StationData {
    pub id: String,
    pub name: String,
    pub road_number: String,
    pub county_number: String,
    pub latitude: String,
    pub longitude: String,
}

/// The value of a `StationData`.
pub struct Station {
    pub id: Seq<char>,
    pub name: Seq<char>,
    pub road_number: Seq<char>,
    pub county_number: Seq<char>,
    pub latitude: Seq<char>,
    pub longitude: Seq<char>,
}

impl View for StationData {
    type V = Station;

    open spec fn view(&self) -> Station {
        Station {
            id: self.id@,
            name: self.name@,
            road_number: self.road_number@,
            county_number: self.county_number@,
            latitude: self.latitude@,
            longitude: self.longitude@,
        }
    }
}

/// The tags of the station feed that reading looks at.
#[derive(Debug, Clone, Copy, PartialEq, Eq)]
pub enum StationTag {
    Record,
    Name,
    RoadNumber,
    CountyNumber,
    Latitude,
    Longitude,
    Other,
}

/// The fields of a station that take the text of a tag.
#[derive(Debug, Clone, Copy, PartialEq, Eq)]
pub enum StationField {
    Name,
    RoadNumber,
    CountyNumber,
    Latitude,
    Longitude,
}

/// Which station tag the raw tag name `name` is.
pub open spec fn station_tag_of(name: Seq<u8>) -> StationTag {
    if name == "ns0:measurementSiteRecord".spec_bytes() {
        StationTag::Record
    } else if name == "ns0:value".spec_bytes() {
        StationTag::Name
    } else if name == "ns0:roadNumber".spec_bytes() {
        StationTag::RoadNumber
    } else if name == "ns0:countyNumber".spec_bytes() {
        StationTag::CountyNumber
    } else if name == "ns0:latitude".spec_bytes() {
        StationTag::Latitude
    } else if name == "ns0:longitude".spec_bytes() {
        StationTag::Longitude
    } else {
        StationTag::Other
    }
}

/// Classifies the raw name of a start tag of the station feed.
pub fn station_tag(name: &[u8]) -> (tag: StationTag)
    ensures
        tag == station_tag_of(name@),
{
    if bytes_eq(name, "ns0:measurementSiteRecord".as_bytes()) {
        StationTag::Record
    } else if bytes_eq(name, "ns0:value".as_bytes()) {
        StationTag::Name
    } else if bytes_eq(name, "ns0:roadNumber".as_bytes()) {
        StationTag::RoadNumber
    } else if bytes_eq(name, "ns0:countyNumber".as_bytes()) {
        StationTag::CountyNumber
    } else if bytes_eq(name, "ns0:latitude".as_bytes()) {
        StationTag::Latitude
    } else if bytes_eq(name, "ns0:longitude".as_bytes()) {
        StationTag::Longitude
    } else {
        StationTag::Other
    }
}

/// What has been read of the station feed so far: the stations, in the order of
/// their records, and whether the latest latitude and longitude tags were the
/// first of their pair (each coordinate stands twice in the feed, and only the
/// first of the two is kept).
pub struct StationState {
    pub stations: Seq<Station>,
    pub lat_stored: bool,
    pub long_stored: bool,
}

/// The state before anything is read.
pub open spec fn initial_station_state() -> StationState {
    StationState { stations: Seq::empty(), lat_stored: false, long_stored: false }
}

/// A station with the given id and every other field empty.
pub open spec fn new_station(id: Seq<char>) -> Station {
    Station {
        id,
        name: Seq::empty(),
        road_number: Seq::empty(),
        county_number: Seq::empty(),
        latitude: Seq::empty(),
        longitude: Seq::empty(),
    }
}

/// A record tag starts a new station, last in the list.
pub open spec fn begin_record(state: StationState, id: Seq<char>) -> StationState {
    StationState { stations: state.stations.push(new_station(id)), ..state }
}

/// What a start tag does: the next state and the field that takes the tag's
/// text, or `None` where the tag would fill a field before any station exists.
pub open spec fn station_start(state: StationState, tag: StationTag) -> Option<(StationState, Option<StationField>)> {
    let no_station = state.stations.len() == 0;
    match tag {
        StationTag::Name => if no_station { None } else { Some((state, Some(StationField::Name))) },
        StationTag::RoadNumber => if no_station { None } else { Some((state, Some(StationField::RoadNumber))) },
        StationTag::CountyNumber => if no_station { None } else { Some((state, Some(StationField::CountyNumber))) },
        StationTag::Latitude => if state.lat_stored {
            Some((StationState { lat_stored: false, ..state }, None))
        } else if no_station {
            None
        } else {
            Some((StationState { lat_stored: true, ..state }, Some(StationField::Latitude)))
        },
        StationTag::Longitude => if state.long_stored {
            Some((StationState { long_stored: false, ..state }, None))
        } else if no_station {
            None
        } else {
            Some((StationState { long_stored: true, ..state }, Some(StationField::Longitude)))
        },
        _ => Some((state, None)),
    }
}

/// A station with one field set to `text`.
pub open spec fn with_field(station: Station, field: StationField, text: Seq<char>) -> Station {
    match field {
        StationField::Name => Station { name: text, ..station },
        StationField::RoadNumber => Station { road_number: text, ..station },
        StationField::CountyNumber => Station { county_number: text, ..station },
        StationField::Latitude => Station { latitude: text, ..station },
        StationField::Longitude => Station { longitude: text, ..station },
    }
}

/// The text of a field tag goes to the last station.
pub open spec fn store_station_text(state: StationState, field: StationField, text: Seq<char>) -> StationState {
    let last = state.stations.len() - 1;
    StationState { stations: state.stations.update(last, with_field(state.stations[last], field, text)), ..state }
}

/// What reading hands to the collector: a record with the raw value of its `id`
/// attribute, or a start tag with the text that follows it (used only when the
/// tag takes text).
pub enum StationInput {
    Record(Seq<u8>),
    Tag(StationTag, Seq<char>),
}

/// One input applied to a state: a record starts a station with its decoded
/// id; `None` where the id does not decode or a field tag comes before any record.
pub open spec fn station_step(state: StationState, input: StationInput) -> Option<StationState> {
    match input {
        StationInput::Record(raw_id) => match unescaped_text(raw_id) {
            Some(id) => Some(begin_record(state, id)),
            None => None,
        },
        StationInput::Tag(tag, text) => match station_start(state, tag) {
            None => None,
            Some((next, None)) => Some(next),
            Some((next, Some(field))) => Some(store_station_text(next, field, text)),
        },
    }
}

/// The inputs applied in turn from the initial state.
pub open spec fn station_run(inputs: Seq<StationInput>) -> Option<StationState>
    decreases inputs.len(),
{
    if inputs.len() == 0 {
        Some(initial_station_state())
    } else {
        match station_run(inputs.drop_last()) {
            None => None,
            Some(state) => station_step(state, inputs.last()),
        }
    }
}

/// The station list of a state, as a sequence of values.
pub open spec fn station_values(stations: Seq<StationData>) -> Seq<Station> {
    stations.map_values(|s: StationData| s@)
}

/// The stations read so far, with the latitude and longitude pairing flags.
pub struct StationCollector {
    stations: Vec<StationData>,
    lat_stored: bool,
    long_stored: bool,
}

impl View for StationCollector {
    type V = StationState;

    closed spec fn view(&self) -> StationState {
        StationState {
            stations: station_values(self.stations@),
            lat_stored: self.lat_stored,
            long_stored: self.long_stored,
        }
    }
}

impl StationCollector {
    /// A collector that has read nothing.
    pub fn new() -> (collector: StationCollector)
        ensures
            collector@ == initial_station_state(),
    {
        let collector = StationCollector { stations: Vec::new(), lat_stored: false, long_stored: false };
        assert(collector@.stations =~= Seq::<Station>::empty());
        collector
    }

    /// Starts a new station with the given id.
    pub fn begin_record(&mut self, id: String)
        ensures
            final(self)@ == begin_record(old(self)@, id@),
    {
        let station = StationData {
            id,
            name: String::new(),
            road_number: String::new(),
            county_number: String::new(),
            latitude: String::new(),
            longitude: String::new(),
        };
        self.stations.push(station);
        assert(self@.stations =~= old(self)@.stations.push(new_station(id@)));
    }

    /// Handles a start tag: says which field, if any, takes the tag's text, and
    /// fails with `NoRecord` where that would be before any station.
    pub fn start_tag(&mut self, tag: StationTag) -> (res: Result<Option<StationField>, ParseError>)
        ensures
            match station_start(old(self)@, tag) {
                None => res matches Err(ParseError::NoRecord) && final(self)@ == old(self)@,
                Some((next, field)) => res matches Ok(f) && f == field && final(self)@ == next,
            },
    {
        let no_station = self.stations.len() == 0;
        match tag {
            StationTag::Name => if no_station { Err(ParseError::NoRecord) } else { Ok(Some(StationField::Name)) },
            StationTag::RoadNumber => if no_station { Err(ParseError::NoRecord) } else { Ok(Some(StationField::RoadNumber)) },
            StationTag::CountyNumber => if no_station { Err(ParseError::NoRecord) } else { Ok(Some(StationField::CountyNumber)) },
            StationTag::Latitude => if self.lat_stored {
                self.lat_stored = false;
                Ok(None)
            } else if no_station {
                Err(ParseError::NoRecord)
            } else {
                self.lat_stored = true;
                Ok(Some(StationField::Latitude))
            },
            StationTag::Longitude => if self.long_stored {
                self.long_stored = false;
                Ok(None)
            } else if no_station {
                Err(ParseError::NoRecord)
            } else {
                self.long_stored = true;
                Ok(Some(StationField::Longitude))
            },
            _ => Ok(None),
        }
    }

    /// Stores the text of a field tag in the last station.
    pub fn store_text(&mut self, field: StationField, text: String)
        requires
            old(self)@.stations.len() > 0,
        ensures
            final(self)@ == store_station_text(old(self)@, field, text@),
    {
        let mut station = self.stations.pop().unwrap();
        match field {
            StationField::Name => station.name = text,
            StationField::RoadNumber => station.road_number = text,
            StationField::CountyNumber => station.county_number = text,
            StationField::Latitude => station.latitude = text,
            StationField::Longitude => station.longitude = text,
        }
        self.stations.push(station);
        let ghost last = old(self)@.stations.len() - 1;
        assert(self@.stations =~= old(self)@.stations.update(
            last,
            with_field(old(self)@.stations[last], field, text@),
        ));
    }

    /// The stations read, in the order of their records.
    pub fn into_stations(self) -> (stations: Vec<StationData>)
        ensures
            station_values(stations@) == self@.stations,
    {
        self.stations
    }
}

/// What reading the station feed from reader state `model` and collector state
/// `state` comes to, with at most `fuel` more events: the final state, or why
/// reading stops.
pub open spec fn station_loop(model: ReaderModel, state: StationState, fuel: nat) -> Result<StationState, ParseFailure>
    decreases fuel,
{
    if fuel == 0 {
        Err(ParseFailure::Unfinished)
    } else {
        let next = after_call(model, ReaderCall::Event);
        match next_event(model) {
            Err(_) => Err(ParseFailure::Xml),
            Ok(XmlEventView::Eof) => Ok(state),
            Ok(XmlEventView::Start(tag)) => match station_tag_of(tag.name) {
                StationTag::Record => match first_value(tag.attributes, "id".spec_bytes()) {
                    None => Err(ParseFailure::MissingId),
                    Some(raw_id) => match unescaped_text(raw_id) {
                        None => Err(ParseFailure::BadId),
                        Some(id) => station_loop(next, begin_record(state, id), (fuel - 1) as nat),
                    },
                },
                kind => match station_start(state, kind) {
                    None => Err(ParseFailure::NoRecord),
                    Some((after, None)) => station_loop(next, after, (fuel - 1) as nat),
                    Some((after, Some(field))) => match text_until(next, tag.name) {
                        Err(_) => Err(ParseFailure::Text),
                        Ok(text) => station_loop(
                            after_call(next, ReaderCall::Text(tag.name)),
                            store_station_text(after, field, text),
                            (fuel - 1) as nat,
                        ),
                    },
                },
            },
            Ok(_) => station_loop(next, state, (fuel - 1) as nat),
        }
    }
}

/// What reading the station feed `xml` comes to: the stations, in document
/// order, or why reading stops. One event per byte (and one for the end) is
/// more than reading ever takes.
pub open spec fn station_outcome(xml: Seq<u8>) -> Result<Seq<Station>, ParseFailure> {
    match station_loop(initial_model(xml), initial_station_state(), xml.len() + 1) {
        Ok(state) => Ok(state.stations),
        Err(failure) => Err(failure),
    }
}

/// Reads the station feed `xml`: one station per `ns0:measurementSiteRecord`
/// start tag, with its `id` attribute, and the text of the name, road number,
/// county number, latitude and longitude tags stored in the latest station
/// (of each latitude and longitude pair only the first). The result is
/// `station_outcome` of the document, errors included.
pub fn parse_station(xml: &[u8]) -> (res: Result<Vec<StationData>, ParseError>)
    ensures
        match station_outcome(xml@) {
            Ok(stations) => res matches Ok(v) && station_values(v@) == stations,
            Err(failure) => res matches Err(e) && failure_of(e) == failure,
        },
{
    let mut source = XmlSource::new(xml);
    let mut collector = StationCollector::new();
    let ghost mut fuel: nat = (xml@.len() + 1) as nat;
    let ghost goal = station_loop(initial_model(xml@), initial_station_state(), (xml@.len() + 1) as nat);
    loop
        invariant_except_break
            station_loop(reader_model(source), collector@, fuel) == goal,
            unread_input(source).len() + 1 <= fuel,
        invariant
            goal == station_loop(initial_model(xml@), initial_station_state(), (xml@.len() + 1) as nat),
        ensures
            goal == Ok::<StationState, ParseFailure>(collector@),
        decreases unread_input(source).len(),
    {
        let ghost model = reader_model(source);
        let event = match read_event(&mut source) {
            Ok(event) => event,
            Err(e) => return Err(ParseError::Xml(e)),
        };
        match event {
            XmlEvent::Start(tag) => {
                let ghost tag_view = tag@;
                let name = tag.name;
                let kind = station_tag(&name);
                match kind {
                    StationTag::Record => {
                        let attribute = match find_attribute(&tag.attributes, "id".as_bytes()) {
                            Some(attribute) => attribute,
                            None => return Err(ParseError::MissingId),
                        };
                        let id = match decode_attribute_value(&source, attribute) {
                            Ok(id) => id,
                            Err(e) => return Err(ParseError::BadId(e)),
                        };
                        collector.begin_record(id);
                    },
                    _ => {
                        let field = match collector.start_tag(kind) {
                            Ok(field) => field,
                            Err(e) => return Err(e),
                        };
                        match field {
                            Some(field) => {
                                let text = match read_text(&mut source, &name) {
                                    Ok(text) => text,
                                    Err(e) => return Err(ParseError::Text(e)),
                                };
                                collector.store_text(field, text);
                            },
                            None => {},
                        }
                    },
                }
            },
            XmlEvent::Eof => {
                assert(station_loop(model, collector@, fuel) == Ok::<StationState, ParseFailure>(collector@));
                break;
            },
            _ => {},
        }
        proof {
            fuel = (fuel - 1) as nat;
        }
    }
    let stations = collector.into_stations();
    Ok(stations)
}

} // verus!

verus! {

/// The number of record inputs among `inputs`.
pub open spec fn record_count(inputs: Seq<StationInput>) -> nat
    decreases inputs.len(),
{
    if inputs.len() == 0 {
        0
    } else {
        record_count(inputs.drop_last()) + if inputs.last() is Record { 1nat } else { 0nat }
    }
}

/// A record whose id decodes adds exactly one station, last, with that id and
/// every other field empty; the stations before it stay as they were.
pub proof fn lemma_record_appends_station(state: StationState, raw_id: Seq<u8>)
    ensures
        unescaped_text(raw_id) matches Some(id) ==> station_step(state, StationInput::Record(raw_id)) matches Some(next)
            && next.stations.len() == state.stations.len() + 1
            && next.stations.take(state.stations.len() as int) == state.stations
            && next.stations.last() == new_station(id),
{
    if let Some(id) = unescaped_text(raw_id) {
        let next = begin_record(state, id);
        assert(next.stations.take(state.stations.len() as int) =~= state.stations);
    }
}

/// A start tag never adds or removes a station, changes no station but the
/// last one, and never changes a station's id.
pub proof fn lemma_tag_touches_only_last(state: StationState, tag: StationTag, text: Seq<char>)
    ensures
        station_step(state, StationInput::Tag(tag, text)) matches Some(next) ==> {
            &&& next.stations.len() == state.stations.len()
            &&& forall|i: int| 0 <= i < state.stations.len() - 1 ==> next.stations[i] == state.stations[i]
            &&& forall|i: int| 0 <= i < state.stations.len() ==> next.stations[i].id == state.stations[i].id
        },
{
}

/// There are as many stations as there were records: every record starts one
/// station, and nothing else does.
pub proof fn lemma_one_station_per_record(inputs: Seq<StationInput>)
    ensures
        station_run(inputs) matches Some(state) ==> state.stations.len() == record_count(inputs),
    decreases inputs.len(),
{
    if inputs.len() > 0 {
        lemma_one_station_per_record(inputs.drop_last());
        if let Some(state) = station_run(inputs.drop_last()) {
            match inputs.last() {
                StationInput::Record(raw_id) => lemma_record_appends_station(state, raw_id),
                StationInput::Tag(tag, text) => lemma_tag_touches_only_last(state, tag, text),
            }
        }
    }
}

/// Each coordinate stands twice in a station record and only the first of the
/// pair is kept: two latitude (or two longitude) tags in a row store the text
/// of the first, ignore the second, and leave the pairing as it was.
pub proof fn lemma_coordinate_pairs(state: StationState, tag: StationTag, first: Seq<char>, second: Seq<char>)
    requires
        tag == StationTag::Latitude || tag == StationTag::Longitude,
        state.stations.len() > 0,
        tag == StationTag::Latitude ==> !state.lat_stored,
        tag == StationTag::Longitude ==> !state.long_stored,
    ensures
        station_step(state, StationInput::Tag(tag, first)) matches Some(middle)
            && station_step(middle, StationInput::Tag(tag, second)) matches Some(last)
            && last == store_station_text(
                state,
                if tag == StationTag::Latitude { StationField::Latitude } else { StationField::Longitude },
                first,
            ),
{
}

} // verus!

verus! {

/// Each tag name of a station record is told apart from the others, so it
/// fills its own field and no other.
pub proof fn lemma_station_tags_distinct()
    ensures
        station_tag_of("ns0:measurementSiteRecord".spec_bytes()) == StationTag::Record,
        station_tag_of("ns0:value".spec_bytes()) == StationTag::Name,
        station_tag_of("ns0:roadNumber".spec_bytes()) == StationTag::RoadNumber,
        station_tag_of("ns0:countyNumber".spec_bytes()) == StationTag::CountyNumber,
        station_tag_of("ns0:latitude".spec_bytes()) == StationTag::Latitude,
        station_tag_of("ns0:longitude".spec_bytes()) == StationTag::Longitude,
{
    reveal_strlit("ns0:measurementSiteRecord");
    reveal_strlit("ns0:value");
    reveal_strlit("ns0:roadNumber");
    reveal_strlit("ns0:countyNumber");
    reveal_strlit("ns0:latitude");
    reveal_strlit("ns0:longitude");
    lemma_distinct_names("ns0:value", "ns0:measurementSiteRecord");
    lemma_distinct_names("ns0:roadNumber", "ns0:measurementSiteRecord");
    lemma_distinct_names("ns0:roadNumber", "ns0:value");
    lemma_distinct_names("ns0:countyNumber", "ns0:measurementSiteRecord");
    lemma_distinct_names("ns0:countyNumber", "ns0:value");
    lemma_distinct_names("ns0:countyNumber", "ns0:roadNumber");
    lemma_distinct_names("ns0:latitude", "ns0:measurementSiteRecord");
    lemma_distinct_names("ns0:latitude", "ns0:value");
    lemma_distinct_names("ns0:latitude", "ns0:roadNumber");
    lemma_distinct_names("ns0:latitude", "ns0:countyNumber");
    lemma_distinct_names("ns0:longitude", "ns0:measurementSiteRecord");
    lemma_distinct_names("ns0:longitude", "ns0:value");
    lemma_distinct_names("ns0:longitude", "ns0:roadNumber");
    lemma_distinct_names("ns0:longitude", "ns0:countyNumber");
    lemma_distinct_names("ns0:longitude", "ns0:latitude");
}

} // verus!

verus! {

/// Reading goes through the collector: where reading from a state that some
/// inputs reach succeeds, its final state is reached by those inputs followed by
/// what reading hands over. The returned sequence is such inputs.
proof fn lemma_loop_extends_run(model: ReaderModel, state: StationState, fuel: nat, inputs: Seq<StationInput>) -> (all: Seq<StationInput>)
    requires
        station_run(inputs) == Some(state),
        station_loop(model, state, fuel) is Ok,
    ensures
        station_loop(model, state, fuel) matches Ok(last) && station_run(all) == Some(last),
    decreases fuel,
{
    let next = after_call(model, ReaderCall::Event);
    match next_event(model) {
        Ok(XmlEventView::Eof) => inputs,
        Ok(XmlEventView::Start(tag)) => match station_tag_of(tag.name) {
            StationTag::Record => {
                let raw_id = first_value(tag.attributes, "id".spec_bytes())->0;
                let more = inputs.push(StationInput::Record(raw_id));
                assert(more.drop_last() =~= inputs);
                let id = unescaped_text(raw_id)->0;
                lemma_loop_extends_run(next, begin_record(state, id), (fuel - 1) as nat, more)
            },
            kind => match station_start(state, kind) {
                Some((after, None)) => {
                    let more = inputs.push(StationInput::Tag(kind, Seq::empty()));
                    assert(more.drop_last() =~= inputs);
                    lemma_loop_extends_run(next, after, (fuel - 1) as nat, more)
                },
                Some((after, Some(field))) => {
                    let text = text_until(next, tag.name)->Ok_0;
                    let more = inputs.push(StationInput::Tag(kind, text));
                    assert(more.drop_last() =~= inputs);
                    lemma_loop_extends_run(
                        after_call(next, ReaderCall::Text(tag.name)),
                        store_station_text(after, field, text),
                        (fuel - 1) as nat,
                        more,
                    )
                },
                None => inputs,
            },
        },
        _ => lemma_loop_extends_run(next, state, (fuel - 1) as nat, inputs),
    }
}

/// What a document reads to is what the collector makes of some inputs, with
/// one station per record input: the laws of the collector (one station per
/// record, only the last station changed by a tag, the first of each
/// coordinate pair kept) hold of every station feed that reads.
pub proof fn lemma_outcome_is_a_run(xml: Seq<u8>)
    ensures
        station_outcome(xml) matches Ok(stations) ==> exists|inputs: Seq<StationInput>|
            #[trigger] station_run(inputs) matches Some(state) && state.stations == stations
                && stations.len() == record_count(inputs),
{
    if station_outcome(xml) is Ok {
        let empty = Seq::<StationInput>::empty();
        let inputs = lemma_loop_extends_run(initial_model(xml), initial_station_state(), (xml.len() + 1) as nat, empty);
        lemma_one_station_per_record(inputs);
    }
}

} // verus!

verus! {

/// Storing text in a field of a non-empty state changes exactly that field of
/// the last station, to the text, whatever the number of stations: every
/// other field of the last station, every earlier station, and the pairing
/// flags stay as they were.
pub proof fn lemma_store_sets_exactly_that_field(state: StationState, field: StationField, text: Seq<char>)
    requires
        state.stations.len() > 0,
    ensures
        store_station_text(state, field, text).stations.len() == state.stations.len(),
        store_station_text(state, field, text).lat_stored == state.lat_stored,
        store_station_text(state, field, text).long_stored == state.long_stored,
        forall|i: int| 0 <= i < state.stations.len() - 1
            ==> #[trigger] store_station_text(state, field, text).stations[i] == state.stations[i],
        store_station_text(state, field, text).stations.last().id == state.stations.last().id,
        store_station_text(state, field, text).stations.last().name
            == (if field == StationField::Name { text } else { state.stations.last().name }),
        store_station_text(state, field, text).stations.last().road_number
            == (if field == StationField::RoadNumber { text } else { state.stations.last().road_number }),
        store_station_text(state, field, text).stations.last().county_number
            == (if field == StationField::CountyNumber { text } else { state.stations.last().county_number }),
        store_station_text(state, field, text).stations.last().latitude
            == (if field == StationField::Latitude { text } else { state.stations.last().latitude }),
        store_station_text(state, field, text).stations.last().longitude
            == (if field == StationField::Longitude { text } else { state.stations.last().longitude }),
{
}

/// Once a station exists, a name, road number or county number tag followed
/// by text `text` sets that field of the last station to `text`, and a
/// latitude or longitude tag does so when it is the first of its pair; this
/// holds however many stations came before.
pub proof fn lemma_field_tags_fill_the_last_station(state: StationState, text: Seq<char>)
    requires
        state.stations.len() > 0,
    ensures
        station_step(state, StationInput::Tag(StationTag::Name, text)) matches Some(next)
            && next.stations.len() == state.stations.len() && next.stations.last().name == text,
        station_step(state, StationInput::Tag(StationTag::RoadNumber, text)) matches Some(next)
            && next.stations.len() == state.stations.len() && next.stations.last().road_number == text,
        station_step(state, StationInput::Tag(StationTag::CountyNumber, text)) matches Some(next)
            && next.stations.len() == state.stations.len() && next.stations.last().county_number == text,
        !state.lat_stored ==> (station_step(state, StationInput::Tag(StationTag::Latitude, text)) matches Some(next)
            && next.stations.len() == state.stations.len() && next.stations.last().latitude == text
            && next.lat_stored),
        !state.long_stored ==> (station_step(state, StationInput::Tag(StationTag::Longitude, text)) matches Some(next)
            && next.stations.len() == state.stations.len() && next.stations.last().longitude == text
            && next.long_stored),
{
}

/// Which field a start tag fills does not depend on how many stations have
/// been read: two non-empty states with the same pairing flags choose the same
/// field for every tag.
pub proof fn lemma_field_choice_ignores_station_count(a: StationState, b: StationState, tag: StationTag)
    requires
        a.stations.len() > 0,
        b.stations.len() > 0,
        a.lat_stored == b.lat_stored,
        a.long_stored == b.long_stored,
    ensures
        station_start(a, tag) matches Some((next_a, field_a)) && station_start(b, tag) matches Some((next_b, field_b))
            && field_a == field_b && next_a.lat_stored == next_b.lat_stored
            && next_a.long_stored == next_b.long_stored,
{
}

} // verus!

verus! {

/// A record start tag whose id decodes adds, last, a station with that id and
/// every other field empty, keeping the stations before it and the pairing
/// flags.
pub proof fn lemma_record_adds_empty_station(state: StationState, raw_id: Seq<u8>, id: Seq<char>)
    requires
        unescaped_text(raw_id) == Some(id),
    ensures
        station_step(state, StationInput::Record(raw_id)) == Some(StationState {
            stations: state.stations.push(Station {
                id,
                name: Seq::empty(),
                road_number: Seq::empty(),
                county_number: Seq::empty(),
                latitude: Seq::empty(),
                longitude: Seq::empty(),
            }),
            lat_stored: state.lat_stored,
            long_stored: state.long_stored,
        }),
{
}

/// How reading the station feed goes on from one event: a reader error stops it
/// with `Xml`, the end of input ends it with the stations read, and every event
/// but a start tag of the feed leaves the state as it is.
pub proof fn lemma_station_reading_plain_events(model: ReaderModel, state: StationState, fuel: nat)
    requires
        fuel > 0,
    ensures
        next_event(model) is Err ==> station_loop(model, state, fuel) == Err::<StationState, ParseFailure>(ParseFailure::Xml),
        next_event(model) == Ok::<XmlEventView, ()>(XmlEventView::Eof)
            ==> station_loop(model, state, fuel) == Ok::<StationState, ParseFailure>(state),
        next_event(model) matches Ok(event) && !(event is Start) && !(event is Eof)
            ==> station_loop(model, state, fuel) == station_loop(after_call(model, ReaderCall::Event), state, (fuel - 1) as nat),
{
}

/// How reading the station feed goes on from a start tag `tag`, with `text` the
/// text that follows it: a record starts a station with its decoded id (or
/// stops with `MissingId` or `BadId`); a name, road number or county number tag
/// stores its text in that field of the last station (or stops with
/// `NoRecord` when there is none); the first latitude or longitude of a pair
/// stores its text and the second is skipped; any other tag changes nothing.
pub proof fn lemma_station_reading_start_tags(
    model: ReaderModel,
    state: StationState,
    fuel: nat,
    tag: XmlTagView,
    raw_id: Seq<u8>,
    id: Seq<char>,
    text: Seq<char>,
)
    requires
        fuel > 0,
        next_event(model) == Ok::<XmlEventView, ()>(XmlEventView::Start(tag)),
    ensures
        station_tag_of(tag.name) == StationTag::Record && first_value(tag.attributes, "id".spec_bytes()) is None
            ==> station_loop(model, state, fuel) == Err::<StationState, ParseFailure>(ParseFailure::MissingId),
        station_tag_of(tag.name) == StationTag::Record && first_value(tag.attributes, "id".spec_bytes()) == Some(raw_id)
            && unescaped_text(raw_id) is None
            ==> station_loop(model, state, fuel) == Err::<StationState, ParseFailure>(ParseFailure::BadId),
        station_tag_of(tag.name) == StationTag::Record && first_value(tag.attributes, "id".spec_bytes()) == Some(raw_id)
            && unescaped_text(raw_id) == Some(id)
            ==> station_loop(model, state, fuel) == station_loop(
                after_call(model, ReaderCall::Event),
                StationState { stations: state.stations.push(new_station(id)), ..state },
                (fuel - 1) as nat,
            ),
        station_tag_of(tag.name) == StationTag::Other
            ==> station_loop(model, state, fuel) == station_loop(after_call(model, ReaderCall::Event), state, (fuel - 1) as nat),
        (station_tag_of(tag.name) == StationTag::Name || station_tag_of(tag.name) == StationTag::RoadNumber
            || station_tag_of(tag.name) == StationTag::CountyNumber) && state.stations.len() == 0
            ==> station_loop(model, state, fuel) == Err::<StationState, ParseFailure>(ParseFailure::NoRecord),
        station_tag_of(tag.name) == StationTag::Name && state.stations.len() > 0
            && text_until(after_call(model, ReaderCall::Event), tag.name) == Ok::<Seq<char>, ()>(text)
            ==> station_loop(model, state, fuel) == station_loop(
                after_call(after_call(model, ReaderCall::Event), ReaderCall::Text(tag.name)),
                store_station_text(state, StationField::Name, text),
                (fuel - 1) as nat,
            ),
        station_tag_of(tag.name) == StationTag::RoadNumber && state.stations.len() > 0
            && text_until(after_call(model, ReaderCall::Event), tag.name) == Ok::<Seq<char>, ()>(text)
            ==> station_loop(model, state, fuel) == station_loop(
                after_call(after_call(model, ReaderCall::Event), ReaderCall::Text(tag.name)),
                store_station_text(state, StationField::RoadNumber, text),
                (fuel - 1) as nat,
            ),
        station_tag_of(tag.name) == StationTag::CountyNumber && state.stations.len() > 0
            && text_until(after_call(model, ReaderCall::Event), tag.name) == Ok::<Seq<char>, ()>(text)
            ==> station_loop(model, state, fuel) == station_loop(
                after_call(after_call(model, ReaderCall::Event), ReaderCall::Text(tag.name)),
                store_station_text(state, StationField::CountyNumber, text),
                (fuel - 1) as nat,
            ),
        station_tag_of(tag.name) == StationTag::Latitude && !state.lat_stored && state.stations.len() > 0
            && text_until(after_call(model, ReaderCall::Event), tag.name) == Ok::<Seq<char>, ()>(text)
            ==> station_loop(model, state, fuel) == station_loop(
                after_call(after_call(model, ReaderCall::Event), ReaderCall::Text(tag.name)),
                store_station_text(StationState { lat_stored: true, ..state }, StationField::Latitude, text),
                (fuel - 1) as nat,
            ),
        station_tag_of(tag.name) == StationTag::Latitude && state.lat_stored
            ==> station_loop(model, state, fuel) == station_loop(
                after_call(model, ReaderCall::Event),
                StationState { lat_stored: false, ..state },
                (fuel - 1) as nat,
            ),
        station_tag_of(tag.name) == StationTag::Longitude && !state.long_stored && state.stations.len() > 0
            && text_until(after_call(model, ReaderCall::Event), tag.name) == Ok::<Seq<char>, ()>(text)
            ==> station_loop(model, state, fuel) == station_loop(
                after_call(after_call(model, ReaderCall::Event), ReaderCall::Text(tag.name)),
                store_station_text(StationState { long_stored: true, ..state }, StationField::Longitude, text),
                (fuel - 1) as nat,
            ),
        station_tag_of(tag.name) == StationTag::Longitude && state.long_stored
            ==> station_loop(model, state, fuel) == station_loop(
                after_call(model, ReaderCall::Event),
                StationState { long_stored: false, ..state },
                (fuel - 1) as nat,
            ),
{
}

} // verus!

verus! {

/// A start tag whose name is none of the six station tags fills nothing.
pub proof fn lemma_other_station_tags(name: Seq<u8>)
    requires
        name != "ns0:measurementSiteRecord".spec_bytes(),
        name != "ns0:value".spec_bytes(),
        name != "ns0:roadNumber".spec_bytes(),
        name != "ns0:countyNumber".spec_bytes(),
        name != "ns0:latitude".spec_bytes(),
        name != "ns0:longitude".spec_bytes(),
    ensures
        station_tag_of(name) == StationTag::Other,
{
}

} // verus!
