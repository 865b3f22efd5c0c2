use vstd::prelude::*;

verus! {

/// Why a feed could not be read. Each variant is one place where reading
/// stops: the reader's own error, a record tag without an `id`, an `id` that
/// does not decode, a field tag before any record, and text that cannot be read.
#[derive(Debug)]
pub enum ParseError {
    Xml(quick_xml::Error),
    MissingId,
    BadId(quick_xml::Error),
    NoRecord,
    Text(quick_xml::Error),
}

/// The kind of a `ParseError`, as the specifications of reading name it.
/// `Unfinished` stands for a reading that would go on past one event per byte
/// of the document; reading never gets there, as every event but the last
/// consumes a byte.
pub enum ParseFailure {
    Xml,
    MissingId,
    BadId,
    NoRecord,
    Text,
    Unfinished,
}

/// The kind of an error.
pub open spec fn failure_of(error: ParseError) -> ParseFailure {
    match error {
        ParseError::Xml(_) => ParseFailure::Xml,
        ParseError::MissingId => ParseFailure::MissingId,
        ParseError::BadId(_) => ParseFailure::BadId,
        ParseError::NoRecord => ParseFailure::NoRecord,
        ParseError::Text(_) => ParseFailure::Text,
    }
}

} // verus!
