//! Reading of DATEX II road-weather XML feeds: measurement stations and
//! weather observations, collected by verified state machines over the
//! events of an XML pull reader.

pub mod database;
pub mod error;
pub mod station;
pub mod weather;
pub mod xml;
