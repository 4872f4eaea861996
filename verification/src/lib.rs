//! Metrics for the Airparif pollution index in influx-style line protocol.
//!
//! The library turns pollution-index records into lines of a text protocol
//! (one measurement, tags for area code, city name, relative day and
//! pollutant list, one integer field and a nanosecond timestamp), builds the
//! city-name map from the geocoding service's reply, and fixes the decisions
//! the command-line front end acts on.

pub mod clock;
pub mod dates;
pub mod line;
pub mod names;
pub mod numfmt;
pub mod plan;
pub mod record;
pub mod resolve;
pub mod text;
