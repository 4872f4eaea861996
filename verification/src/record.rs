//! The pollution-index record and the relative day of a query.

use vstd::prelude::*;

verus! {

/// The mathematical value of an [`IndexRecord`].
pub struct RecordV {
    /// The record's date as days since 1970-01-01.
    pub date: int,
    /// The severity value.
    pub index: int,
    /// The area code, absent for a region-wide aggregate.
    pub insee: Option<Seq<char>>,
    /// The pollutant identifiers behind the value.
    pub pollutants: Seq<Seq<char>>,
}

/// One pollution-index measurement.
pub struct IndexRecord {
    /// The record's date as days since 1970-01-01.
    pub date: i64,
    /// The severity value.
    pub index: u32,
    /// The area code, absent for a region-wide aggregate.
    pub insee: Option<String>,
    /// The pollutant identifiers behind the value; empty means all of them
    /// implicitly.
    pub pollutants: Vec<String>,
}

impl View for IndexRecord {
    type V = RecordV;

    open spec fn view(&self) -> RecordV {
        RecordV {
            date: self.date as int,
            index: self.index as int,
            insee: self.insee.deep_view(),
            pollutants: self.pollutants.deep_view(),
        }
    }
}

impl DeepView for IndexRecord {
    type V = RecordV;

    open spec fn deep_view(&self) -> RecordV {
        self.view()
    }
}

/// A relative day a query can ask for.
#[derive(Clone, Copy, Debug, PartialEq, Eq, Structural)]
pub enum Day {
    /// The day before the current one.
    Yesterday,
    /// The current day.
    Today,
    /// The day after the current one.
    Tomorrow,
}

} // verus!
