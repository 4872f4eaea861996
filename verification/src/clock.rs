//! Rendering against the clock: the ambient local date and zone offset, and
//! the record renderings that read them at format time.

use vstd::prelude::*;
use crate::dates::ts_in_range;
use crate::line::{collapsed_line, collapsed_line_of, line_of, line_protocol};
use crate::names::NameMap;
use crate::record::IndexRecord;

verus! {

/// Relies on chrono::Local::now and NaiveDate::signed_duration_since:
/// today's local calendar date as days since 1970-01-01.
#[verifier::external_body]
fn local_today_days() -> (r: i64) {
    let today = chrono::Local::now().date_naive();
    let epoch = chrono::NaiveDate::from_ymd_opt(1970, 1, 1).unwrap();
    today.signed_duration_since(epoch).num_days()
}

/// Relies on chrono::Local::now and FixedOffset::local_minus_utc: the local
/// zone's offset from UTC in seconds, which chrono keeps strictly within a
/// day of zero.
#[verifier::external_body]
fn local_offset_seconds() -> (r: i32)
    ensures
        -86400 < r < 86400,
{
    chrono::Local::now().offset().local_minus_utc()
}

/// Whether the record's date stays within the range whose midnight
/// timestamp fits 64-bit nanoseconds, for the given offset.
fn date_in_range(date: i64, off: i32) -> (r: bool)
    ensures
        r == ts_in_range(date as int, off as int),
{
    if date > 140000 || date < -140000 {
        return false;
    }
    let secs: i64 = date * 86400 - off as i64;
    -9223372036 <= secs && secs <= 9223372036
}

/// Renders one record against the local date and zone offset of this
/// moment, as the per-record rendering does; None only when the record's
/// date lies outside the years whose timestamp fits the protocol.
pub fn render_record_now(rec: &IndexRecord, names: &NameMap) -> (r: Option<String>)
    requires
        names.wf(),
    ensures
        r matches Some(s) ==> exists|today: int, off: int|
            -86400 < off < 86400 && ts_in_range(rec.date as int, off) && s@ == line_of(
                rec@,
                names@,
                today,
                off,
            ),
        -106750 <= rec.date <= 106750 ==> r is Some,
        r is None ==> exists|off: int| -86400 < off < 86400 && !ts_in_range(rec.date as int, off),
{
    let today = local_today_days();
    let off = local_offset_seconds();
    if !date_in_range(rec.date, off) {
        proof {
            assert(off > -86400 && off < 86400);
            assert(!ts_in_range(rec.date as int, off as int));
        }
        return None;
    }
    let line = line_protocol(rec, names, today, off);
    proof {
        assert(off > -86400 && off < 86400);
        assert(ts_in_range(rec.date as int, off as int));
        assert(line@ == line_of(rec@, names@, today as int, off as int));
    }
    Some(line)
}

/// Renders one day's records as one collapsed line against the local date
/// and zone offset of this moment; None when there is no record, a record
/// has no pollutant to name its field, or the first record's date lies
/// outside the years whose timestamp fits the protocol.
pub fn render_collapsed_now(records: &Vec<IndexRecord>) -> (r: Option<String>)
    ensures
        r matches Some(s) ==> records@.len() > 0 && exists|today: int, off: int|
            -86400 < off < 86400 && ts_in_range(records@[0].date as int, off) && s@
                == collapsed_line_of(records.deep_view(), today, off),
        records@.len() == 0 ==> r is None,
        (records@.len() > 0 && (forall|j: int|
            0 <= j < records@.len() ==> records@[j].pollutants@.len() > 0) && -106750
            <= records@[0].date <= 106750) ==> r is Some,
        r is None ==> records@.len() == 0 || (exists|j: int|
            0 <= j < records@.len() && records@[j].pollutants@.len() == 0) || (exists|off: int|
            -86400 < off < 86400 && !ts_in_range(records@[0].date as int, off)),
{
    if records.len() == 0 {
        return None;
    }
    let mut i: usize = 0;
    while i < records.len()
        invariant
            i <= records@.len(),
            forall|j: int| 0 <= j < i ==> records@[j].pollutants@.len() > 0,
        decreases records@.len() - i,
    {
        if records[i].pollutants.len() == 0 {
            return None;
        }
        i = i + 1;
    }
    let today = local_today_days();
    let off = local_offset_seconds();
    if !date_in_range(records[0].date, off) {
        proof {
            assert(off > -86400 && off < 86400);
            assert(!ts_in_range(records@[0].date as int, off as int));
        }
        return None;
    }
    let line = collapsed_line(records, today, off);
    proof {
        assert(off > -86400 && off < 86400);
        assert(ts_in_range(records@[0].date as int, off as int));
        assert(line@ == collapsed_line_of(records.deep_view(), today as int, off as int));
    }
    Some(line)
}

} // verus!
