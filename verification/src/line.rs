//! Rendering of one record into one line of the text protocol, and the
//! collapsed one-line-per-day rendering.

use vstd::prelude::*;
use vstd::relations::sorted_by;
use vstd::seq_lib::lemma_sorted_unique;
use crate::dates::{day_tag, day_tag_str, midnight_timestamp, timestamp_nanos, ts_in_range};
use crate::names::NameMap;
use crate::numfmt::{dec_digits, dec_int, i64_str, u64_str};
use crate::record::{IndexRecord, RecordV};
use crate::text::{escape_spaces, escape_str, join_strings, join_with, lex_fn, lemma_lex_total_ordering, sort_strings};

verus! {

/// The `insee` tag: the area code, or `0` for a region-wide record.
pub open spec fn insee_part(insee: Option<Seq<char>>) -> Seq<char> {
    match insee {
        Option::None => ",insee=0"@,
        Option::Some(code) => ",insee="@ + code,
    }
}

/// The `city` tag: present only when the record has an area code and the
/// name map has entries; `none` when the code is not in the map.
pub open spec fn city_part(insee: Option<Seq<char>>, names: Map<Seq<char>, Seq<char>>) -> Seq<
    char,
> {
    match insee {
        Option::None => Seq::empty(),
        Option::Some(code) => if names.dom().is_empty() {
            Seq::empty()
        } else if names.contains_key(code) {
            ",city="@ + escape_spaces(names[code])
        } else {
            ",city=none"@
        },
    }
}

/// The `day` tag.
pub open spec fn day_part(date: int, today: int) -> Seq<char> {
    ",day="@ + day_tag(date, today)
}

/// The `pollutant` tag: absent for an empty list, else the identifiers in
/// lexicographic order joined by an escaped space.
pub open spec fn pollutant_part(ps: Seq<Seq<char>>) -> Seq<char> {
    if ps.len() == 0 {
        Seq::empty()
    } else {
        ",pollutant="@ + join_with(ps.sort_by(lex_fn()), "\\ "@)
    }
}

/// The single field of a line.
pub open spec fn field_part(index: int) -> Seq<char> {
    " index="@ + dec_digits(index)
}

/// The trailing nanosecond timestamp.
pub open spec fn stamp_part(date: int, off: int) -> Seq<char> {
    " "@ + dec_int(timestamp_nanos(date, off))
}

/// One full line of the protocol for a record, a name map, today's day
/// number and the local offset from UTC in seconds.
pub open spec fn line_of(r: RecordV, names: Map<Seq<char>, Seq<char>>, today: int, off: int) -> Seq<
    char,
> {
    "pollution"@ + insee_part(r.insee) + city_part(r.insee, names) + day_part(r.date, today)
        + pollutant_part(r.pollutants) + field_part(r.index) + stamp_part(r.date, off)
}

/// Renders one record as one line of the protocol.
pub fn line_protocol(rec: &IndexRecord, names: &NameMap, today: i64, off: i32) -> (r: String)
    requires
        names.wf(),
        ts_in_range(rec.date as int, off as int),
    ensures
        r@ == line_of(rec@, names@, today as int, off as int),
{
    let mut r = "pollution".to_owned();
    match &rec.insee {
        Option::None => {
            r.append(",insee=0");
        },
        Option::Some(code) => {
            r.append(",insee=");
            r.append(code.as_str());
            if !names.is_empty() {
                match names.get(code.as_str()) {
                    Option::None => {
                        r.append(",city=none");
                    },
                    Option::Some(v) => {
                        r.append(",city=");
                        let e = escape_str(v.as_str());
                        r.append(e.as_str());
                    },
                }
            }
        },
    }
    proof {
        assert(r@ =~= "pollution"@ + insee_part(rec@.insee) + city_part(rec@.insee, names@));
    }
    r.append(",day=");
    r.append(day_tag_str(rec.date, today));
    if rec.pollutants.len() > 0 {
        r.append(",pollutant=");
        let sorted = sort_strings(&rec.pollutants);
        let joined = join_strings(&sorted, "\\ ");
        r.append(joined.as_str());
    }
    r.append(" index=");
    let idx = u64_str(rec.index as u64);
    r.append(idx.as_str());
    r.append(" ");
    let ts = midnight_timestamp(rec.date, off);
    let t = i64_str(ts);
    r.append(t.as_str());
    proof {
        assert(r@ =~= line_of(rec@, names@, today as int, off as int));
    }
    r
}

/// One `name=value` field per record, for the collapsed rendering: the
/// record's first pollutant names the field.
pub open spec fn field_entries(rs: Seq<RecordV>) -> Seq<Seq<char>> {
    rs.map_values(|r: RecordV| r.pollutants[0] + "="@ + dec_digits(r.index))
}

/// The collapsed line for one day's records: region-wide tags, one field per
/// record, the day tag and timestamp taken from the first record.
pub open spec fn collapsed_line_of(rs: Seq<RecordV>, today: int, off: int) -> Seq<char>
    recommends
        rs.len() > 0,
{
    "pollution,insee=0,day="@ + day_tag(rs[0].date, today) + " "@ + join_with(
        field_entries(rs),
        ","@,
    ) + " "@ + dec_int(timestamp_nanos(rs[0].date, off))
}

/// Renders one day's records as one collapsed line with one field per
/// record.
pub fn collapsed_line(records: &Vec<IndexRecord>, today: i64, off: i32) -> (r: String)
    requires
        records@.len() > 0,
        forall|i: int|
            0 <= i < records@.len() ==> records@[i].pollutants@.len() > 0,
        ts_in_range(records@[0].date as int, off as int),
    ensures
        r@ == collapsed_line_of(records.deep_view(), today as int, off as int),
{
    let mut r = "pollution,insee=0,day=".to_owned();
    r.append(day_tag_str(records[0].date, today));
    r.append(" ");
    let ghost entries = field_entries(records.deep_view());
    let mut fields = String::new();
    let mut i: usize = 0;
    proof {
        assert(records.deep_view().len() == records@.len());
        assert(entries.take(0) =~= Seq::<Seq<char>>::empty());
    }
    while i < records.len()
        invariant
            i <= records@.len(),
            entries == field_entries(records.deep_view()),
            entries.len() == records@.len(),
            records.deep_view().len() == records@.len(),
            forall|j: int|
                0 <= j < records@.len() ==> records@[j].pollutants@.len() > 0,
            forall|j: int|
                0 <= j < records@.len() ==> records.deep_view()[j] == records@[j]@,
            fields@ == join_with(entries.take(i as int), ","@),
        decreases records@.len() - i,
    {
        if i > 0 {
            fields.append(",");
        }
        fields.append(records[i].pollutants[0].as_str());
        fields.append("=");
        let n = u64_str(records[i].index as u64);
        fields.append(n.as_str());
        proof {
            assert(records.deep_view()[i as int].pollutants[0]
                == records@[i as int].pollutants@[0]@);
            assert(entries[i as int] == records.deep_view()[i as int].pollutants[0] + "="@
                + dec_digits(records.deep_view()[i as int].index));
            assert(entries.take(i as int).push(entries[i as int]) =~= entries.take(i as int + 1));
            if i > 0 {
                crate::text::lemma_join_push(entries.take(i as int), ","@, entries[i as int]);
            } else {
                assert(entries.take(1) =~= seq![entries[0]]);
                assert(fields@ =~= join_with(entries.take(1), ","@));
            }
        }
        i = i + 1;
    }
    proof {
        assert(entries.take(records@.len() as int) =~= entries);
    }
    r.append(fields.as_str());
    r.append(" ");
    let ts = midnight_timestamp(records[0].date, off);
    let t = i64_str(ts);
    r.append(t.as_str());
    proof {
        assert(records.deep_view()[0] == records@[0]@);
        assert(r@ =~= collapsed_line_of(records.deep_view(), today as int, off as int));
    }
    r
}

/// A record with no pollutants is rendered without any `pollutant` tag: the
/// line is exactly the other parts, nothing between the day tag and the
/// field.
pub proof fn lemma_empty_pollutants_no_tag(
    r: RecordV,
    names: Map<Seq<char>, Seq<char>>,
    today: int,
    off: int,
)
    requires
        r.pollutants.len() == 0,
    ensures
        line_of(r, names, today, off) == "pollution"@ + insee_part(r.insee) + city_part(
            r.insee,
            names,
        ) + day_part(r.date, today) + field_part(r.index) + stamp_part(r.date, off),
{
    assert(pollutant_part(r.pollutants) == Seq::<char>::empty());
    assert(line_of(r, names, today, off) =~= "pollution"@ + insee_part(r.insee) + city_part(
        r.insee,
        names,
    ) + day_part(r.date, today) + field_part(r.index) + stamp_part(r.date, off));
}

/// The pollutant tag value lists the identifiers in lexicographic order, and
/// the rendered line does not depend on the order the record holds them in.
pub proof fn lemma_pollutant_order_irrelevant(
    a: RecordV,
    b: RecordV,
    names: Map<Seq<char>, Seq<char>>,
    today: int,
    off: int,
)
    requires
        a.pollutants.to_multiset() == b.pollutants.to_multiset(),
        a.date == b.date,
        a.index == b.index,
        a.insee == b.insee,
    ensures
        sorted_by(a.pollutants.sort_by(lex_fn()), lex_fn()),
        line_of(a, names, today, off) == line_of(b, names, today, off),
{
    lemma_lex_total_ordering();
    a.pollutants.lemma_sort_by_ensures(lex_fn());
    b.pollutants.lemma_sort_by_ensures(lex_fn());
    a.pollutants.to_multiset_ensures();
    b.pollutants.to_multiset_ensures();
    assert(a.pollutants.len() == b.pollutants.len());
    if a.pollutants.len() > 0 {
        lemma_sorted_unique(
            a.pollutants.sort_by(lex_fn()),
            b.pollutants.sort_by(lex_fn()),
            lex_fn(),
        );
        assert(pollutant_part(a.pollutants) == pollutant_part(b.pollutants));
    }
}

/// A record without an area code carries `insee=0` and never a `city` tag,
/// whatever the name map holds.
pub proof fn lemma_no_area_code(
    r: RecordV,
    names: Map<Seq<char>, Seq<char>>,
    today: int,
    off: int,
)
    requires
        r.insee is None,
    ensures
        line_of(r, names, today, off) == "pollution"@ + ",insee=0"@ + day_part(r.date, today)
            + pollutant_part(r.pollutants) + field_part(r.index) + stamp_part(r.date, off),
{
    assert(city_part(r.insee, names) == Seq::<char>::empty());
    assert(line_of(r, names, today, off) =~= "pollution"@ + ",insee=0"@ + day_part(r.date, today)
        + pollutant_part(r.pollutants) + field_part(r.index) + stamp_part(r.date, off));
}

/// A record whose area code the non-empty name map resolves carries the
/// stored name with escaped spaces as its `city` tag.
pub proof fn lemma_city_resolved(
    r: RecordV,
    names: Map<Seq<char>, Seq<char>>,
    code: Seq<char>,
    today: int,
    off: int,
)
    requires
        r.insee == Option::Some(code),
        names.contains_key(code),
    ensures
        line_of(r, names, today, off) == "pollution"@ + (",insee="@ + code) + (",city="@
            + escape_spaces(names[code])) + day_part(r.date, today) + pollutant_part(r.pollutants)
            + field_part(r.index) + stamp_part(r.date, off),
{
    assert(!names.dom().is_empty());
}

/// A record whose area code the map built from raw (code, name) pairs
/// resolves carries, as its `city` tag, the last matching pair's raw name
/// with hyphens turned to spaces, title-cased, and its spaces escaped.
pub proof fn lemma_city_shows_normalized_name(
    r: RecordV,
    pairs: Seq<(Seq<char>, Seq<char>)>,
    i: int,
    today: int,
    off: int,
)
    requires
        0 <= i < pairs.len(),
        r.insee == Option::Some(pairs[i].0),
        forall|j: int| i < j < pairs.len() ==> pairs[j].0 != pairs[i].0,
    ensures
        line_of(r, crate::names::resolved_map(pairs), today, off) == "pollution"@ + (",insee="@
            + pairs[i].0) + (",city="@ + escape_spaces(crate::names::normalized(pairs[i].1)))
            + day_part(r.date, today) + pollutant_part(r.pollutants) + field_part(r.index)
            + stamp_part(r.date, off),
{
    crate::names::lemma_resolved_map_last_wins(pairs, i);
    assert(!crate::names::resolved_map(pairs).dom().is_empty());
}

/// A record whose area code a non-empty name map does not resolve carries
/// `city=none`.
pub proof fn lemma_city_unresolved(
    r: RecordV,
    names: Map<Seq<char>, Seq<char>>,
    code: Seq<char>,
    today: int,
    off: int,
)
    requires
        r.insee == Option::Some(code),
        !names.dom().is_empty(),
        !names.contains_key(code),
    ensures
        line_of(r, names, today, off) == "pollution"@ + (",insee="@ + code) + ",city=none"@
            + day_part(r.date, today) + pollutant_part(r.pollutants) + field_part(r.index)
            + stamp_part(r.date, off),
{
}

} // verus!
