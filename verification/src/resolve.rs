//! The geocoding query that resolves area codes to city names: the query
//! URL, and the reading of the service's JSON reply into a name map.

use vstd::prelude::*;
use crate::names::{build_name_map, pair_views, resolved_map, NameMap};
use crate::numfmt::{dec_digits, u64_str};
use crate::text::{join_strings, join_with};

verus! {

#[verifier::external_type_specification]
#[verifier::external_body]
pub struct ExJsonValue(json::JsonValue);

#[verifier::external_type_specification]
#[verifier::external_body]
pub struct ExJsonError(json::Error);

/// Whether json::parse accepts a text as a JSON document.
pub uninterp spec fn parses_ok(s: Seq<char>) -> bool;

/// The document json::parse reads from a text it accepts.
pub uninterp spec fn parsed_of(s: Seq<char>) -> json::JsonValue;

/// What JsonValue::has_key answers for a value and a key.
pub uninterp spec fn has_key_of(v: json::JsonValue, key: Seq<char>) -> bool;

/// The member JsonValue's Index impl yields for a value and a key.
pub uninterp spec fn member_of(v: json::JsonValue, key: Seq<char>) -> json::JsonValue;

/// The text JsonValue::as_str yields: Some for a string value, None else.
pub uninterp spec fn as_str_of(v: json::JsonValue) -> Option<Seq<char>>;

/// The text the Display impl of JsonValue renders.
pub uninterp spec fn display_of(v: json::JsonValue) -> Seq<char>;

/// The elements of an array value, None for any other value.
pub uninterp spec fn array_of(v: json::JsonValue) -> Option<Seq<json::JsonValue>>;

/// Relies on json::parse: reads a JSON document from text; both success and
/// the document are functions of the text alone.
#[verifier::external_body]
fn parse_json(s: &str) -> (r: Result<json::JsonValue, json::Error>)
    ensures
        r is Ok <==> parses_ok(s@),
        r matches Ok(v) ==> v == parsed_of(s@),
{
    json::parse(s)
}

/// Relies on JsonValue::has_key: whether an object value holds the key.
#[verifier::external_body]
fn json_has_key(v: &json::JsonValue, key: &str) -> (r: bool)
    ensures
        r == has_key_of(*v, key@),
{
    v.has_key(key)
}

/// Relies on JsonValue's Index impl for &str: the member under the key, or
/// Null when the value is no object or lacks the key.
#[verifier::external_body]
fn json_member<'a>(v: &'a json::JsonValue, key: &str) -> (r: &'a json::JsonValue)
    ensures
        *r == member_of(*v, key@),
{
    &v[key]
}

/// Relies on JsonValue::as_str: the text of a string value, None for any
/// other value.
#[verifier::external_body]
fn json_as_str(v: &json::JsonValue) -> (r: Option<String>)
    ensures
        r.deep_view() == as_str_of(*v),
{
    v.as_str().map(|s| s.to_owned())
}

/// Relies on the Display impl of JsonValue: a string value's bare text, any
/// other value serialized as JSON.
#[verifier::external_body]
fn json_display(v: &json::JsonValue) -> (r: String)
    ensures
        r@ == display_of(*v),
{
    v.to_string()
}

/// Relies on the JsonValue::Array variant: the elements of an array value,
/// None for any other value.
#[verifier::external_body]
fn json_array_members(v: &json::JsonValue) -> (r: Option<Vec<json::JsonValue>>)
    ensures
        match r {
            Option::Some(items) => array_of(*v) == Option::Some(items@),
            Option::None => array_of(*v) is None,
        },
{
    match v {
        json::JsonValue::Array(items) => Some(items.clone()),
        _ => None,
    }
}

/// Why a geocoding reply yields no name map.
#[derive(Debug)]
pub enum ResolveError {
    /// The reply carried an explicit error field, with its text.
    ErrorField(String),
    /// The reply was not well-formed JSON.
    BadJson,
    /// The reply held no array of records, or a record without a readable
    /// name.
    WrongShape,
}

impl ResolveError {
    /// The message a report of this error shows: the reply's own error text
    /// where it gave one, else what was wrong with the reply.
    pub fn message(&self) -> (r: String)
        ensures
            match self {
                ResolveError::ErrorField(m) => r@ == m@,
                ResolveError::BadJson => r@ == "invalid JSON"@,
                ResolveError::WrongShape => r@ == "Wrong json"@,
            },
    {
        match self {
            ResolveError::ErrorField(m) => m.clone(),
            ResolveError::BadJson => "invalid JSON".to_owned(),
            ResolveError::WrongShape => "Wrong json".to_owned(),
        }
    }
}

/// The query URL asking the geocoding service for the given area codes.
pub open spec fn resolver_url(codes: Seq<Seq<char>>) -> Seq<char> {
    "https://public.opendatasoft.com/api/records/1.0/search/?rows="@ + dec_digits(
        codes.len() as int,
    ) + "&q="@ + join_with(codes, " or "@)
        + "&start=0&dataset=correspondance-code-insee-code-postal"@
}

/// Builds the geocoding query URL for the given area codes.
pub fn build_resolver_url(codes: &Vec<String>) -> (r: String)
    ensures
        r@ == resolver_url(codes.deep_view()),
{
    let mut r = "https://public.opendatasoft.com/api/records/1.0/search/?rows=".to_owned();
    let rows = u64_str(codes.len() as u64);
    r.append(rows.as_str());
    r.append("&q=");
    let q = join_strings(codes, " or ");
    r.append(q.as_str());
    r.append("&start=0&dataset=correspondance-code-insee-code-postal");
    proof {
        assert(r@ =~= resolver_url(codes.deep_view()));
    }
    r
}

/// The records array of a parsed reply.
pub open spec fn reply_records(s: Seq<char>) -> Option<Seq<json::JsonValue>> {
    array_of(member_of(parsed_of(s), "records"@))
}

/// Whether a reply record carries a textual commune name.
pub open spec fn record_readable(item: json::JsonValue) -> bool {
    as_str_of(member_of(member_of(item, "fields"@), "nom_comm"@)) is Some
}

/// The (area code, raw name) pair a readable reply record carries.
pub open spec fn record_pair(item: json::JsonValue) -> (Seq<char>, Seq<char>) {
    (
        display_of(member_of(member_of(item, "fields"@), "insee_com"@)),
        as_str_of(member_of(member_of(item, "fields"@), "nom_comm"@)).unwrap(),
    )
}

/// The pairs of a reply's records, in order.
pub open spec fn record_pairs(items: Seq<json::JsonValue>) -> Seq<(Seq<char>, Seq<char>)> {
    items.map_values(|it: json::JsonValue| record_pair(it))
}

/// Whether every record of the array carries a textual name.
pub open spec fn all_records_readable(items: Seq<json::JsonValue>) -> bool {
    forall|i: int| 0 <= i < items.len() ==> record_readable(items[i])
}

/// Whether a reply body resolves to a name map: well-formed JSON, no error
/// field, a records array, every record with a textual name.
pub open spec fn reply_resolves(s: Seq<char>) -> bool {
    &&& parses_ok(s)
    &&& !has_key_of(parsed_of(s), "error"@)
    &&& reply_records(s) is Some
    &&& all_records_readable(reply_records(s).unwrap())
}

/// Reads the geocoding service's reply into a name map: Ok exactly when the
/// reply is well-formed JSON without an error field whose records each carry
/// a textual commune name; the map is the resolution of exactly those
/// (code, name) pairs, every raw name normalized. A malformed body gives
/// `BadJson`, an explicit error field gives `ErrorField` with the member's
/// display text, anything else that fails gives `WrongShape`; no partial
/// map escapes.
pub fn parse_resolver_response(body: &str) -> (r: Result<NameMap, ResolveError>)
    ensures
        r is Ok <==> reply_resolves(body@),
        r matches Ok(m) ==> m.wf() && m@ == resolved_map(
            record_pairs(reply_records(body@).unwrap()),
        ),
        r matches Err(e) ==> (e is BadJson <==> !parses_ok(body@)),
        r matches Err(e) ==> (e is ErrorField <==> parses_ok(body@) && has_key_of(
            parsed_of(body@),
            "error"@,
        )),
        r matches Err(ResolveError::ErrorField(msg)) ==> msg@ == display_of(
            member_of(parsed_of(body@), "error"@),
        ),
{
    let parsed = parse_json(body);
    let v = match parsed {
        Ok(v) => v,
        Err(_) => {
            return Err(ResolveError::BadJson);
        },
    };
    if json_has_key(&v, "error") {
        let msg = json_display(json_member(&v, "error"));
        return Err(ResolveError::ErrorField(msg));
    }
    let records = json_member(&v, "records");
    let items = match json_array_members(records) {
        Some(it) => it,
        None => {
            return Err(ResolveError::WrongShape);
        },
    };
    let mut pairs: Vec<(String, String)> = Vec::new();
    let mut i: usize = 0;
    proof {
        assert(pair_views(pairs@) =~= record_pairs(items@).take(0));
    }
    while i < items.len()
        invariant
            parses_ok(body@),
            !has_key_of(parsed_of(body@), "error"@),
            reply_records(body@) == Option::Some(items@),
            i <= items@.len(),
            forall|j: int| 0 <= j < i ==> record_readable(items@[j]),
            pair_views(pairs@) == record_pairs(items@).take(i as int),
        decreases items@.len() - i,
    {
        let item_fields = json_member(&items[i], "fields");
        let name_opt = json_as_str(json_member(item_fields, "nom_comm"));
        let name = match name_opt {
            Some(s) => s,
            None => {
                proof {
                    assert(!record_readable(items@[i as int]));
                    assert(!all_records_readable(items@));
                }
                return Err(ResolveError::WrongShape);
            },
        };
        let code = json_display(json_member(item_fields, "insee_com"));
        let ghost cv = code@;
        let ghost nv = name@;
        proof {
            assert(record_readable(items@[i as int]));
            assert(record_pair(items@[i as int]) == (cv, nv));
        }
        pairs.push((code, name));
        proof {
            assert(pair_views(pairs@) =~= record_pairs(items@).take(i as int).push((cv, nv)));
            assert(record_pairs(items@)[i as int] == record_pair(items@[i as int]));
            assert(record_pairs(items@).take(i as int).push(record_pairs(items@)[i as int])
                =~= record_pairs(items@).take(i as int + 1));
            assert(pair_views(pairs@) =~= record_pairs(items@).take(i as int + 1));
        }
        i = i + 1;
    }
    proof {
        assert(record_pairs(items@).take(items@.len() as int) =~= record_pairs(items@));
        assert(all_records_readable(items@));
        assert(reply_resolves(body@));
    }
    let m = build_name_map(&pairs);
    proof {
        assert(pair_views(pairs@) == record_pairs(items@));
        assert(m@ == resolved_map(record_pairs(items@)));
        assert(reply_records(body@).unwrap() == items@);
    }
    Ok(m)
}

} // verus!
