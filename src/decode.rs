use vstd::prelude::*;
use crate::json::{Json, json_parse, parse_document};
use crate::reading::Reading;
use crate::records::{
    Location, LocationView, ParticlesData, SensorData, SensorDataView, SeriesEntry,
    locations_view,
};

verus! {

/// The first member of an object with the given key.
pub open spec fn member(fields: Seq<(String, Json)>, key: Seq<char>) -> Option<Json>
    decreases fields.len(),
{
    if fields.len() == 0 {
        None
    } else if fields[0].0@ == key {
        Some(fields[0].1)
    } else {
        member(fields.drop_first(), key)
    }
}

/// A field of a record, which JSON may write as an object (by name) or as an
/// array of exactly `count` values (by position).
pub open spec fn field(j: Json, name: Seq<char>, index: int, count: int) -> Option<Json> {
    match j {
        Json::Object(fields) => member(fields@, name),
        Json::Array(items) => if items@.len() == count {
            Some(items@[index])
        } else {
            None
        },
        _ => None,
    }
}

/// A non-negative integer that fits in 32 bits.
pub open spec fn spec_u32(j: Json) -> Option<u32> {
    match j {
        Json::Number(n) => match n.unsigned {
            Some(u) => if u <= u32::MAX {
                Some(u as u32)
            } else {
                None
            },
            None => None,
        },
        _ => None,
    }
}

/// A string.
pub open spec fn spec_text(j: Json) -> Option<Seq<char>> {
    match j {
        Json::Text(s) => Some(s@),
        _ => None,
    }
}

/// An optional reading: `null` is an absent reading, a number a present one.
pub open spec fn spec_reading(j: Json) -> Option<Option<Reading>> {
    match j {
        Json::Null => Some(None),
        Json::Number(n) => match n.real {
            Some(r) => Some(Some(r)),
            None => None,
        },
        _ => None,
    }
}

pub open spec fn is_digit(c: char) -> bool {
    '0' <= c && c <= '9'
}

/// The number that a string of decimal digits writes.
pub open spec fn digits_value(s: Seq<char>) -> int
    decreases s.len(),
{
    if s.len() == 0 {
        0
    } else {
        digits_value(s.drop_last()) * 10 + (s.last() as int - '0' as int)
    }
}

/// A bucket key: decimal digits without a leading zero (but for "0" itself)
/// whose value fits in 32 bits.
pub open spec fn spec_key(s: Seq<char>) -> Option<u32> {
    if s.len() > 0 && (forall|i: int| 0 <= i < s.len() ==> is_digit(#[trigger] s[i])) && (s[0]
        != '0' || s.len() == 1) && digits_value(s) <= u32::MAX {
        Some(digits_value(s) as u32)
    } else {
        None
    }
}

pub open spec fn entry_ok(f: (String, Json)) -> bool {
    spec_key(f.0@).is_some() && spec_reading(f.1).is_some()
}

pub open spec fn entry_of(f: (String, Json)) -> SeriesEntry {
    (spec_key(f.0@).unwrap(), spec_reading(f.1).unwrap())
}

/// A particle series: an object whose every key is a bucket key and whose
/// every value an optional reading.
pub open spec fn spec_series(j: Json) -> Option<Seq<SeriesEntry>> {
    match j {
        Json::Object(fields) => if forall|i: int|
            0 <= i < fields@.len() ==> entry_ok(#[trigger] fields@[i]) {
            Some(fields@.map_values(|f: (String, Json)| entry_of(f)))
        } else {
            None
        },
        _ => None,
    }
}

/// A field that holds a particle series.
pub open spec fn series_field(j: Json, name: Seq<char>, index: int) -> Option<Seq<SeriesEntry>> {
    match field(j, name, index, 2) {
        Some(v) => spec_series(v),
        None => None,
    }
}

/// The record of both series: `pm10` and `pm25`, in that order.
pub open spec fn spec_particles(j: Json) -> Option<(Seq<SeriesEntry>, Seq<SeriesEntry>)> {
    match (series_field(j, "pm10"@, 0), series_field(j, "pm25"@, 1)) {
        (Some(a), Some(b)) => Some((a, b)),
        _ => None,
    }
}

/// A location's payload: `start`, `end` and `data`, in that order.
pub open spec fn spec_sensor_data(j: Json) -> Option<SensorDataView> {
    let start = match field(j, "start"@, 0, 3) {
        Some(v) => spec_u32(v),
        None => None,
    };
    let end = match field(j, "end"@, 1, 3) {
        Some(v) => spec_u32(v),
        None => None,
    };
    let data = match field(j, "data"@, 2, 3) {
        Some(v) => spec_particles(v),
        None => None,
    };
    match (start, end, data) {
        (Some(s), Some(e), Some(d)) => Some(
            SensorDataView { start: s, end: e, pm10: d.0, pm25: d.1 },
        ),
        _ => None,
    }
}

/// A directory entry: `path` and `description`, in that order.
pub open spec fn spec_location(j: Json) -> Option<LocationView> {
    let path = match field(j, "path"@, 0, 2) {
        Some(v) => spec_text(v),
        None => None,
    };
    let description = match field(j, "description"@, 1, 2) {
        Some(v) => spec_text(v),
        None => None,
    };
    match (path, description) {
        (Some(p), Some(d)) => Some(LocationView { path: p, description: d }),
        _ => None,
    }
}

/// The directory: an array whose every item is a directory entry.
pub open spec fn spec_directory(j: Json) -> Option<Seq<LocationView>> {
    match j {
        Json::Array(items) => if forall|i: int|
            0 <= i < items@.len() ==> (#[trigger] spec_location(items@[i])).is_some() {
            Some(items@.map_values(|x: Json| spec_location(x).unwrap()))
        } else {
            None
        },
        _ => None,
    }
}

/// Looks up the first member with the given key.
pub fn find_member<'a>(fields: &'a Vec<(String, Json)>, key: &str) -> (r: Option<&'a Json>)
    ensures
        r.is_some() == member(fields@, key@).is_some(),
        r.is_some() ==> *r.unwrap() == member(fields@, key@).unwrap(),
{
    let wanted = key.to_owned();
    let mut i: usize = 0;
    assert(fields@.skip(0) =~= fields@);
    while i < fields.len()
        invariant
            i <= fields.len(),
            wanted@ == key@,
            member(fields@, key@) == member(fields@.skip(i as int), key@),
        decreases fields.len() - i,
    {
        assert(fields@.skip(i as int)[0] == fields@[i as int]);
        if fields[i].0 == wanted {
            return Some(&fields[i].1);
        }
        assert(fields@.skip(i as int).drop_first() =~= fields@.skip(i + 1));
        i = i + 1;
    }
    None
}

/// Looks up a record field, by name in an object or by position in an array
/// of exactly `count` values.
pub fn find_field<'a>(j: &'a Json, name: &str, index: usize, count: usize) -> (r: Option<&'a Json>)
    requires
        index < count,
    ensures
        r.is_some() == field(*j, name@, index as int, count as int).is_some(),
        r.is_some() ==> *r.unwrap() == field(*j, name@, index as int, count as int).unwrap(),
{
    match j {
        Json::Object(fields) => find_member(fields, name),
        Json::Array(items) => if items.len() == count {
            Some(&items[index])
        } else {
            None
        },
        _ => None,
    }
}

pub fn decode_u32(j: &Json) -> (r: Option<u32>)
    ensures
        r == spec_u32(*j),
{
    match j {
        Json::Number(n) => match n.unsigned {
            Some(u) => if u <= 0xffff_ffff {
                Some(u as u32)
            } else {
                None
            },
            None => None,
        },
        _ => None,
    }
}

pub fn decode_text(j: &Json) -> (r: Option<String>)
    ensures
        r.is_some() == spec_text(*j).is_some(),
        r.is_some() ==> r.unwrap()@ == spec_text(*j).unwrap(),
{
    match j {
        Json::Text(s) => Some(s.clone()),
        _ => None,
    }
}

pub fn decode_reading(j: &Json) -> (r: Option<Option<Reading>>)
    ensures
        r == spec_reading(*j),
{
    match j {
        Json::Null => Some(None),
        Json::Number(n) => match n.real {
            Some(v) => Some(Some(v)),
            None => None,
        },
        _ => None,
    }
}

/// A digit string writes a non-negative number.
proof fn lemma_digits_nonneg(t: Seq<char>)
    requires
        forall|k: int| 0 <= k < t.len() ==> is_digit(#[trigger] t[k]),
    ensures
        digits_value(t) >= 0,
    decreases t.len(),
{
    if t.len() > 0 {
        let u = t.drop_last();
        assert forall|k: int| 0 <= k < u.len() implies is_digit(#[trigger] u[k]) by {
            assert(u[k] == t[k]);
        }
        lemma_digits_nonneg(u);
        assert(is_digit(t[t.len() - 1]));
    }
}

/// Every prefix of a digit string writes at most what the whole writes.
proof fn lemma_digits_prefix(s: Seq<char>, i: int, j: int)
    requires
        0 <= i <= j <= s.len(),
        forall|k: int| 0 <= k < s.len() ==> is_digit(#[trigger] s[k]),
    ensures
        0 <= digits_value(s.take(i)) <= digits_value(s.take(j)),
    decreases j - i,
{
    if i < j {
        lemma_digits_prefix(s, i, j - 1);
        assert(s.take(j).drop_last() =~= s.take(j - 1));
        assert(s.take(j).last() == s[j - 1]);
        assert(is_digit(s[j - 1]));
    } else {
        let t = s.take(i);
        assert forall|k: int| 0 <= k < t.len() implies is_digit(#[trigger] t[k]) by {
            assert(t[k] == s[k]);
        }
        lemma_digits_nonneg(t);
    }
}

/// Reads a bucket key.
pub fn decode_key(s: &str) -> (r: Option<u32>)
    ensures
        r == spec_key(s@),
{
    let n = s.unicode_len();
    if n == 0 {
        return None;
    }
    let first = s.get_char(0);
    if first == '0' && n > 1 {
        return None;
    }
    let mut value: u64 = 0;
    let mut i: usize = 0;
    while i < n
        invariant
            n == s@.len(),
            i <= n,
            forall|k: int| 0 <= k < i ==> is_digit(#[trigger] s@[k]),
            value == digits_value(s@.take(i as int)),
            value <= u32::MAX,
        decreases n - i,
    {
        let c = s.get_char(i);
        if !('0' <= c && c <= '9') {
            return None;
        }
        assert(s@.take(i + 1).drop_last() =~= s@.take(i as int));
        assert(s@.take(i + 1).last() == c);
        value = value * 10 + (c as u64 - '0' as u64);
        if value > 0xffff_ffff {
            proof {
                assert forall|k: int| 0 <= k < i + 1 implies is_digit(#[trigger] s@.take(i + 1)[k]) by {
                    assert(s@.take(i + 1)[k] == s@[k]);
                }
                if forall|k: int| 0 <= k < s@.len() ==> is_digit(#[trigger] s@[k]) {
                    lemma_digits_prefix(s@, i + 1, s@.len() as int);
                    assert(s@.take(s@.len() as int) =~= s@);
                }
            }
            return None;
        }
        i = i + 1;
    }
    assert(s@.take(n as int) =~= s@);
    Some(value as u32)
}

/// Decodes a particle series.
pub fn decode_series(j: &Json) -> (r: Option<Vec<SeriesEntry>>)
    ensures
        r.is_some() == spec_series(*j).is_some(),
        r.is_some() ==> r.unwrap()@ == spec_series(*j).unwrap(),
{
    match j {
        Json::Object(fields) => {
            let mut out: Vec<SeriesEntry> = Vec::new();
            let mut i: usize = 0;
            while i < fields.len()
                invariant
                    i <= fields.len(),
                    *j == Json::Object(*fields),
                    out@ == fields@.take(i as int).map_values(|f: (String, Json)| entry_of(f)),
                    forall|k: int| 0 <= k < i ==> entry_ok(#[trigger] fields@[k]),
                decreases fields.len() - i,
            {
                let key = decode_key(fields[i].0.as_str());
                let value = decode_reading(&fields[i].1);
                match (key, value) {
                    (Some(k), Some(v)) => {
                        out.push((k, v));
                    },
                    _ => {
                        assert(!entry_ok(fields@[i as int]));
                        assert(!(forall|k: int| 0 <= k < fields@.len() ==> entry_ok(#[trigger] fields@[k])));
                        assert(spec_series(*j).is_none());
                        return None;
                    },
                }
                assert(out@ =~= fields@.take(i + 1).map_values(|f: (String, Json)| entry_of(f)));
                i = i + 1;
            }
            assert(fields@.take(fields.len() as int) =~= fields@);
            Some(out)
        },
        _ => None,
    }
}

fn decode_series_field(j: &Json, name: &str, index: usize) -> (r: Option<Vec<SeriesEntry>>)
    requires
        index < 2,
    ensures
        r.is_some() == series_field(*j, name@, index as int).is_some(),
        r.is_some() ==> r.unwrap()@ == series_field(*j, name@, index as int).unwrap(),
{
    match find_field(j, name, index, 2) {
        Some(v) => decode_series(v),
        None => None,
    }
}

/// Decodes the record of both particle series.
pub fn decode_particles(j: &Json) -> (r: Option<ParticlesData>)
    ensures
        r.is_some() == spec_particles(*j).is_some(),
        r.is_some() ==> (r.unwrap().pm10@, r.unwrap().pm25@) == spec_particles(*j).unwrap(),
{
    let pm10 = decode_series_field(j, "pm10", 0);
    let pm25 = decode_series_field(j, "pm25", 1);
    match (pm10, pm25) {
        (Some(a), Some(b)) => Some(ParticlesData { pm10: a, pm25: b }),
        _ => None,
    }
}

/// Decodes one location's payload tree.
pub fn decode_sensor_data(j: &Json) -> (r: Option<SensorData>)
    ensures
        r.is_some() == spec_sensor_data(*j).is_some(),
        r.is_some() ==> r.unwrap()@ == spec_sensor_data(*j).unwrap(),
{
    let start = match find_field(j, "start", 0, 3) {
        Some(v) => decode_u32(v),
        None => None,
    };
    let end = match find_field(j, "end", 1, 3) {
        Some(v) => decode_u32(v),
        None => None,
    };
    let data = match find_field(j, "data", 2, 3) {
        Some(v) => decode_particles(v),
        None => None,
    };
    match (start, end, data) {
        (Some(s), Some(e), Some(d)) => Some(SensorData { start: s, end: e, data: d }),
        _ => None,
    }
}

/// Decodes one directory entry.
pub fn decode_location(j: &Json) -> (r: Option<Location>)
    ensures
        r.is_some() == spec_location(*j).is_some(),
        r.is_some() ==> r.unwrap()@ == spec_location(*j).unwrap(),
{
    let path = match find_field(j, "path", 0, 2) {
        Some(v) => decode_text(v),
        None => None,
    };
    let description = match find_field(j, "description", 1, 2) {
        Some(v) => decode_text(v),
        None => None,
    };
    match (path, description) {
        (Some(p), Some(d)) => Some(Location { path: p, description: d }),
        _ => None,
    }
}

/// Decodes the directory tree: every entry must decode.
pub fn decode_locations(j: &Json) -> (r: Option<Vec<Location>>)
    ensures
        r.is_some() == spec_directory(*j).is_some(),
        r.is_some() ==> locations_view(r.unwrap()@) == spec_directory(*j).unwrap(),
{
    match j {
        Json::Array(items) => {
            let mut out: Vec<Location> = Vec::new();
            let mut i: usize = 0;
            while i < items.len()
                invariant
                    i <= items.len(),
                    *j == Json::Array(*items),
                    locations_view(out@) == items@.take(i as int).map_values(
                        |x: Json| spec_location(x).unwrap(),
                    ),
                    forall|k: int| 0 <= k < i ==> (#[trigger] spec_location(items@[k])).is_some(),
                decreases items.len() - i,
            {
                let ghost before = out@;
                match decode_location(&items[i]) {
                    Some(l) => {
                        let ghost lv = l@;
                        out.push(l);
                        assert(locations_view(out@) =~= locations_view(before).push(lv));
                    },
                    None => {
                        assert(spec_location(items@[i as int]).is_none());
                        assert(!(forall|k: int| 0 <= k < items@.len() ==> (#[trigger] spec_location(items@[k])).is_some()));
                        assert(spec_directory(*j).is_none());
                        return None;
                    },
                }
                assert(locations_view(out@) =~= items@.take(i + 1).map_values(
                    |x: Json| spec_location(x).unwrap(),
                ));
                i = i + 1;
            }
            assert(items@.take(items.len() as int) =~= items@);
            Some(out)
        },
        _ => None,
    }
}

/// The directory a text decodes to; empty when it does not decode.
pub open spec fn spec_parse_locations(text: Seq<char>) -> Seq<LocationView> {
    match json_parse(text) {
        Some(j) => match spec_directory(j) {
            Some(v) => v,
            None => Seq::empty(),
        },
        None => Seq::empty(),
    }
}

/// The payload a text decodes to; the empty value when it does not decode.
pub open spec fn spec_parse_sensor_data(text: Seq<char>) -> SensorDataView {
    match json_parse(text) {
        Some(j) => match spec_sensor_data(j) {
            Some(d) => d,
            None => SensorDataView::empty(),
        },
        None => SensorDataView::empty(),
    }
}

/// Parses the directory text; any failure gives no locations.
pub fn parse_locations(text: &str) -> (r: Vec<Location>)
    ensures
        locations_view(r@) == spec_parse_locations(text@),
{
    let parsed = parse_document(text);
    let decoded = match &parsed {
        Some(j) => decode_locations(j),
        None => None,
    };
    match decoded {
        Some(v) => v,
        None => {
            let v: Vec<Location> = Vec::new();
            assert(locations_view(v@) =~= Seq::<LocationView>::empty());
            v
        },
    }
}

/// Parses a location's payload text; any failure gives the empty value.
pub fn parse_sensor_data(text: &str) -> (r: SensorData)
    ensures
        r@ == spec_parse_sensor_data(text@),
{
    let parsed = parse_document(text);
    let decoded = match &parsed {
        Some(j) => decode_sensor_data(j),
        None => None,
    };
    match decoded {
        Some(d) => d,
        None => SensorData::default(),
    }
}

} // verus!
