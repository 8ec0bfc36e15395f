//! Temperature readings from JSON documents, read from a plain JSON tree.
use vstd::prelude::*;
use crate::decimal::{parse_number, parsed_number, Decimal};
use crate::pattern::opt_view;
use crate::text::chars_of;
use crate::timestamp::{normalized_timestamp, parse_timestamp, Timestamp};
use crate::xsense::{reading_views, ReadingView, TemperatureReading};

verus! {

/// A JSON value; a number keeps the text that writes it, and an object its
/// members in order, each key once.
#[derive(Debug)]
pub enum JsonValue {
    Null,
    Bool(bool),
    Number(String),
    Str(String),
    Array(Vec<JsonValue>),
    Object(Vec<(String, JsonValue)>),
}

/// The instant that `chrono` reads from `s` as a `DateTime<Utc>` (a relaxed
/// RFC 3339 with offset).
pub uninterp spec fn utc_instant(s: Seq<char>) -> Option<Timestamp>;

/// Relies on `FromStr` for `chrono::DateTime<Utc>`, the reading that serde
/// gives a `DateTime<Utc>` field: a function of the text alone.
#[verifier::external_body]
fn parse_utc(s: &str) -> (r: Option<Timestamp>)
    ensures
        r == utc_instant(s@),
{
    let t = s.parse::<chrono::DateTime<chrono::Utc>>().ok()?;
    Some(Timestamp { seconds: t.timestamp(), nanos: t.timestamp_subsec_nanos() })
}

/// The value of the first member named `key`.
pub open spec fn lookup(members: Seq<(String, JsonValue)>, key: Seq<char>) -> Option<JsonValue>
    decreases members.len(),
{
    if members.len() == 0 {
        None
    } else if members[0].0@ == key {
        Some(members[0].1)
    } else {
        lookup(members.drop_first(), key)
    }
}

/// The member `key` of an object.
pub open spec fn member(v: JsonValue, key: Seq<char>) -> Option<JsonValue> {
    match v {
        JsonValue::Object(m) => lookup(m@, key),
        _ => None,
    }
}

/// The member of the first of `keys` that the object has.
pub open spec fn first_member(v: JsonValue, keys: Seq<Seq<char>>) -> Option<JsonValue>
    decreases keys.len(),
{
    if keys.len() == 0 {
        None
    } else {
        match member(v, keys[0]) {
            Some(x) => Some(x),
            None => first_member(v, keys.drop_first()),
        }
    }
}

pub open spec fn str_of(v: Option<JsonValue>) -> Option<Seq<char>> {
    match v {
        Some(JsonValue::Str(s)) => Some(s@),
        _ => None,
    }
}

/// The decimal that a JSON number writes, exponent included.
pub open spec fn number_of(v: Option<JsonValue>) -> Option<Decimal> {
    match v {
        Some(JsonValue::Number(n)) => parsed_number(n@),
        _ => None,
    }
}

/// A reading under the usual field names: the time from `timestamp`, `time`
/// or `date` (required, any supported format), the sensor from `sensor_id`,
/// `sensor` or `device_id` (default `unknown`), the temperature from
/// `temperature` or `temp` (required), the humidity from `humidity` or `hum`,
/// the location from `location` or `room`.
pub open spec fn aliased_reading(v: JsonValue) -> Option<ReadingView> {
    let ts = str_of(first_member(v, seq!["timestamp"@, "time"@, "date"@]));
    let t = number_of(first_member(v, seq!["temperature"@, "temp"@]));
    match (ts, t) {
        (Some(s), Some(temperature)) => match normalized_timestamp(s) {
            Some(timestamp) => Some(
                ReadingView {
                    sensor_id: match str_of(first_member(v, seq!["sensor_id"@, "sensor"@, "device_id"@])) {
                        Some(id) => id,
                        None => "unknown"@,
                    },
                    timestamp,
                    temperature,
                    humidity: number_of(first_member(v, seq!["humidity"@, "hum"@])),
                    location: str_of(first_member(v, seq!["location"@, "room"@])),
                },
            ),
            None => None,
        },
        _ => None,
    }
}

/// An optional field: absent or null gives `Some(None)`, a value of the right
/// kind `Some(Some(..))`, anything else `None`.
pub open spec fn optional_number(v: Option<JsonValue>) -> Option<Option<Decimal>> {
    match v {
        None => Some(None),
        Some(JsonValue::Null) => Some(None),
        Some(x) => match number_of(Some(x)) {
            Some(d) => Some(Some(d)),
            None => None,
        },
    }
}

pub open spec fn optional_str(v: Option<JsonValue>) -> Option<Option<Seq<char>>> {
    match v {
        None => Some(None),
        Some(JsonValue::Null) => Some(None),
        Some(JsonValue::Str(s)) => Some(Some(s@)),
        _ => None,
    }
}

/// A reading written with the reading's own field names: an object with a
/// string `sensor_id`, a `timestamp` that reads as a UTC date and time, a
/// number `temperature`, and optional `humidity` and `location`.
pub open spec fn exact_reading(v: JsonValue) -> Option<ReadingView> {
    match (
        v,
        str_of(member(v, "sensor_id"@)),
        str_of(member(v, "timestamp"@)),
        number_of(member(v, "temperature"@)),
        optional_number(member(v, "humidity"@)),
        optional_str(member(v, "location"@)),
    ) {
        (
            JsonValue::Object(_),
            Some(id),
            Some(ts),
            Some(temperature),
            Some(humidity),
            Some(location),
        ) => match utc_instant(ts) {
            Some(timestamp) => Some(
                ReadingView { sensor_id: id, timestamp, temperature, humidity, location },
            ),
            None => None,
        },
        _ => None,
    }
}

/// The readings of the items from index `k` on, each read as a complete
/// reading; `None` as soon as one is not.
pub open spec fn exact_readings(items: Seq<JsonValue>, k: int) -> Option<Seq<ReadingView>>
    decreases items.len() - k,
{
    if k < 0 || k >= items.len() {
        Some(Seq::empty())
    } else {
        match (exact_reading(items[k]), exact_readings(items, k + 1)) {
            (Some(r), Some(rest)) => Some(seq![r] + rest),
            _ => None,
        }
    }
}

/// The readings of the items from index `k` on under the usual field names,
/// skipping the items that lack a required field.
pub open spec fn aliased_readings(items: Seq<JsonValue>, k: int) -> Seq<ReadingView>
    decreases items.len() - k,
{
    if k < 0 || k >= items.len() {
        Seq::empty()
    } else {
        match aliased_reading(items[k]) {
            Some(r) => seq![r] + aliased_readings(items, k + 1),
            None => aliased_readings(items, k + 1),
        }
    }
}

pub open spec fn array_of(v: Option<JsonValue>) -> Option<Seq<JsonValue>> {
    match v {
        Some(JsonValue::Array(items)) => Some(items@),
        _ => None,
    }
}

/// The readings of a JSON document: an array of complete readings as it
/// stands; otherwise the items of its `data` array, else of its `readings`
/// array, under the usual field names; otherwise none.
pub open spec fn json_readings(doc: JsonValue) -> Seq<ReadingView> {
    let direct = match doc {
        JsonValue::Array(items) => exact_readings(items@, 0),
        _ => None,
    };
    match direct {
        Some(r) => r,
        None => match array_of(member(doc, "data"@)) {
            Some(items) => aliased_readings(items, 0),
            None => match array_of(member(doc, "readings"@)) {
                Some(items) => aliased_readings(items, 0),
                None => Seq::empty(),
            },
        },
    }
}

/// The member `key` of an object.
fn get<'a>(v: &'a JsonValue, key: &str) -> (r: Option<&'a JsonValue>)
    ensures
        match r {
            Some(x) => member(*v, key@) == Some(*x),
            None => member(*v, key@) is None,
        },
{
    match v {
        JsonValue::Object(m) => {
            let mut i: usize = 0;
            assert(m@.subrange(0, m@.len() as int) =~= m@);
            assert(member(*v, key@) == lookup(m@, key@));
            while i < m.len()
                invariant
                    i <= m@.len(),
                    member(*v, key@) == lookup(m@, key@),
                    lookup(m@.subrange(i as int, m@.len() as int), key@) == lookup(m@, key@),
                decreases m@.len() - i,
            {
                let ghost rest = m@.subrange(i as int, m@.len() as int);
                assert(rest[0] == m@[i as int]);
                let same = m[i].0 == String::from_str(key);
                if same {
                    assert(m@[i as int].0@ == key@);
                    assert(lookup(rest, key@) == Some(m@[i as int].1));
                    let found = &m[i].1;
                    assert(*found == m@[i as int].1);
                    return Some(found);
                }
                assert(rest.drop_first() =~= m@.subrange(i + 1, m@.len() as int));
                i = i + 1;
            }
            None
        },
        _ => None,
    }
}

proof fn lemma_subrange_all<T>(s: Seq<T>)
    ensures
        s.subrange(0, s.len() as int) == s,
{
    assert(s.subrange(0, s.len() as int) =~= s);
}

/// The member of the first of `keys` that the object has.
fn get_first<'a>(v: &'a JsonValue, keys: &Vec<&str>) -> (r: Option<&'a JsonValue>)
    ensures
        match r {
            Some(x) => first_member(*v, keys@.map_values(|k: &str| k@)) == Some(*x),
            None => first_member(*v, keys@.map_values(|k: &str| k@)) is None,
        },
{
    let ghost kv = keys@.map_values(|k: &str| k@);
    let mut i: usize = 0;
    proof {
        lemma_subrange_all(kv);
    }
    while i < keys.len()
        invariant
            i <= keys@.len(),
            kv == keys@.map_values(|k: &str| k@),
            first_member(*v, kv.subrange(i as int, kv.len() as int)) == first_member(*v, kv),
        decreases keys@.len() - i,
    {
        let ghost rest = kv.subrange(i as int, kv.len() as int);
        assert(rest[0] == keys@[i as int]@);
        match get(v, keys[i]) {
            Some(x) => {
                return Some(x);
            },
            None => {},
        }
        assert(rest.drop_first() =~= kv.subrange(i + 1, kv.len() as int));
        i = i + 1;
    }
    None
}

fn str_value(v: Option<&JsonValue>) -> (r: Option<String>)
    ensures
        opt_view(r) == str_of(
            match v {
                Some(x) => Some(*x),
                None => None,
            },
        ),
{
    match v {
        Some(JsonValue::Str(s)) => Some(s.clone()),
        _ => None,
    }
}

fn number_value(v: Option<&JsonValue>) -> (r: Option<Decimal>)
    ensures
        r == number_of(
            match v {
                Some(x) => Some(*x),
                None => None,
            },
        ),
{
    match v {
        Some(JsonValue::Number(n)) => {
            let c = chars_of(n.as_str());
            proof {
                lemma_subrange_all(c@);
            }
            parse_number(&c, 0, c.len())
        },
        _ => None,
    }
}

fn optional_number_value(v: Option<&JsonValue>) -> (r: Option<Option<Decimal>>)
    ensures
        r == optional_number(
            match v {
                Some(x) => Some(*x),
                None => None,
            },
        ),
{
    match v {
        None => Some(None),
        Some(JsonValue::Null) => Some(None),
        Some(x) => match number_value(Some(x)) {
            Some(d) => Some(Some(d)),
            None => None,
        },
    }
}

fn optional_str_value(v: Option<&JsonValue>) -> (r: Option<Option<String>>)
    ensures
        match r {
            Some(o) => optional_str(
                match v {
                    Some(x) => Some(*x),
                    None => None,
                },
            ) == Some(opt_view(o)),
            None => optional_str(
                match v {
                    Some(x) => Some(*x),
                    None => None,
                },
            ) is None,
        },
{
    match v {
        None => Some(None),
        Some(JsonValue::Null) => Some(None),
        Some(JsonValue::Str(s)) => Some(Some(s.clone())),
        _ => None,
    }
}

/// The reading of an item under the usual field names.
pub fn aliased_reading_of(v: &JsonValue) -> (r: Option<TemperatureReading>)
    ensures
        match r {
            Some(x) => aliased_reading(*v) == Some(x@),
            None => aliased_reading(*v) is None,
        },
{
    let ts_keys: Vec<&str> = vec!["timestamp", "time", "date"];
    assert(ts_keys@.map_values(|k: &str| k@) =~= seq!["timestamp"@, "time"@, "date"@]);
    let temp_keys: Vec<&str> = vec!["temperature", "temp"];
    assert(temp_keys@.map_values(|k: &str| k@) =~= seq!["temperature"@, "temp"@]);
    let ts = str_value(get_first(v, &ts_keys));
    let t = number_value(get_first(v, &temp_keys));
    match (ts, t) {
        (Some(s), Some(temperature)) => match parse_timestamp(s.as_str()) {
            Some(timestamp) => {
                let id_keys: Vec<&str> = vec!["sensor_id", "sensor", "device_id"];
                assert(id_keys@.map_values(|k: &str| k@) =~= seq![
                    "sensor_id"@,
                    "sensor"@,
                    "device_id"@,
                ]);
                let hum_keys: Vec<&str> = vec!["humidity", "hum"];
                assert(hum_keys@.map_values(|k: &str| k@) =~= seq!["humidity"@, "hum"@]);
                let loc_keys: Vec<&str> = vec!["location", "room"];
                assert(loc_keys@.map_values(|k: &str| k@) =~= seq!["location"@, "room"@]);
                let sensor_id = match str_value(get_first(v, &id_keys)) {
                    Some(id) => id,
                    None => String::from_str("unknown"),
                };
                Some(
                    TemperatureReading {
                        sensor_id,
                        timestamp,
                        temperature,
                        humidity: number_value(get_first(v, &hum_keys)),
                        location: str_value(get_first(v, &loc_keys)),
                    },
                )
            },
            None => None,
        },
        _ => None,
    }
}

/// The reading of an item written with the reading's own field names.
pub fn exact_reading_of(v: &JsonValue) -> (r: Option<TemperatureReading>)
    ensures
        match r {
            Some(x) => exact_reading(*v) == Some(x@),
            None => exact_reading(*v) is None,
        },
{
    match v {
        JsonValue::Object(_) => {},
        _ => {
            return None;
        },
    }
    let id = str_value(get(v, "sensor_id"));
    let ts = str_value(get(v, "timestamp"));
    let t = number_value(get(v, "temperature"));
    let h = optional_number_value(get(v, "humidity"));
    let l = optional_str_value(get(v, "location"));
    match (id, ts, t, h, l) {
        (Some(sensor_id), Some(ts), Some(temperature), Some(humidity), Some(location)) => {
            match parse_utc(ts.as_str()) {
                Some(timestamp) => Some(
                    TemperatureReading { sensor_id, timestamp, temperature, humidity, location },
                ),
                None => None,
            }
        },
        _ => None,
    }
}

/// The readings of a JSON document: an array of complete readings as it
/// stands; otherwise the items of its `data` array, else of its `readings`
/// array, under the usual field names, the items that lack a required field
/// being skipped; otherwise none.
pub fn readings_from_json(doc: &JsonValue) -> (r: Vec<TemperatureReading>)
    ensures
        reading_views(r@) == json_readings(*doc),
{
    if let JsonValue::Array(items) = doc {
        if let Some(all) = exact_readings_of(items) {
            return all;
        }
    }
    match get(doc, "data") {
        Some(JsonValue::Array(items)) => {
            return aliased_readings_of(items);
        },
        _ => {},
    }
    match get(doc, "readings") {
        Some(JsonValue::Array(items)) => aliased_readings_of(items),
        _ => Vec::new(),
    }
}

fn exact_readings_of(items: &Vec<JsonValue>) -> (r: Option<Vec<TemperatureReading>>)
    ensures
        match r {
            Some(v) => exact_readings(items@, 0) == Some(reading_views(v@)),
            None => exact_readings(items@, 0) is None,
        },
{
    let mut found: Vec<TemperatureReading> = Vec::new();
    let mut i: usize = 0;
    while i < items.len()
        invariant
            i <= items@.len(),
            exact_readings(items@, 0) == match exact_readings(items@, i as int) {
                Some(rest) => Some(reading_views(found@) + rest),
                None => None,
            },
        decreases items@.len() - i,
    {
        match exact_reading_of(&items[i]) {
            None => {
                return None;
            },
            Some(x) => {
                let ghost before = found@;
                found.push(x);
                proof {
                    assert(reading_views(found@) =~= reading_views(before).push(x@));
                    match exact_readings(items@, i + 1) {
                        Some(rest) => {
                            assert(reading_views(before) + (seq![x@] + rest) =~= reading_views(
                                found@,
                            ) + rest);
                        },
                        None => {},
                    }
                }
            },
        }
        i = i + 1;
    }
    assert(reading_views(found@) + Seq::<ReadingView>::empty() =~= reading_views(found@));
    Some(found)
}

fn aliased_readings_of(items: &Vec<JsonValue>) -> (r: Vec<TemperatureReading>)
    ensures
        reading_views(r@) == aliased_readings(items@, 0),
{
    let mut found: Vec<TemperatureReading> = Vec::new();
    let mut i: usize = 0;
    while i < items.len()
        invariant
            i <= items@.len(),
            reading_views(found@) + aliased_readings(items@, i as int) == aliased_readings(
                items@,
                0,
            ),
        decreases items@.len() - i,
    {
        let ghost before = found@;
        match aliased_reading_of(&items[i]) {
            Some(x) => {
                found.push(x);
                assert(reading_views(found@) =~= reading_views(before).push(x@));
                assert(reading_views(before) + (seq![x@] + aliased_readings(items@, i + 1))
                    =~= reading_views(found@) + aliased_readings(items@, i + 1));
            },
            None => {},
        }
        i = i + 1;
    }
    assert(reading_views(found@) + Seq::<ReadingView>::empty() =~= reading_views(found@));
    found
}

} // verus!
