use homemetrics::decimal::Decimal;
use homemetrics::json::{readings_from_json, JsonValue};
use homemetrics::timestamp::Timestamp;

fn s(x: &str) -> JsonValue {
    JsonValue::Str(x.to_string())
}

fn n(x: &str) -> JsonValue {
    JsonValue::Number(x.to_string())
}

fn obj(members: Vec<(&str, JsonValue)>) -> JsonValue {
    JsonValue::Object(members.into_iter().map(|(k, v)| (k.to_string(), v)).collect())
}

#[test]
fn json_array_of_complete_readings() {
    let doc = JsonValue::Array(vec![
        obj(vec![
            ("sensor_id", s("salon")),
            ("timestamp", s("2025-01-02T03:04:05Z")),
            ("temperature", n("21.5")),
            ("humidity", JsonValue::Null),
        ]),
        obj(vec![
            ("sensor_id", s("cave")),
            ("timestamp", s("2025-01-02 03:04:05+00:00")),
            ("temperature", n("12")),
            ("humidity", n("80.5")),
            ("location", s("sous-sol")),
        ]),
    ]);
    let r = readings_from_json(&doc);
    assert_eq!(r.len(), 2);
    assert_eq!(r[0].sensor_id, "salon");
    assert_eq!(r[0].timestamp, Timestamp { seconds: 1735787045, nanos: 0 });
    assert_eq!(r[0].temperature, Decimal { mantissa: 215, scale: 1 });
    assert_eq!(r[0].humidity, None);
    assert_eq!(r[1].humidity, Some(Decimal { mantissa: 805, scale: 1 }));
    assert_eq!(r[1].location.as_deref(), Some("sous-sol"));
}

#[test]
fn json_data_array_with_aliases() {
    let doc = obj(vec![(
        "data",
        JsonValue::Array(vec![
            obj(vec![("time", s("2025-01-02 03:04:05")), ("temp", n("19.0")), ("room", s("bureau"))]),
            obj(vec![("date", s("02/01/2025 03:04:05")), ("device_id", s("d1")), ("temperature", n("-2.5")), ("hum", n("60"))]),
            obj(vec![("time", s("2025-01-02 03:04:05"))]),
            obj(vec![("time", s("not a date")), ("temp", n("1.0"))]),
        ]),
    )]);
    let r = readings_from_json(&doc);
    assert_eq!(r.len(), 2);
    assert_eq!(r[0].sensor_id, "unknown");
    assert_eq!(r[0].location.as_deref(), Some("bureau"));
    assert_eq!(r[0].temperature, Decimal { mantissa: 190, scale: 1 });
    assert_eq!(r[1].sensor_id, "d1");
    assert_eq!(r[1].timestamp, Timestamp { seconds: 1735787045, nanos: 0 });
    assert_eq!(r[1].humidity, Some(Decimal { mantissa: 60, scale: 0 }));
}

#[test]
fn json_readings_array_and_fallbacks() {
    let item = obj(vec![("timestamp", s("2025-01-02T03:04:05")), ("temperature", n("20"))]);
    let doc = obj(vec![("data", s("none")), ("readings", JsonValue::Array(vec![item]))]);
    assert_eq!(readings_from_json(&doc).len(), 1);
    let doc = JsonValue::Array(vec![obj(vec![("temperature", n("20"))])]);
    assert_eq!(readings_from_json(&doc).len(), 0);
    assert_eq!(readings_from_json(&JsonValue::Bool(true)).len(), 0);
}

#[test]
fn json_numbers_with_exponents() {
    let item = |t: &str| obj(vec![("timestamp", s("2025-01-02T03:04:05")), ("temperature", n(t))]);
    let doc = obj(vec![("data", JsonValue::Array(vec![item("1e-7"), item("1.5E2"), item("-2.5e+1"), item("1e400")]))]);
    let r = readings_from_json(&doc);
    assert_eq!(r.len(), 3);
    assert_eq!(r[0].temperature, Decimal { mantissa: 1, scale: 7 });
    assert_eq!(r[1].temperature, Decimal { mantissa: 150, scale: 0 });
    assert_eq!(r[2].temperature, Decimal { mantissa: -25, scale: 0 });
}
