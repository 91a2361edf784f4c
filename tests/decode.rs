use air_stats::decode::{
    decode_key, decode_location, decode_locations, decode_sensor_data, parse_locations,
    parse_sensor_data,
};
use air_stats::json::{Json, JsonNumber};
use air_stats::reading::Reading;
use air_stats::records::{Location, SensorData};

fn r(x: f64) -> Reading {
    Reading::from_bits(x.to_bits())
}

fn num(u: u64) -> Json {
    Json::Number(JsonNumber { unsigned: Some(u), real: Some(r(u as f64)) })
}

fn text(s: &str) -> Json {
    Json::Text(s.to_string())
}

fn obj(members: Vec<(&str, Json)>) -> Json {
    Json::Object(members.into_iter().map(|(k, v)| (k.to_string(), v)).collect())
}

#[test]
fn keys_are_plain_decimal_u32() {
    assert_eq!(decode_key("0"), Some(0));
    assert_eq!(decode_key("17"), Some(17));
    assert_eq!(decode_key("4294967295"), Some(u32::MAX));
    assert_eq!(decode_key("4294967296"), None);
    assert_eq!(decode_key("99999999999999999999"), None);
    assert_eq!(decode_key("01"), None);
    assert_eq!(decode_key(""), None);
    assert_eq!(decode_key("1a"), None);
    assert_eq!(decode_key("-1"), None);
}

#[test]
fn sensor_data_from_tree() {
    let tree = obj(vec![
        ("data", obj(vec![
            ("pm10", obj(vec![("1", num(3)), ("2", Json::Null)])),
            ("pm25", obj(vec![])),
        ])),
        ("end", num(2)),
        ("start", num(1)),
        ("other", Json::Bool(true)),
    ]);
    let d = decode_sensor_data(&tree).unwrap();
    assert_eq!((d.start, d.end), (1, 2));
    assert_eq!(d.data.pm10, vec![(1, Some(r(3.0))), (2, None)]);
    assert!(d.data.pm25.is_empty());
}

#[test]
fn sensor_data_rejects_wrong_types() {
    let big = obj(vec![
        ("start", num(u64::from(u32::MAX) + 1)),
        ("end", num(2)),
        ("data", obj(vec![("pm10", obj(vec![])), ("pm25", obj(vec![]))])),
    ]);
    assert!(decode_sensor_data(&big).is_none());
    let bad_reading = obj(vec![
        ("start", num(1)),
        ("end", num(2)),
        ("data", obj(vec![("pm10", obj(vec![("1", text("3"))])), ("pm25", obj(vec![]))])),
    ]);
    assert!(decode_sensor_data(&bad_reading).is_none());
    assert!(decode_sensor_data(&Json::Null).is_none());
}

#[test]
fn location_from_object_or_array() {
    let a = decode_location(&obj(vec![("path", text("/p")), ("description", text("d"))])).unwrap();
    assert_eq!(a, Location { path: "/p".to_string(), description: "d".to_string() });
    let b = decode_location(&Json::Array(vec![text("/q"), text("e")])).unwrap();
    assert_eq!(b, Location { path: "/q".to_string(), description: "e".to_string() });
    assert!(decode_location(&Json::Array(vec![text("/q")])).is_none());
    assert!(decode_location(&obj(vec![("description", text("d"))])).is_none());
    assert!(decode_locations(&obj(vec![])).is_none());
    assert_eq!(decode_locations(&Json::Array(vec![])), Some(vec![]));
}

#[test]
fn parse_text_payloads() {
    let d = parse_sensor_data(r#"{"start": 3, "end": 4, "data": {"pm10": {"10": 1.5}, "pm25": {"11": null}}}"#);
    assert_eq!((d.start, d.end), (3, 4));
    assert_eq!(d.data.pm10, vec![(10, Some(r(1.5)))]);
    assert_eq!(d.data.pm25, vec![(11, None)]);
    assert_eq!(parse_sensor_data(r#"{"start": 1.0, "end": 4, "data": {"pm10": {}, "pm25": {}}}"#), SensorData::default());
    assert_eq!(parse_sensor_data(r#"{"start": 1, "end": 4, "data": {"pm10": {"01": 2}, "pm25": {}}}"#), SensorData::default());
    assert_eq!(parse_sensor_data("{"), SensorData::default());
    assert_eq!(parse_locations(r#"[{"path": "/a", "description": "A"}]"#).len(), 1);
    assert!(parse_locations("[1]").is_empty());
}
