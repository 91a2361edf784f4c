use air_stats::pipeline::{get_weekly_stats, plan_series_fetches, SeriesRequest};
use air_stats::records::{RawSensorData, WeeklyStats};
use air_stats::reading::Reading;

const BASE: &str = "http://127.0.0.1:1234";

fn as_single(r: Reading) -> f32 {
    f64::from_bits(r.bits) as f32
}

fn fetched(requests: &[SeriesRequest], bodies: &[&str]) -> Vec<RawSensorData> {
    requests
        .iter()
        .zip(bodies.iter())
        .map(|(q, b)| RawSensorData { name: q.name.clone(), json: b.to_string() })
        .collect()
}

#[test]
fn get_weekly_stats_when_valid_data_is_fetched_then_returns_result() {
    let requests = plan_series_fetches(BASE, r#"[{"description": "foobar", "path": "/foo/bar"}]"#);
    assert_eq!(requests.len(), 1);
    assert_eq!(
        requests[0].url,
        format!("{}/foo/bar/graph_data.json?type=pm&range=week&ma_h=24", BASE)
    );
    let raws = fetched(
        &requests,
        &[r#"{"start": 1, "end": 2, "data":{"pm10":{"1": 10.5, "2": 14.5}, "pm25":{"1": 13.2, "2": 3.4}}}"#],
    );

    let result = get_weekly_stats(&raws);

    assert_eq!(result.start, 1);
    assert_eq!(result.end, 2);
    assert_eq!(result.locations.len(), 1);

    let first_location = result.locations.first().unwrap();
    assert_eq!(first_location.name, String::from("foobar"));
    assert_eq!(first_location.start_date, 1);
    assert_eq!(first_location.end_date, 2);
    assert_eq!(as_single(first_location.pm10.min), 10.5);
    assert_eq!(as_single(first_location.pm10.max), 14.5);
    assert_eq!(as_single(first_location.pm25.min), 3.4);
    assert_eq!(as_single(first_location.pm25.max), 13.2);
}

#[test]
fn get_weekly_stats_when_invalid_map_data_is_fetched_then_returns_empty_result() {
    let requests = plan_series_fetches(BASE, r#"[{"description": "foobar"}]"#);
    assert!(requests.is_empty());

    let result = get_weekly_stats(&fetched(&requests, &[]));

    assert_eq!(result, WeeklyStats::default());
}

#[test]
fn get_weekly_stats_when_invalid_graph_data_is_fetched_then_returns_empty_result() {
    let requests = plan_series_fetches(BASE, r#"[{"description": "foobar", "path": "/foo/bar"}]"#);
    assert_eq!(requests.len(), 1);
    let raws = fetched(&requests, &[r#"{"start": 1}"#]);

    let result = get_weekly_stats(&raws);

    assert_eq!(result, WeeklyStats::default());
}

#[test]
fn empty_directory_plans_nothing_and_gives_default() {
    let requests = plan_series_fetches(BASE, "[]");
    assert!(requests.is_empty());
    assert_eq!(get_weekly_stats(&Vec::new()), WeeklyStats::default());
}

#[test]
fn unreadable_directory_plans_nothing() {
    assert!(plan_series_fetches(BASE, "").is_empty());
    assert!(plan_series_fetches(BASE, "{\"path\": \"/a\", \"description\": \"a\"}").is_empty());
    assert!(plan_series_fetches(BASE, "[{\"path\": 5, \"description\": \"a\"}]").is_empty());
}

#[test]
fn directory_keeps_order_and_accepts_positional_entries() {
    let requests = plan_series_fetches(
        "b",
        r#"[{"path": "/x", "description": "X", "extra": [1, 2]}, ["/y", "Y"]]"#,
    );
    assert_eq!(
        requests,
        vec![
            SeriesRequest {
                url: "b/x/graph_data.json?type=pm&range=week&ma_h=24".to_string(),
                name: "X".to_string()
            },
            SeriesRequest {
                url: "b/y/graph_data.json?type=pm&range=week&ma_h=24".to_string(),
                name: "Y".to_string()
            },
        ]
    );
}

#[test]
fn weekly_stats_skip_bad_payloads_and_take_extremes() {
    let raws = vec![
        RawSensorData {
            name: "a".to_string(),
            json: r#"{"start": 10, "end": 20, "data": {"pm10": {}, "pm25": {"3": null}}}"#.to_string(),
        },
        RawSensorData { name: "bad".to_string(), json: "not json".to_string() },
        RawSensorData {
            name: "b".to_string(),
            json: r#"{"start": 5, "end": 15, "data": {"pm10": {"1": 2}, "pm25": {}}}"#.to_string(),
        },
    ];
    let result = get_weekly_stats(&raws);
    assert_eq!(result.start, 5);
    assert_eq!(result.end, 20);
    assert_eq!(result.locations.len(), 2);
    assert_eq!(result.locations[0].name, "a");
    assert_eq!(result.locations[1].name, "b");
    assert_eq!(result.locations[0].pm25.min, Reading::from_bits(0));
    assert_eq!(as_single(result.locations[1].pm10.max), 2.0);
}

#[test]
fn all_zero_payload_counts_as_failed_decode() {
    let raws = vec![RawSensorData {
        name: "z".to_string(),
        json: r#"{"start": 0, "end": 0, "data": {"pm10": {}, "pm25": {}}}"#.to_string(),
    }];
    assert_eq!(get_weekly_stats(&raws), WeeklyStats::default());
}
