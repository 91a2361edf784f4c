use air_stats::reading::Reading;
use air_stats::records::{
    LocationMinMax, MeasurementMinMax, ParticlesData, SensorData, SeriesEntry, WeeklyStats,
};
use air_stats::stats::{aggregate, get_max, get_min, reduce_range, summarize};

fn r(x: f64) -> Reading {
    Reading::from_bits(x.to_bits())
}

fn summary(name: &str, start: u32, end: u32) -> LocationMinMax {
    LocationMinMax {
        name: name.to_string(),
        start_date: start,
        end_date: end,
        pm25: MeasurementMinMax::default(),
        pm10: MeasurementMinMax::default(),
    }
}

#[test]
fn range_ignores_absent_readings() {
    let s: Vec<SeriesEntry> = vec![(1, None), (2, Some(r(3.5))), (3, None), (4, Some(r(-1.25))), (5, Some(r(7.0)))];
    assert_eq!(get_min(&s), r(-1.25));
    assert_eq!(get_max(&s), r(7.0));
    let m = reduce_range(&s);
    assert_eq!(m, MeasurementMinMax { min: r(-1.25), max: r(7.0) });
}

#[test]
fn range_of_no_reading_is_zero() {
    let s: Vec<SeriesEntry> = vec![(1, None)];
    assert_eq!(reduce_range(&s), MeasurementMinMax::default());
    assert_eq!(reduce_range(&Vec::new()), MeasurementMinMax { min: r(0.0), max: r(0.0) });
}

#[test]
fn range_single_reading() {
    let s: Vec<SeriesEntry> = vec![(9, Some(r(4.0)))];
    assert_eq!(reduce_range(&s), MeasurementMinMax { min: r(4.0), max: r(4.0) });
}

#[test]
fn range_ties_keep_first_minimum_and_last_maximum() {
    let s: Vec<SeriesEntry> = vec![(1, Some(r(0.0))), (2, Some(r(-0.0)))];
    assert_eq!(get_min(&s), r(0.0));
    assert_eq!(get_max(&s), r(-0.0));
}

#[test]
fn range_orders_negatives_and_infinities() {
    let s: Vec<SeriesEntry> = vec![
        (1, Some(r(-2.0))),
        (2, Some(r(f64::INFINITY))),
        (3, Some(r(-3.0))),
        (4, Some(r(f64::NEG_INFINITY))),
    ];
    assert_eq!(get_min(&s), r(f64::NEG_INFINITY));
    assert_eq!(get_max(&s), r(f64::INFINITY));
}

#[test]
fn nan_compares_as_tie() {
    let nan = r(f64::NAN);
    assert!(nan.is_nan_value());
    assert!(!nan.greater_than(&r(1.0)));
    assert!(!r(1.0).greater_than(&nan));
    assert!(r(1.0).greater_than(&r(-1.0)));
    assert!(!r(0.0).greater_than(&r(-0.0)));
    let s: Vec<SeriesEntry> = vec![(1, Some(r(2.0))), (2, Some(nan)), (3, Some(r(1.0)))];
    assert_eq!(get_min(&s), r(1.0));
}

#[test]
fn summarize_default_gives_nothing() {
    assert!(summarize(&SensorData::default(), "x").is_none());
}

#[test]
fn summarize_carries_dates() {
    let data = SensorData {
        start: 7,
        end: 9,
        data: ParticlesData { pm10: vec![(1, Some(r(1.0))), (2, Some(r(5.0)))], pm25: vec![(1, Some(r(3.0)))] },
    };
    let s = summarize(&data, "here").unwrap();
    assert_eq!(s.name, "here");
    assert_eq!(s.start_date, 7);
    assert_eq!(s.end_date, 9);
    assert_eq!(s.pm10, MeasurementMinMax { min: r(1.0), max: r(5.0) });
    assert_eq!(s.pm25, MeasurementMinMax { min: r(3.0), max: r(3.0) });
}

#[test]
fn summarize_zero_dates_with_data_is_kept() {
    let data = SensorData {
        start: 0,
        end: 0,
        data: ParticlesData { pm10: vec![(1, None)], pm25: vec![] },
    };
    let s = summarize(&data, "n").unwrap();
    assert_eq!(s.pm10, MeasurementMinMax::default());
}

#[test]
fn aggregate_empty_is_default() {
    assert_eq!(aggregate(Vec::new()), WeeklyStats::default());
}

#[test]
fn aggregate_extremes_do_not_depend_on_order() {
    let a = aggregate(vec![summary("a", 5, 10), summary("b", 3, 8), summary("c", 4, 12)]);
    let b = aggregate(vec![summary("c", 4, 12), summary("a", 5, 10), summary("b", 3, 8)]);
    assert_eq!((a.start, a.end), (3, 12));
    assert_eq!((b.start, b.end), (3, 12));
    let names: Vec<&str> = a.locations.iter().map(|l| l.name.as_str()).collect();
    assert_eq!(names, vec!["a", "b", "c"]);
}
