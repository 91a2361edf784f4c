use vstd::prelude::*;
use crate::reading::Reading;

verus! {

/// One member of a particle series: a time bucket and the reading for it,
/// absent when the provider reported none.
pub type SeriesEntry = (u32, Option<Reading>);

/// One monitored location of the directory.
#[derive(Clone, Debug, PartialEq, Eq)]
pub struct Location {
    /// Path fragment that the series address is built from.
    pub path: String,
    /// Display name of the location.
    pub description: String,
}

pub ghost struct LocationView {
    pub path: Seq<char>,
    pub description: Seq<char>,
}

impl View for Location {
    type V = LocationView;

    open spec fn view(&self) -> LocationView {
        LocationView { path: self.path@, description: self.description@ }
    }
}

/// The views of a sequence of locations.
pub open spec fn locations_view(s: Seq<Location>) -> Seq<LocationView> {
    s.map_values(|l: Location| l@)
}

/// The two particle series of one location, in the order the payload lists
/// their buckets.
#[derive(Clone, Debug, PartialEq)]
pub struct ParticlesData {
    pub pm10: Vec<SeriesEntry>,
    pub pm25: Vec<SeriesEntry>,
}

/// One location's weekly window as decoded from its payload.
#[derive(Clone, Debug, PartialEq)]
pub struct SensorData {
    pub start: u32,
    pub end: u32,
    pub data: ParticlesData,
}

pub ghost struct SensorDataView {
    pub start: u32,
    pub end: u32,
    pub pm10: Seq<SeriesEntry>,
    pub pm25: Seq<SeriesEntry>,
}

impl SensorDataView {
    /// The value that a failed decode yields.
    pub open spec fn empty() -> SensorDataView {
        SensorDataView { start: 0, end: 0, pm10: Seq::empty(), pm25: Seq::empty() }
    }
}

impl View for SensorData {
    type V = SensorDataView;

    open spec fn view(&self) -> SensorDataView {
        SensorDataView { start: self.start, end: self.end, pm10: self.data.pm10@, pm25: self.data.pm25@ }
    }
}

impl Default for ParticlesData {
    fn default() -> (r: ParticlesData)
        ensures
            r.pm10@.len() == 0,
            r.pm25@.len() == 0,
    {
        ParticlesData { pm10: Vec::new(), pm25: Vec::new() }
    }
}

impl Default for SensorData {
    fn default() -> (r: SensorData)
        ensures
            r@ == SensorDataView::empty(),
    {
        let data = ParticlesData { pm10: Vec::new(), pm25: Vec::new() };
        let r = SensorData { start: 0, end: 0, data };
        assert(r.data.pm10@ =~= Seq::<SeriesEntry>::empty());
        assert(r.data.pm25@ =~= Seq::<SeriesEntry>::empty());
        r
    }
}

impl SensorData {
    /// True exactly for the value that a failed decode yields.
    pub fn is_empty(&self) -> (r: bool)
        ensures
            r == (self@ == SensorDataView::empty()),
    {
        let r = self.start == 0 && self.end == 0 && self.data.pm10.len() == 0 && self.data.pm25.len() == 0;
        if r {
            assert(self.data.pm10@ =~= Seq::<SeriesEntry>::empty());
            assert(self.data.pm25@ =~= Seq::<SeriesEntry>::empty());
        }
        r
    }
}

/// Smallest and largest reading of one series.
#[derive(Clone, Copy, Debug, PartialEq, Eq, Structural)]
pub struct MeasurementMinMax {
    pub min: Reading,
    pub max: Reading,
}

impl Default for MeasurementMinMax {
    fn default() -> (r: MeasurementMinMax)
        ensures
            r.min.bits == 0,
            r.max.bits == 0,
    {
        MeasurementMinMax { min: Reading::zero(), max: Reading::zero() }
    }
}

/// One location's contribution to the weekly result.
#[derive(Clone, Debug, PartialEq)]
pub struct LocationMinMax {
    pub name: String,
    pub start_date: u32,
    pub end_date: u32,
    pub pm25: MeasurementMinMax,
    pub pm10: MeasurementMinMax,
}

pub ghost struct LocationMinMaxView {
    pub name: Seq<char>,
    pub start_date: u32,
    pub end_date: u32,
    pub pm25: MeasurementMinMax,
    pub pm10: MeasurementMinMax,
}

impl View for LocationMinMax {
    type V = LocationMinMaxView;

    open spec fn view(&self) -> LocationMinMaxView {
        LocationMinMaxView {
            name: self.name@,
            start_date: self.start_date,
            end_date: self.end_date,
            pm25: self.pm25,
            pm10: self.pm10,
        }
    }
}

/// The aggregate over all locations that contributed.
#[derive(Clone, Debug, PartialEq)]
pub struct WeeklyStats {
    pub start: u32,
    pub end: u32,
    pub locations: Vec<LocationMinMax>,
}

pub ghost struct WeeklyStatsView {
    pub start: u32,
    pub end: u32,
    pub locations: Seq<LocationMinMaxView>,
}

impl WeeklyStatsView {
    /// The result when no location contributed.
    pub open spec fn empty() -> WeeklyStatsView {
        WeeklyStatsView { start: 0, end: 0, locations: Seq::empty() }
    }
}

/// The views of a sequence of location summaries.
pub open spec fn summaries_view(s: Seq<LocationMinMax>) -> Seq<LocationMinMaxView> {
    s.map_values(|l: LocationMinMax| l@)
}

impl View for WeeklyStats {
    type V = WeeklyStatsView;

    open spec fn view(&self) -> WeeklyStatsView {
        WeeklyStatsView { start: self.start, end: self.end, locations: summaries_view(self.locations@) }
    }
}

impl Default for WeeklyStats {
    fn default() -> (r: WeeklyStats)
        ensures
            r@ == WeeklyStatsView::empty(),
    {
        let r = WeeklyStats { start: 0, end: 0, locations: Vec::new() };
        assert(summaries_view(r.locations@) =~= Seq::<LocationMinMaxView>::empty());
        r
    }
}

/// A location's fetched payload, paired with its display name.
#[derive(Clone, Debug, PartialEq, Eq)]
pub struct RawSensorData {
    pub name: String,
    pub json: String,
}

} // verus!
