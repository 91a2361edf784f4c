use vstd::prelude::*;
use crate::decode::{parse_locations, parse_sensor_data, spec_parse_locations, spec_parse_sensor_data};
use crate::records::{
    Location, LocationMinMax, LocationMinMaxView, LocationView, locations_view, RawSensorData, WeeklyStats, WeeklyStatsView,
    summaries_view,
};
use crate::stats::{aggregate, spec_aggregate, spec_summarize, summarize};

verus! {

/// Address of the location directory under a source root.
pub open spec fn spec_directory_url(base_url: Seq<char>) -> Seq<char> {
    base_url + "/map/data.json"@
}

/// Address of a location's weekly series under a source root.
pub open spec fn spec_series_url(base_url: Seq<char>, path: Seq<char>) -> Seq<char> {
    base_url + path + "/graph_data.json?type=pm&range=week&ma_h=24"@
}

pub fn directory_url(base_url: &str) -> (r: String)
    ensures
        r@ == spec_directory_url(base_url@),
{
    base_url.to_owned().concat("/map/data.json")
}

pub fn series_url(base_url: &str, location: &Location) -> (r: String)
    ensures
        r@ == spec_series_url(base_url@, location.path@),
{
    let r = base_url.to_owned().concat(location.path.as_str()).concat(
        "/graph_data.json?type=pm&range=week&ma_h=24",
    );
    assert(r@ =~= spec_series_url(base_url@, location.path@));
    r
}

/// One series fetch to issue: where, and under which display name its
/// payload is reported.
#[derive(Clone, Debug, PartialEq, Eq)]
pub struct SeriesRequest {
    pub url: String,
    pub name: String,
}

pub ghost struct SeriesRequestView {
    pub url: Seq<char>,
    pub name: Seq<char>,
}

impl View for SeriesRequest {
    type V = SeriesRequestView;

    open spec fn view(&self) -> SeriesRequestView {
        SeriesRequestView { url: self.url@, name: self.name@ }
    }
}

/// The fetches for the given locations, one each, in directory order.
pub open spec fn spec_requests(base_url: Seq<char>, locations: Seq<LocationView>) -> Seq<
    SeriesRequestView,
> {
    locations.map_values(
        |l: LocationView| SeriesRequestView { url: spec_series_url(base_url, l.path), name: l.description },
    )
}

/// The fetches that a directory text calls for: none when it does not decode
/// or lists no location.
pub open spec fn spec_plan(base_url: Seq<char>, directory_text: Seq<char>) -> Seq<SeriesRequestView> {
    spec_requests(base_url, spec_parse_locations(directory_text))
}

/// Decodes the directory text and lists the series fetches it calls for.
pub fn plan_series_fetches(base_url: &str, directory_text: &str) -> (r: Vec<SeriesRequest>)
    ensures
        r@.map_values(|q: SeriesRequest| q@) == spec_plan(base_url@, directory_text@),
{
    let locations = parse_locations(directory_text);
    let mut out: Vec<SeriesRequest> = Vec::new();
    let mut i: usize = 0;
    while i < locations.len()
        invariant
            i <= locations.len(),
            out@.map_values(|q: SeriesRequest| q@) == spec_requests(
                base_url@,
                locations_view(locations@).take(i as int),
            ),
        decreases locations.len() - i,
    {
        let ghost before = out@;
        let request = SeriesRequest {
            url: series_url(base_url, &locations[i]),
            name: locations[i].description.clone(),
        };
        let ghost rv = request@;
        out.push(request);
        assert(out@.map_values(|q: SeriesRequest| q@) =~= before.map_values(|q: SeriesRequest| q@).push(rv));
        assert(locations_view(locations@).take(i + 1) =~= locations_view(
            locations@,
        ).take(i as int).push(locations@[i as int]@));
        assert(out@.map_values(|q: SeriesRequest| q@) =~= spec_requests(
            base_url@,
            locations_view(locations@).take(i + 1),
        ));
        i = i + 1;
    }
    assert(locations_view(locations@).take(locations.len() as int)
        =~= locations_view(locations@));
    out
}

/// The summaries of the payloads that decode to non-empty data, in payload
/// order.
pub open spec fn spec_summaries(raws: Seq<RawSensorData>) -> Seq<LocationMinMaxView>
    decreases raws.len(),
{
    if raws.len() == 0 {
        Seq::empty()
    } else {
        let rest = spec_summaries(raws.drop_last());
        match spec_summarize(spec_parse_sensor_data(raws.last().json@), raws.last().name@) {
            Some(s) => rest.push(s),
            None => rest,
        }
    }
}

/// The weekly result over the fetched payloads.
pub open spec fn spec_weekly_stats(raws: Seq<RawSensorData>) -> WeeklyStatsView {
    spec_aggregate(spec_summaries(raws))
}

/// Decodes each payload, summarizes those that decode to non-empty data, and
/// aggregates the summaries.
pub fn get_weekly_stats(raws: &Vec<RawSensorData>) -> (r: WeeklyStats)
    ensures
        r@ == spec_weekly_stats(raws@),
{
    let mut summaries: Vec<LocationMinMax> = Vec::new();
    let mut i: usize = 0;
    while i < raws.len()
        invariant
            i <= raws.len(),
            summaries_view(summaries@) == spec_summaries(raws@.take(i as int)),
        decreases raws.len() - i,
    {
        let ghost before = summaries@;
        assert(raws@.take(i + 1).drop_last() =~= raws@.take(i as int));
        assert(raws@.take(i + 1).last() == raws@[i as int]);
        let data = parse_sensor_data(raws[i].json.as_str());
        match summarize(&data, raws[i].name.as_str()) {
            Some(s) => {
                let ghost sv = s@;
                summaries.push(s);
                assert(summaries_view(summaries@) =~= summaries_view(before).push(sv));
            },
            None => {},
        }
        i = i + 1;
    }
    assert(raws@.take(raws.len() as int) =~= raws@);
    aggregate(summaries)
}

/// A directory that decodes to no location calls for no series fetch, and
/// the weekly result over no payload is the empty result.
pub proof fn lemma_empty_directory(base_url: Seq<char>, directory_text: Seq<char>)
    requires
        spec_parse_locations(directory_text).len() == 0,
    ensures
        spec_plan(base_url, directory_text).len() == 0,
        spec_weekly_stats(Seq::empty()) == WeeklyStatsView::empty(),
{
}

} // verus!
