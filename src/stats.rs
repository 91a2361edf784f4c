use vstd::prelude::*;
use crate::reading::Reading;
use crate::records::{
    LocationMinMax, LocationMinMaxView, MeasurementMinMax, SensorData, SensorDataView,
    SeriesEntry, WeeklyStats, WeeklyStatsView, summaries_view,
};

verus! {

/// The readings of a series that are present, in series order.
pub open spec fn present(s: Seq<SeriesEntry>) -> Seq<Reading>
    decreases s.len(),
{
    if s.len() == 0 {
        Seq::empty()
    } else {
        let rest = present(s.drop_last());
        match s.last().1 {
            Some(r) => rest.push(r),
            None => rest,
        }
    }
}

/// No reading of the sequence is a NaN.
pub open spec fn no_nan(v: Seq<Reading>) -> bool {
    forall|i: int| 0 <= i < v.len() ==> !(#[trigger] v[i]).is_nan()
}

/// The minimum in sequence order: a later reading replaces the one kept only
/// when it compares strictly smaller (a NaN compares as a tie); 0.0 when
/// there is none.
pub open spec fn fold_min(v: Seq<Reading>) -> Reading
    decreases v.len(),
{
    if v.len() == 0 {
        Reading { bits: 0 }
    } else if v.len() == 1 {
        v[0]
    } else {
        let acc = fold_min(v.drop_last());
        if acc.spec_greater(v.last()) {
            v.last()
        } else {
            acc
        }
    }
}

/// The maximum in sequence order: a later reading replaces the one kept
/// unless the kept one compares strictly greater (a NaN compares as a tie);
/// 0.0 when there is none.
pub open spec fn fold_max(v: Seq<Reading>) -> Reading
    decreases v.len(),
{
    if v.len() == 0 {
        Reading { bits: 0 }
    } else if v.len() == 1 {
        v[0]
    } else {
        let acc = fold_max(v.drop_last());
        if acc.spec_greater(v.last()) {
            acc
        } else {
            v.last()
        }
    }
}

/// Both extremes are readings of the sequence; without NaNs they bound it.
pub proof fn lemma_fold_bounds(v: Seq<Reading>)
    requires
        v.len() > 0,
    ensures
        v.contains(fold_min(v)),
        v.contains(fold_max(v)),
        no_nan(v) ==> forall|i: int|
            0 <= i < v.len() ==> fold_min(v).key() <= (#[trigger] v[i]).key() && v[i].key()
                <= fold_max(v).key(),
    decreases v.len(),
{
    if v.len() == 1 {
        assert(v[0] == v[0]);
    } else {
        let w = v.drop_last();
        lemma_fold_bounds(w);
        let k = choose|k: int| 0 <= k < w.len() && w[k] == fold_min(w);
        assert(v[k] == w[k]);
        let m = choose|m: int| 0 <= m < w.len() && w[m] == fold_max(w);
        assert(v[m] == w[m]);
        assert(v[v.len() - 1] == v.last());
        if no_nan(v) {
            assert forall|i: int| 0 <= i < w.len() implies !(#[trigger] w[i]).is_nan() by {
                assert(w[i] == v[i]);
            }
            assert forall|i: int| 0 <= i < v.len() implies fold_min(v).key() <= (
            #[trigger] v[i]).key() && v[i].key() <= fold_max(v).key() by {
                if i < w.len() {
                    assert(w[i] == v[i]);
                }
            }
        }
    }
}

/// A range's minimum does not exceed its maximum, and both are present
/// readings: entries without a reading play no part.
pub proof fn lemma_range_ordered(s: Seq<SeriesEntry>)
    requires
        present(s).len() > 0,
        no_nan(present(s)),
    ensures
        spec_range(s).min.key() <= spec_range(s).max.key(),
        present(s).contains(spec_range(s).min),
        present(s).contains(spec_range(s).max),
{
    lemma_fold_bounds(present(s));
    assert(present(s)[0] == present(s)[0]);
}

/// The present readings of a prefix one entry longer.
proof fn lemma_present_step(s: Seq<SeriesEntry>, i: int)
    requires
        0 <= i < s.len(),
    ensures
        present(s.take(i + 1)) == match s[i].1 {
            Some(r) => present(s.take(i)).push(r),
            None => present(s.take(i)),
        },
{
    assert(s.take(i + 1).drop_last() =~= s.take(i));
    assert(s.take(i + 1).last() == s[i]);
}

/// Smallest present reading of the series, 0.0 when none is present.
pub fn get_min(series: &Vec<SeriesEntry>) -> (r: Reading)
    ensures
        r == fold_min(present(series@)),
        present(series@).len() == 0 ==> r.bits == 0,
        present(series@).len() > 0 ==> present(series@).contains(r),
        no_nan(present(series@)) ==> forall|i: int|
            0 <= i < present(series@).len() ==> r.key() <= (#[trigger] present(series@)[i]).key(),
{
    let mut acc: Option<Reading> = None;
    let mut i: usize = 0;
    while i < series.len()
        invariant
            i <= series.len(),
            acc == (if present(series@.take(i as int)).len() == 0 {
                None::<Reading>
            } else {
                Some(fold_min(present(series@.take(i as int))))
            }),
        decreases series.len() - i,
    {
        proof {
            lemma_present_step(series@, i as int);
        }
        if let Some(v) = series[i].1 {
            let ghost p = present(series@.take(i as int));
            assert(p.push(v).drop_last() =~= p);
            assert(p.push(v).last() == v);
            acc = match acc {
                None => Some(v),
                Some(a) => if a.greater_than(&v) {
                    Some(v)
                } else {
                    Some(a)
                },
            };
        }
        i = i + 1;
    }
    assert(series@.take(series.len() as int) =~= series@);
    proof {
        if present(series@).len() > 0 {
            lemma_fold_bounds(present(series@));
        }
    }
    match acc {
        Some(a) => a,
        None => Reading::zero(),
    }
}

/// Largest present reading of the series, 0.0 when none is present.
pub fn get_max(series: &Vec<SeriesEntry>) -> (r: Reading)
    ensures
        r == fold_max(present(series@)),
        present(series@).len() == 0 ==> r.bits == 0,
        present(series@).len() > 0 ==> present(series@).contains(r),
        no_nan(present(series@)) ==> forall|i: int|
            0 <= i < present(series@).len() ==> (#[trigger] present(series@)[i]).key() <= r.key(),
{
    let mut acc: Option<Reading> = None;
    let mut i: usize = 0;
    while i < series.len()
        invariant
            i <= series.len(),
            acc == (if present(series@.take(i as int)).len() == 0 {
                None::<Reading>
            } else {
                Some(fold_max(present(series@.take(i as int))))
            }),
        decreases series.len() - i,
    {
        proof {
            lemma_present_step(series@, i as int);
        }
        if let Some(v) = series[i].1 {
            let ghost p = present(series@.take(i as int));
            assert(p.push(v).drop_last() =~= p);
            assert(p.push(v).last() == v);
            acc = match acc {
                None => Some(v),
                Some(a) => if a.greater_than(&v) {
                    Some(a)
                } else {
                    Some(v)
                },
            };
        }
        i = i + 1;
    }
    assert(series@.take(series.len() as int) =~= series@);
    proof {
        if present(series@).len() > 0 {
            lemma_fold_bounds(present(series@));
        }
    }
    match acc {
        Some(a) => a,
        None => Reading::zero(),
    }
}

/// The range of one series.
pub open spec fn spec_range(s: Seq<SeriesEntry>) -> MeasurementMinMax {
    MeasurementMinMax { min: fold_min(present(s)), max: fold_max(present(s)) }
}

/// Minimum and maximum present reading of the series; `{0, 0}` when none is
/// present.
pub fn reduce_range(series: &Vec<SeriesEntry>) -> (r: MeasurementMinMax)
    ensures
        r == spec_range(series@),
{
    MeasurementMinMax { min: get_min(series), max: get_max(series) }
}

/// One location's summary, or nothing when its data is the empty value.
pub open spec fn spec_summarize(d: SensorDataView, name: Seq<char>) -> Option<LocationMinMaxView> {
    if d == SensorDataView::empty() {
        None
    } else {
        Some(
            LocationMinMaxView {
                name,
                start_date: d.start,
                end_date: d.end,
                pm25: spec_range(d.pm25),
                pm10: spec_range(d.pm10),
            },
        )
    }
}

/// Summarizes one location's data under its display name; nothing when the
/// data is the empty value that a failed decode yields.
pub fn summarize(data: &SensorData, name: &str) -> (r: Option<LocationMinMax>)
    ensures
        r.is_none() == (data@ == SensorDataView::empty()),
        r.is_some() ==> spec_summarize(data@, name@) == Some(r.unwrap()@),
        r.is_some() ==> r.unwrap().start_date == data.start && r.unwrap().end_date == data.end,
{
    if data.is_empty() {
        None
    } else {
        Some(
            LocationMinMax {
                name: name.to_string(),
                start_date: data.start,
                end_date: data.end,
                pm25: reduce_range(&data.data.pm25),
                pm10: reduce_range(&data.data.pm10),
            },
        )
    }
}

/// Earliest start date of the summaries, 0 when there is none.
pub open spec fn min_start(s: Seq<LocationMinMaxView>) -> u32
    decreases s.len(),
{
    if s.len() == 0 {
        0
    } else if s.len() == 1 {
        s[0].start_date
    } else {
        let m = min_start(s.drop_last());
        if s.last().start_date < m {
            s.last().start_date
        } else {
            m
        }
    }
}

/// Latest end date of the summaries, 0 when there is none.
pub open spec fn max_end(s: Seq<LocationMinMaxView>) -> u32
    decreases s.len(),
{
    if s.len() == 0 {
        0
    } else if s.len() == 1 {
        s[0].end_date
    } else {
        let m = max_end(s.drop_last());
        if s.last().end_date > m {
            s.last().end_date
        } else {
            m
        }
    }
}

/// The weekly result over the given summaries.
pub open spec fn spec_aggregate(s: Seq<LocationMinMaxView>) -> WeeklyStatsView {
    WeeklyStatsView { start: min_start(s), end: max_end(s), locations: s }
}

/// Combines location summaries: earliest start, latest end, and the
/// summaries themselves in input order.
pub fn aggregate(locations: Vec<LocationMinMax>) -> (r: WeeklyStats)
    ensures
        r@ == spec_aggregate(summaries_view(locations@)),
        r.locations@ == locations@,
{
    let mut start: u32 = 0;
    let mut end: u32 = 0;
    let mut i: usize = 0;
    while i < locations.len()
        invariant
            i <= locations.len(),
            start == min_start(summaries_view(locations@.take(i as int))),
            end == max_end(summaries_view(locations@.take(i as int))),
        decreases locations.len() - i,
    {
        let ghost before = summaries_view(locations@.take(i as int));
        assert(summaries_view(locations@.take(i + 1)) =~= before.push(locations@[i as int]@));
        assert(before.push(locations@[i as int]@).drop_last() =~= before);
        let s = locations[i].start_date;
        let e = locations[i].end_date;
        if i == 0 || s < start {
            start = s;
        }
        if i == 0 || e > end {
            end = e;
        }
        i = i + 1;
    }
    assert(locations@.take(locations.len() as int) =~= locations@);
    WeeklyStats { start, end, locations }
}

/// Over two non-empty groups, the earliest start and latest end of the whole
/// are the extremes of the two groups' own.
pub proof fn lemma_extremes_concat(a: Seq<LocationMinMaxView>, b: Seq<LocationMinMaxView>)
    requires
        a.len() > 0,
        b.len() > 0,
    ensures
        min_start(a + b) == (if min_start(b) < min_start(a) {
            min_start(b)
        } else {
            min_start(a)
        }),
        max_end(a + b) == (if max_end(b) > max_end(a) {
            max_end(b)
        } else {
            max_end(a)
        }),
    decreases b.len(),
{
    if b.len() == 1 {
        assert((a + b).drop_last() =~= a);
        assert((a + b).last() == b[0]);
    } else {
        let c = b.drop_last();
        lemma_extremes_concat(a, c);
        assert((a + b).drop_last() =~= a + c);
        assert((a + b).last() == b.last());
    }
}

/// Aggregating nothing gives the empty result; the earliest start and latest
/// end do not depend on the order of the summaries, while the summaries keep
/// the input order.
pub proof fn lemma_aggregate_laws(a: Seq<LocationMinMaxView>, b: Seq<LocationMinMaxView>)
    ensures
        spec_aggregate(Seq::empty()) == WeeklyStatsView::empty(),
        spec_aggregate(a + b).start == spec_aggregate(b + a).start,
        spec_aggregate(a + b).end == spec_aggregate(b + a).end,
        spec_aggregate(a + b).locations == a + b,
{
    if a.len() == 0 {
        assert(a + b =~= b);
        assert(b + a =~= b);
    } else if b.len() == 0 {
        assert(a + b =~= a);
        assert(b + a =~= a);
    } else {
        lemma_extremes_concat(a, b);
        lemma_extremes_concat(b, a);
    }
}

} // verus!
