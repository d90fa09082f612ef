//! Records of the charting service, and the series made of them.

use vstd::prelude::*;
use crate::clv::{
    first_invalid, in_range, points_metrics, points_view, series_of, PrometheusPoint, RangeVector,
    RangeVectorView,
};
use crate::dates::{midnight_epoch_seconds, midnight_timestamp};
use crate::decimal::{decimal, decimal_string};
use crate::error::{Error, ErrorView};
use crate::labels::Labels;
use crate::literal::lemma_decimal_is_float_literal;
use crate::text::texts_view;
use crate::timeseries::{no_metadata, Timeseries, TimeseriesView, NAME_LABEL};

verus! {

/// The label that names the job every series belongs to.
pub const JOB_LABEL: &'static str = "job";

/// The job every series belongs to.
pub const JOB: &'static str = "clv";

/// The label that names the instance a series came from.
pub const INSTANCE_LABEL: &'static str = "instance";

/// One chart of the service: a total `y[i]` for each day `x[i]`.
#[derive(Debug, PartialEq, Eq)]
pub struct OriginalObject {
    /// Days, written as year, month and day.
    pub x: Vec<String>,
    /// The total of each day.
    pub y: Vec<i32>,
    pub name: String,
    /// The kind of chart. Nothing is made of it.
    pub object_type: String,
}

/// A record as plain values.
pub struct OriginalObjectView {
    pub x: Seq<Seq<char>>,
    pub y: Seq<i32>,
    pub name: Seq<char>,
    pub object_type: Seq<char>,
}

impl View for OriginalObject {
    type V = OriginalObjectView;

    open spec fn view(&self) -> OriginalObjectView {
        OriginalObjectView {
            x: texts_view(self.x@),
            y: self.y@,
            name: self.name@,
            object_type: self.object_type@,
        }
    }
}

/// The raw labels of the chart `name`.
pub open spec fn record_labels(name: Seq<char>) -> Map<Seq<char>, Seq<char>> {
    map![NAME_LABEL@ => name, JOB_LABEL@ => JOB@, INSTANCE_LABEL@ => name]
}

/// The number of days that have a total: days and totals are paired up to the
/// end of the shorter list.
pub open spec fn paired(midnights: Seq<Option<i64>>, totals: Seq<i32>) -> nat {
    if midnights.len() <= totals.len() {
        midnights.len()
    } else {
        totals.len()
    }
}

/// The raw samples of the first `n` days: for each day that has a midnight,
/// in order, that midnight with the day's total in decimal.
pub open spec fn dated_points(midnights: Seq<Option<i64>>, totals: Seq<i32>, n: nat) -> Seq<
    (int, Seq<char>),
>
    decreases n,
{
    if n == 0 {
        Seq::empty()
    } else {
        let front = dated_points(midnights, totals, (n - 1) as nat);
        match midnights[n - 1] {
            Some(t) => front.push((t as int, decimal(totals[n - 1] as int))),
            None => front,
        }
    }
}

/// The raw series of the chart `name`, given the midnight of each of its days.
pub open spec fn raw_series_of(
    name: Seq<char>,
    midnights: Seq<Option<i64>>,
    totals: Seq<i32>,
) -> RangeVectorView {
    RangeVectorView {
        metric: record_labels(name),
        values: dated_points(midnights, totals, paired(midnights, totals)),
    }
}

/// The series of the chart `name`, given the midnight of each of its days:
/// named after the chart, labelled with the job and with the chart as
/// instance, with a sample for each day that has a midnight and a total,
/// without metadata, and visible.
pub open spec fn dated_series(
    name: Seq<char>,
    midnights: Seq<Option<i64>>,
    totals: Seq<i32>,
) -> TimeseriesView {
    TimeseriesView {
        name,
        labels: map![JOB_LABEL@ => JOB@, INSTANCE_LABEL@ => name],
        metrics: points_metrics(raw_series_of(name, midnights, totals).values),
        otel: no_metadata(),
        visible: true,
    }
}

/// The midnight of each day, as chrono reads it.
pub open spec fn midnights_of(days: Seq<Seq<char>>) -> Seq<Option<i64>> {
    days.map_values(|day: Seq<char>| midnight_epoch_seconds(day))
}

/// The series of a record: that of its chart, with the midnights that chrono
/// reads in its days.
pub open spec fn record_series(record: OriginalObjectView) -> TimeseriesView {
    dated_series(record.name, midnights_of(record.x), record.y)
}

/// Every midnight, counted in milliseconds, fits the type that holds a
/// sample's instant.
pub open spec fn midnights_in_range(midnights: Seq<Option<i64>>) -> bool {
    forall|i: int|
        0 <= i < midnights.len() ==> (#[trigger] midnights[i] matches Some(t) ==> i64::MIN <= t
            * 1000 <= i64::MAX)
}

/// The number of days among the first `n` that have a midnight.
pub open spec fn readable_days(midnights: Seq<Option<i64>>, n: nat) -> nat
    decreases n,
{
    if n == 0 {
        0
    } else {
        readable_days(midnights, (n - 1) as nat) + if midnights[n - 1] is Some {
            1nat
        } else {
            0nat
        }
    }
}

/// Each day that has a midnight and a total gives one raw sample, and no other
/// day gives any.
pub proof fn lemma_dated_points_len(midnights: Seq<Option<i64>>, totals: Seq<i32>, n: nat)
    ensures
        dated_points(midnights, totals, n).len() == readable_days(midnights, n),
        readable_days(midnights, n) <= n,
    decreases n,
{
    if n > 0 {
        lemma_dated_points_len(midnights, totals, (n - 1) as nat);
    }
}

/// The raw samples made of midnights in range are in range, and the text of
/// each is a number.
pub proof fn lemma_dated_points_valid(midnights: Seq<Option<i64>>, totals: Seq<i32>, n: nat)
    requires
        n <= midnights.len(),
        midnights_in_range(midnights),
    ensures
        forall|i: int|
            0 <= i < dated_points(midnights, totals, n).len() ==> in_range(
                #[trigger] dated_points(midnights, totals, n)[i],
            ),
        first_invalid(dated_points(midnights, totals, n)) is None,
    decreases n,
{
    if n > 0 {
        lemma_dated_points_valid(midnights, totals, (n - 1) as nat);
        let front = dated_points(midnights, totals, (n - 1) as nat);
        if let Some(t) = midnights[n - 1] {
            lemma_decimal_is_float_literal(totals[n - 1] as int);
            assert(front.push((t as int, decimal(totals[n - 1] as int))).drop_last() =~= front);
        }
    }
}

/// The name label is neither of the other two labels.
proof fn lemma_labels_differ()
    ensures
        NAME_LABEL@ != JOB_LABEL@,
        NAME_LABEL@ != INSTANCE_LABEL@,
{
    reveal_strlit("__name__");
    reveal_strlit("job");
    reveal_strlit("instance");
    assert(NAME_LABEL@[0] == '_');
    assert(INSTANCE_LABEL@[0] == 'i');
}

/// Building the series of a chart never fails, whatever its days and totals
/// are: the decimal text of a total is always a number.
pub proof fn lemma_dated_series(name: Seq<char>, midnights: Seq<Option<i64>>, totals: Seq<i32>)
    requires
        midnights_in_range(midnights),
    ensures
        series_of(raw_series_of(name, midnights, totals)) == Ok::<TimeseriesView, ErrorView>(
            dated_series(name, midnights, totals),
        ),
{
    lemma_dated_points_valid(midnights, totals, paired(midnights, totals));
    lemma_labels_differ();
    assert(record_labels(name).remove(NAME_LABEL@) =~= map![JOB_LABEL@ => JOB@, INSTANCE_LABEL@ => name]);
}

/// Asks chrono for the midnight of each day.
pub fn midnights(days: &Vec<String>) -> (r: Vec<Option<i64>>)
    ensures
        r@ == midnights_of(texts_view(days@)),
        midnights_in_range(r@),
{
    let mut r: Vec<Option<i64>> = Vec::new();
    let mut i: usize = 0;
    while i < days.len()
        invariant
            0 <= i <= days.len(),
            r@ == midnights_of(texts_view(days@)).take(i as int),
            midnights_in_range(r@),
        decreases days.len() - i,
    {
        let t = midnight_timestamp(days[i].as_str());
        r.push(t);
        proof {
            assert(r@ =~= midnights_of(texts_view(days@)).take(i + 1));
        }
        i += 1;
    }
    proof {
        assert(r@ =~= midnights_of(texts_view(days@)));
    }
    r
}

/// The raw series of the chart `name`: its three labels, and a raw sample for
/// each day that has both a midnight and a total.
pub fn raw_series(name: &str, midnights: &Vec<Option<i64>>, totals: &Vec<i32>) -> (r:
    RangeVector)
    ensures
        r@ == raw_series_of(name@, midnights@, totals@),
{
    let mut metric = Labels::new();
    metric.insert(NAME_LABEL.to_owned(), name.to_owned());
    metric.insert(JOB_LABEL.to_owned(), JOB.to_owned());
    metric.insert(INSTANCE_LABEL.to_owned(), name.to_owned());
    let n = if midnights.len() <= totals.len() {
        midnights.len()
    } else {
        totals.len()
    };
    let mut values: Vec<PrometheusPoint> = Vec::new();
    let mut i: usize = 0;
    while i < n
        invariant
            0 <= i <= n,
            n == paired(midnights@, totals@),
            points_view(values@) == dated_points(midnights@, totals@, i as nat),
        decreases n - i,
    {
        match midnights[i] {
            Some(t) => {
                values.push(PrometheusPoint(t, decimal_string(totals[i])));
                proof {
                    assert(points_view(values@) =~= dated_points(
                        midnights@,
                        totals@,
                        (i + 1) as nat,
                    ));
                }
            },
            None => {},
        }
        i += 1;
    }
    RangeVector { metric, values }
}

/// The series of the chart `name`, given the midnight of each of its days. A
/// day without a midnight gives no sample, and nothing fails.
pub fn series_with_midnights(name: &str, midnights: &Vec<Option<i64>>, totals: &Vec<i32>) -> (r:
    Result<Timeseries, Error>)
    requires
        midnights_in_range(midnights@),
    ensures
        r matches Ok(series) && series@ == dated_series(name@, midnights@, totals@),
{
    let raw = raw_series(name, midnights, totals);
    proof {
        lemma_dated_points_valid(midnights@, totals@, paired(midnights@, totals@));
        lemma_dated_series(name@, midnights@, totals@);
    }
    raw.into_series()
}

/// The series of one record: chrono reads its days, and each day that it
/// reads and that has a total gives a sample.
pub fn series(record: &OriginalObject) -> (r: Result<Timeseries, Error>)
    ensures
        r matches Ok(series) && series@ == record_series(record@),
{
    let midnights = midnights(&record.x);
    series_with_midnights(record.name.as_str(), &midnights, &record.y)
}

/// The series of the records, one for each record, in order. A day that
/// chrono does not read gives no sample; no record fails.
pub fn graph_data(records: &Vec<OriginalObject>) -> (r: Result<Vec<Timeseries>, Error>)
    ensures
        r matches Ok(all) && all.len() == records.len() && forall|i: int|
            0 <= i < records.len() ==> (#[trigger] all[i])@ == record_series(records[i]@),
{
    let mut all: Vec<Timeseries> = Vec::new();
    let mut i: usize = 0;
    while i < records.len()
        invariant
            0 <= i <= records.len(),
            all.len() == i,
            forall|j: int| 0 <= j < i ==> (#[trigger] all[j])@ == record_series(records[j]@),
        decreases records.len() - i,
    {
        match series(&records[i]) {
            Ok(one) => all.push(one),
            Err(e) => return Err(e),
        }
        i += 1;
    }
    Ok(all)
}

} // verus!
