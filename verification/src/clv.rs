//! Raw samples as the upstream writes them, and the series built from them.

use vstd::prelude::*;
use crate::error::{Error, ErrorView, ValueParseError};
use crate::labels::Labels;
use crate::literal::is_float_literal;
use crate::timeseries::{
    metrics_view, no_metadata, Metric, MetricView, Timeseries, TimeseriesView, NAME_LABEL,
};

verus! {

/// A raw sample: seconds since the epoch, and the text of the measured number.
#[derive(Debug, PartialEq, Eq)]
pub struct PrometheusPoint(pub i64, pub String);

impl View for PrometheusPoint {
    type V = (int, Seq<char>);

    open spec fn view(&self) -> (int, Seq<char>) {
        (self.0 as int, self.1@)
    }
}

/// The instant of `point` in milliseconds fits the type that holds it.
pub open spec fn in_range(point: (int, Seq<char>)) -> bool {
    i64::MIN <= point.0 * 1000 <= i64::MAX
}

impl PrometheusPoint {
    /// The sample at this point's instant, a thousand milliseconds for each
    /// second, with the number that its text denotes; or the error that carries
    /// the text, where it denotes no number.
    pub fn to_metric(&self) -> (r: Result<Metric, ValueParseError>)
        requires
            in_range(self@),
        ensures
            match r {
                Ok(metric) => is_float_literal(self.1@) && metric@.time == self.0 * 1000
                    && metric@.value == self.1@,
                Err(e) => !is_float_literal(self.1@) && e@ == self.1@,
            },
    {
        Metric::new(self.0 * 1000, self.1.clone())
    }
}

/// The raw samples as plain values.
pub open spec fn points_view(points: Seq<PrometheusPoint>) -> Seq<(int, Seq<char>)> {
    points.map_values(|p: PrometheusPoint| p@)
}

/// The place of the first raw sample whose text is no number.
pub open spec fn first_invalid(points: Seq<(int, Seq<char>)>) -> Option<int>
    decreases points.len(),
{
    if points.len() == 0 {
        None
    } else {
        match first_invalid(points.drop_last()) {
            Some(k) => Some(k),
            None => if is_float_literal(points.last().1) {
                None
            } else {
                Some(points.len() - 1)
            },
        }
    }
}

/// The samples that raw samples stand for, where each text is a number.
pub open spec fn points_metrics(points: Seq<(int, Seq<char>)>) -> Seq<MetricView> {
    points.map_values(|p: (int, Seq<char>)| MetricView { time: p.0 * 1000, value: p.1 })
}

/// A raw series as plain values.
pub struct RangeVectorView {
    pub metric: Map<Seq<char>, Seq<char>>,
    pub values: Seq<(int, Seq<char>)>,
}

/// The name that raw labels give a series: the value of the name label, or
/// nothing where they have none.
pub open spec fn series_name(metric: Map<Seq<char>, Seq<char>>) -> Seq<char> {
    if metric.contains_key(NAME_LABEL@) {
        metric[NAME_LABEL@]
    } else {
        Seq::empty()
    }
}

/// The series that a raw series stands for: named by its name label, with its
/// other labels, its samples in order, no metadata, and visible; or the error
/// of the first sample whose text is no number.
pub open spec fn series_of(raw: RangeVectorView) -> Result<TimeseriesView, ErrorView> {
    match first_invalid(raw.values) {
        Some(k) => Err(ErrorView::ValueParse(raw.values[k].1)),
        None => Ok(
            TimeseriesView {
                name: series_name(raw.metric),
                labels: raw.metric.remove(NAME_LABEL@),
                metrics: points_metrics(raw.values),
                otel: no_metadata(),
                visible: true,
            },
        ),
    }
}

/// A raw series: labels, the name among them, and raw samples.
#[derive(Debug)]
pub struct RangeVector {
    pub metric: Labels,
    pub values: Vec<PrometheusPoint>,
}

impl View for RangeVector {
    type V = RangeVectorView;

    open spec fn view(&self) -> RangeVectorView {
        RangeVectorView { metric: self.metric@, values: points_view(self.values@) }
    }
}

impl RangeVector {
    /// Builds the series: takes the name out of the labels and turns each raw
    /// sample into a sample, in order. The first text that is no number fails
    /// the whole series.
    pub fn into_series(self) -> (r: Result<Timeseries, Error>)
        requires
            forall|i: int| 0 <= i < self@.values.len() ==> in_range(#[trigger] self@.values[i]),
        ensures
            match r {
                Ok(series) => series_of(self@) == Ok::<TimeseriesView, ErrorView>(series@),
                Err(e) => series_of(self@) == Err::<TimeseriesView, ErrorView>(e@),
            },
    {
        let ghost raw = self@;
        let RangeVector { metric, values } = self;
        let mut labels = metric;
        let name = match labels.remove(NAME_LABEL) {
            Some(name) => name,
            None => String::new(),
        };
        let mut metrics: Vec<Metric> = Vec::new();
        let mut i: usize = 0;
        while i < values.len()
            invariant
                raw == self@,
                raw.values == points_view(values@),
                forall|j: int| 0 <= j < raw.values.len() ==> in_range(#[trigger] raw.values[j]),
                0 <= i <= values.len(),
                metrics.len() == i,
                first_invalid(raw.values.take(i as int)) is None,
                metrics_view(metrics@) == points_metrics(raw.values.take(i as int)),
            decreases values.len() - i,
        {
            let ghost seen = raw.values.take(i + 1);
            proof {
                assert(seen.drop_last() =~= raw.values.take(i as int));
                assert(seen.last() == raw.values[i as int]);
                assert(raw.values[i as int] == values[i as int]@);
            }
            let ghost before = metrics@;
            match values[i].to_metric() {
                Ok(metric) => {
                    metrics.push(metric);
                    proof {
                        assert forall|j: int| 0 <= j < seen.len() implies metrics_view(metrics@)[j]
                            == points_metrics(seen)[j] by {
                            if j < i {
                                assert(metrics_view(before)[j] == points_metrics(
                                    raw.values.take(i as int),
                                )[j]);
                            }
                        }
                        assert(metrics_view(metrics@) =~= points_metrics(seen));
                    }
                },
                Err(e) => {
                    proof {
                        assert(first_invalid(seen) == Some(i as int));
                        lemma_first_invalid_grows(raw.values, i + 1);
                    }
                    return Err(Error::ValueParse(e));
                },
            }
            i += 1;
        }
        proof {
            assert(raw.values.take(i as int) =~= raw.values);
        }
        Ok(Timeseries::new(name, labels, metrics))
    }
}

/// The first text that is no number among the first `n` raw samples is the
/// first among all of them.
pub proof fn lemma_first_invalid_grows(points: Seq<(int, Seq<char>)>, n: int)
    requires
        0 <= n <= points.len(),
        first_invalid(points.take(n)) is Some,
    ensures
        first_invalid(points) == first_invalid(points.take(n)),
    decreases points.len() - n,
{
    if n < points.len() {
        assert(points.take(n + 1).drop_last() =~= points.take(n));
        lemma_first_invalid_grows(points, n + 1);
    } else {
        assert(points.take(n) =~= points);
    }
}

/// `first_invalid` finds a text that is no number, and every text before it
/// is one; it finds none only where every text is a number.
pub proof fn lemma_first_invalid(points: Seq<(int, Seq<char>)>)
    ensures
        match first_invalid(points) {
            Some(k) => 0 <= k < points.len() && !is_float_literal(points[k].1) && forall|j: int|
                0 <= j < k ==> is_float_literal(#[trigger] points[j].1),
            None => forall|j: int| 0 <= j < points.len() ==> is_float_literal(#[trigger] points[j].1),
        },
    decreases points.len(),
{
    if points.len() > 0 {
        let front = points.drop_last();
        lemma_first_invalid(front);
        assert forall|j: int| 0 <= j < front.len() implies front[j] == points[j] by {}
    }
}

/// A series is named by the value of the name label, and that label is not
/// among its labels.
pub proof fn lemma_named_series(raw: RangeVectorView, name: Seq<char>)
    requires
        raw.metric.contains_key(NAME_LABEL@),
        raw.metric[NAME_LABEL@] == name,
        series_of(raw) is Ok,
    ensures
        series_of(raw)->Ok_0.name == name,
        !series_of(raw)->Ok_0.labels.contains_key(NAME_LABEL@),
{
}

/// A series whose raw labels have no name label has the empty name.
pub proof fn lemma_unnamed_series(raw: RangeVectorView)
    requires
        !raw.metric.contains_key(NAME_LABEL@),
        series_of(raw) is Ok,
    ensures
        series_of(raw)->Ok_0.name == Seq::<char>::empty(),
        series_of(raw)->Ok_0.labels == raw.metric,
{
    assert(raw.metric.remove(NAME_LABEL@) =~= raw.metric);
}

/// Every label but the name label stays as it was.
pub proof fn lemma_series_labels(raw: RangeVectorView, label: Seq<char>)
    requires
        label != NAME_LABEL@,
        series_of(raw) is Ok,
    ensures
        series_of(raw)->Ok_0.labels.contains_key(label) == raw.metric.contains_key(label),
        raw.metric.contains_key(label) ==> series_of(raw)->Ok_0.labels[label] == raw.metric[label],
{
}

/// A series is built whole or not at all: one text that is no number fails
/// it, with the first such text, and otherwise each raw sample gives its
/// sample, in order.
pub proof fn lemma_series_all_or_nothing(raw: RangeVectorView)
    ensures
        series_of(raw) is Err <==> exists|i: int|
            0 <= i < raw.values.len() && !is_float_literal(#[trigger] raw.values[i].1),
        series_of(raw) matches Err(e) ==> exists|k: int|
            0 <= k < raw.values.len() && e == ErrorView::ValueParse(#[trigger] raw.values[k].1)
                && !is_float_literal(raw.values[k].1) && forall|j: int|
                0 <= j < k ==> is_float_literal(#[trigger] raw.values[j].1),
        series_of(raw) matches Ok(series) ==> series.metrics.len() == raw.values.len()
            && forall|i: int|
            0 <= i < raw.values.len() ==> #[trigger] series.metrics[i] == (MetricView {
                time: raw.values[i].0 * 1000,
                value: raw.values[i].1,
            }),
{
    lemma_first_invalid(raw.values);
    match first_invalid(raw.values) {
        Some(k) => {
            assert(!is_float_literal(raw.values[k].1));
        },
        None => {},
    }
}

} // verus!
