//! Samples and the series that hold them.

use vstd::prelude::*;
use crate::error::ValueParseError;
use crate::labels::Labels;
use crate::literal::{is_float, is_float_literal};

verus! {

/// The label that carries a series' name on the way in. No finished series has it.
pub const NAME_LABEL: &'static str = "__name__";

/// A sample as plain values.
pub struct MetricView {
    /// Milliseconds since the epoch.
    pub time: int,
    /// The text of the measured number.
    pub value: Seq<char>,
}

/// One measurement: an instant and the number measured then.
///
/// The number is kept as the text that denotes it: every sample's text is a
/// floating-point literal.
#[derive(Debug, PartialEq, Eq)]
pub struct Metric {
    time: i64,
    value: String,
}

impl View for Metric {
    type V = MetricView;

    closed spec fn view(&self) -> MetricView {
        MetricView { time: self.time as int, value: self.value@ }
    }
}

impl Metric {
    #[verifier::type_invariant]
    spec fn wf(self) -> bool {
        is_float_literal(self.value@)
    }

    /// The sample taken at `time`, in milliseconds since the epoch, with the
    /// number that `value` denotes; or the error, where it denotes none.
    pub fn new(time: i64, value: String) -> (r: Result<Metric, ValueParseError>)
        ensures
            match r {
                Ok(metric) => is_float_literal(value@) && metric@ == (MetricView {
                    time: time as int,
                    value: value@,
                }),
                Err(e) => !is_float_literal(value@) && e@ == value@,
            },
    {
        if is_float(value.as_str()) {
            Ok(Metric { time, value })
        } else {
            Err(ValueParseError { value })
        }
    }

    /// The instant, in milliseconds since the epoch.
    pub fn time(&self) -> (r: i64)
        ensures
            r == self@.time,
    {
        self.time
    }

    /// The text of the number.
    pub fn value(&self) -> (r: &String)
        ensures
            r@ == self@.value,
            is_float_literal(r@),
    {
        proof {
            use_type_invariant(self);
        }
        &self.value
    }
}

/// The samples as plain values.
pub open spec fn metrics_view(metrics: Seq<Metric>) -> Seq<MetricView> {
    metrics.map_values(|m: Metric| m@)
}

/// Telemetry metadata as plain values.
pub struct OtelMetadataView {
    pub attributes: Map<Seq<char>, Seq<char>>,
    pub resource: Map<Seq<char>, Seq<char>>,
    pub trace_id: Option<[u8; 16]>,
    pub span_id: Option<[u8; 8]>,
}

/// What telemetry says of a series: attributes of the series and of the
/// resource it was measured on, with their values as text, and the trace and
/// span it belongs to.
#[derive(Debug)]
pub struct OtelMetadata {
    pub attributes: Labels,
    pub resource: Labels,
    pub trace_id: Option<[u8; 16]>,
    pub span_id: Option<[u8; 8]>,
}

impl View for OtelMetadata {
    type V = OtelMetadataView;

    open spec fn view(&self) -> OtelMetadataView {
        OtelMetadataView {
            attributes: self.attributes@,
            resource: self.resource@,
            trace_id: self.trace_id,
            span_id: self.span_id,
        }
    }
}

/// Metadata that says nothing.
pub open spec fn no_metadata() -> OtelMetadataView {
    OtelMetadataView {
        attributes: Map::empty(),
        resource: Map::empty(),
        trace_id: None,
        span_id: None,
    }
}

impl Default for OtelMetadata {
    fn default() -> (r: OtelMetadata)
        ensures
            r@ == no_metadata(),
    {
        OtelMetadata {
            attributes: Labels::new(),
            resource: Labels::new(),
            trace_id: None,
            span_id: None,
        }
    }
}

/// A series as plain values.
pub struct TimeseriesView {
    pub name: Seq<char>,
    pub labels: Map<Seq<char>, Seq<char>>,
    pub metrics: Seq<MetricView>,
    pub otel: OtelMetadataView,
    pub visible: bool,
}

/// A named series of samples with its labels.
///
/// The samples stand in the order in which they came. The name is not among
/// the labels.
#[derive(Debug)]
pub struct Timeseries {
    name: String,
    labels: Labels,
    metrics: Vec<Metric>,
    otel: OtelMetadata,
    visible: bool,
}

impl View for Timeseries {
    type V = TimeseriesView;

    closed spec fn view(&self) -> TimeseriesView {
        TimeseriesView {
            name: self.name@,
            labels: self.labels@,
            metrics: metrics_view(self.metrics@),
            otel: self.otel@,
            visible: self.visible,
        }
    }
}

impl Timeseries {
    #[verifier::type_invariant]
    spec fn wf(self) -> bool {
        !self.labels@.contains_key(NAME_LABEL@)
    }

    /// The visible series `name` with `labels` and `metrics`, and no metadata.
    pub(crate) fn new(name: String, labels: Labels, metrics: Vec<Metric>) -> (r: Timeseries)
        requires
            !labels@.contains_key(NAME_LABEL@),
        ensures
            r@ == (TimeseriesView {
                name: name@,
                labels: labels@,
                metrics: metrics_view(metrics@),
                otel: no_metadata(),
                visible: true,
            }),
    {
        Timeseries { name, labels, metrics, otel: OtelMetadata::default(), visible: true }
    }

    /// The name; empty where the series was given none.
    pub fn name(&self) -> (r: &String)
        ensures
            r@ == self@.name,
    {
        &self.name
    }

    /// The labels; the name label is not among them.
    pub fn labels(&self) -> (r: &Labels)
        ensures
            r@ == self@.labels,
            !r@.contains_key(NAME_LABEL@),
    {
        proof {
            use_type_invariant(self);
        }
        &self.labels
    }

    /// The samples, in the order in which they came.
    pub fn metrics(&self) -> (r: &Vec<Metric>)
        ensures
            metrics_view(r@) == self@.metrics,
    {
        &self.metrics
    }

    /// What telemetry says of the series.
    pub fn otel(&self) -> (r: &OtelMetadata)
        ensures
            r@ == self@.otel,
    {
        &self.otel
    }

    /// Whether the series is drawn.
    pub fn visible(&self) -> (r: bool)
        ensures
            r == self@.visible,
    {
        self.visible
    }
}

} // verus!
