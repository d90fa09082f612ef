use clv_provider::clv::{PrometheusPoint, RangeVector};
use clv_provider::error::{Error, ValueParseError};
use clv_provider::labels::Labels;
use clv_provider::timeseries::{Metric, Timeseries};

fn s(text: &str) -> String {
    text.to_string()
}

fn labels(pairs: &[(&str, &str)]) -> Labels {
    let mut labels = Labels::new();
    for (name, value) in pairs {
        labels.insert(s(name), s(value));
    }
    labels
}

fn points(raw: &[(i64, &str)]) -> Vec<PrometheusPoint> {
    raw.iter().map(|(t, v)| PrometheusPoint(*t, s(v))).collect()
}

fn number(metric: &Metric) -> f64 {
    metric.value().parse::<f64>().unwrap()
}

fn built(metric: &[(&str, &str)], values: &[(i64, &str)]) -> Result<Timeseries, Error> {
    RangeVector { metric: labels(metric), values: points(values) }.into_series()
}

#[test]
fn a_point_becomes_a_sample_a_thousand_milliseconds_a_second() {
    let metric = PrometheusPoint(1_704_067_200, s("10")).to_metric().unwrap();
    assert_eq!(metric.time(), 1_704_067_200_000);
    assert_eq!(metric.value(), "10");
    assert_eq!(number(&metric), 10.0);
}

#[test]
fn a_point_keeps_its_number_exactly() {
    for text in ["0.1", "-2.5e-3", "1e308", "3.141592653589793", "+7", ".5", "5."] {
        let metric = PrometheusPoint(1, s(text)).to_metric().unwrap();
        assert_eq!(metric.time(), 1000);
        assert_eq!(number(&metric), text.parse::<f64>().unwrap());
    }
}

#[test]
fn a_point_at_the_epoch_and_before_it() {
    assert_eq!(PrometheusPoint(0, s("1")).to_metric().unwrap().time(), 0);
    assert_eq!(PrometheusPoint(-86_400, s("1")).to_metric().unwrap().time(), -86_400_000);
}

#[test]
fn a_point_at_the_ends_of_the_range() {
    let last = i64::MAX / 1000;
    assert_eq!(PrometheusPoint(last, s("1")).to_metric().unwrap().time(), last * 1000);
    let first = i64::MIN / 1000;
    assert_eq!(PrometheusPoint(first, s("1")).to_metric().unwrap().time(), first * 1000);
}

#[test]
fn infinities_and_nan_are_numbers() {
    assert_eq!(number(&PrometheusPoint(1, s("inf")).to_metric().unwrap()), f64::INFINITY);
    assert_eq!(number(&PrometheusPoint(1, s("-inf")).to_metric().unwrap()), f64::NEG_INFINITY);
    assert!(number(&PrometheusPoint(1, s("NaN")).to_metric().unwrap()).is_nan());
}

#[test]
fn a_text_that_is_no_number_fails_with_that_text() {
    assert_eq!(
        PrometheusPoint(1, s("ten")).to_metric(),
        Err(ValueParseError { value: s("ten") })
    );
    assert_eq!(PrometheusPoint(1, s("")).to_metric(), Err(ValueParseError { value: s("") }));
    assert_eq!(
        PrometheusPoint(1, s(" 10")).to_metric(),
        Err(ValueParseError { value: s(" 10") })
    );
}

#[test]
fn metric_new_checks_the_text() {
    let metric = Metric::new(5, s("2.5")).unwrap();
    assert_eq!(metric.time(), 5);
    assert_eq!(metric.value(), "2.5");
    assert_eq!(Metric::new(5, s("2,5")), Err(ValueParseError { value: s("2,5") }));
}

#[test]
fn the_name_label_names_the_series() {
    let series = built(&[("__name__", "foo"), ("job", "clv")], &[(1, "1")]).unwrap();
    assert_eq!(series.name(), "foo");
    assert_eq!(series.labels().get("__name__"), None);
    assert_eq!(series.labels().get("job"), Some(&s("clv")));
    assert_eq!(series.labels().len(), 1);
}

#[test]
fn without_a_name_label_the_name_is_empty() {
    let series = built(&[("job", "clv"), ("instance", "a")], &[(1, "1")]).unwrap();
    assert_eq!(series.name(), "");
    assert_eq!(series.labels().len(), 2);
    assert_eq!(series.labels().get("job"), Some(&s("clv")));
    assert_eq!(series.labels().get("instance"), Some(&s("a")));
}

#[test]
fn the_name_label_is_matched_letter_for_letter() {
    let series = built(&[("__NAME__", "foo"), ("_name_", "bar")], &[]).unwrap();
    assert_eq!(series.name(), "");
    assert_eq!(series.labels().len(), 2);
}

#[test]
fn samples_keep_their_order() {
    let series = built(&[("__name__", "foo")], &[(3, "30"), (1, "10"), (2, "20"), (1, "11")])
        .unwrap();
    let times: Vec<i64> = series.metrics().iter().map(|m| m.time()).collect();
    let values: Vec<f64> = series.metrics().iter().map(number).collect();
    assert_eq!(times, vec![3000, 1000, 2000, 1000]);
    assert_eq!(values, vec![30.0, 10.0, 20.0, 11.0]);
}

#[test]
fn a_series_is_visible_and_carries_no_metadata() {
    let series = built(&[("__name__", "foo")], &[(1, "1")]).unwrap();
    assert!(series.visible());
    assert_eq!(series.otel().attributes.len(), 0);
    assert_eq!(series.otel().resource.len(), 0);
    assert_eq!(series.otel().trace_id, None);
    assert_eq!(series.otel().span_id, None);
}

#[test]
fn a_series_without_samples() {
    let series = built(&[("__name__", "foo")], &[]).unwrap();
    assert_eq!(series.name(), "foo");
    assert!(series.metrics().is_empty());
}

#[test]
fn one_bad_value_fails_the_whole_series() {
    let result = built(&[("__name__", "foo")], &[(1, "1"), (2, "two"), (3, "3")]);
    assert_eq!(result.unwrap_err(), Error::ValueParse(ValueParseError { value: s("two") }));
}

#[test]
fn the_first_bad_value_is_reported() {
    let result = built(&[("__name__", "foo")], &[(1, "1"), (2, "x"), (3, "y"), (4, "4")]);
    assert_eq!(result.unwrap_err(), Error::ValueParse(ValueParseError { value: s("x") }));
    let result = built(&[], &[(1, "bad"), (2, "2")]);
    assert_eq!(result.unwrap_err(), Error::ValueParse(ValueParseError { value: s("bad") }));
    let result = built(&[], &[(1, "1"), (2, "2"), (3, "")]);
    assert_eq!(result.unwrap_err(), Error::ValueParse(ValueParseError { value: s("") }));
}
