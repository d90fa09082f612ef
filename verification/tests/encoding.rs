use clv_provider::timeseries::Timeseries as Series;
use clv_provider::upstream::{graph_data, OriginalObject};
use fiberplane_pdk::prelude::{
    Metric, OtelMetadata, ProviderData, Timeseries, TimeseriesVector, Timestamp,
};
use std::collections::BTreeMap;
use std::time::{Duration, SystemTime};

fn record(name: &str, x: &[&str], y: &[i32]) -> OriginalObject {
    OriginalObject {
        x: x.iter().map(|d| d.to_string()).collect(),
        y: y.to_vec(),
        name: name.to_string(),
        object_type: "scatter".to_string(),
    }
}

fn encodable(series: &Series) -> Timeseries {
    let labels: BTreeMap<String, String> = series.labels().pairs().iter().cloned().collect();
    let metrics: Vec<Metric> = series
        .metrics()
        .iter()
        .map(|metric| {
            let millis = u64::try_from(metric.time()).unwrap();
            let time = SystemTime::UNIX_EPOCH + Duration::from_millis(millis);
            Metric::builder()
                .time(Timestamp::from(time))
                .value(metric.value().parse().unwrap())
                .otel(OtelMetadata::default())
                .build()
        })
        .collect();
    Timeseries::builder()
        .name(series.name().clone())
        .labels(labels)
        .metrics(metrics)
        .otel(OtelMetadata::default())
        .visible(series.visible())
        .build()
}

#[test]
fn encoded_series_decode_to_the_same_series() {
    let records = vec![
        record("sales", &["2024-01-01", "bad-date", "2024-01-03"], &[10, 20, 30]),
        record("returns", &["2023-12-31"], &[-4]),
        record("nothing", &[], &[]),
    ];
    let all = graph_data(&records).unwrap();
    let sent: Vec<Timeseries> = all.iter().map(encodable).collect();

    let blob = TimeseriesVector(sent.clone()).to_blob().unwrap();
    let decoded = TimeseriesVector::parse_blob(blob).unwrap().0;

    assert_eq!(decoded.len(), 3);
    assert_eq!(decoded, sent);
    for (series, read) in all.iter().zip(&decoded) {
        assert_eq!(&read.name, series.name());
        assert_eq!(read.labels.len(), series.labels().len());
        for (name, value) in &read.labels {
            assert_eq!(series.labels().get(name), Some(value));
        }
        assert_eq!(read.metrics.len(), series.metrics().len());
        for (sample, metric) in series.metrics().iter().zip(&read.metrics) {
            assert_eq!(metric.time.unix_timestamp_nanos(), sample.time() as i128 * 1_000_000);
            assert_eq!(metric.value, sample.value().parse::<f64>().unwrap());
        }
        assert!(read.visible);
    }
}

#[test]
fn an_empty_collection_is_encoded_and_decoded() {
    let all = graph_data(&vec![]).unwrap();
    let sent: Vec<Timeseries> = all.iter().map(encodable).collect();
    let blob = TimeseriesVector(sent).to_blob().unwrap();
    assert!(blob.mime_type.starts_with("application/vnd.fiberplane.timeseries"));
    assert!(TimeseriesVector::parse_blob(blob).unwrap().0.is_empty());
}
