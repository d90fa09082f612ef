use clv_provider::error::Error;
use clv_provider::provider::{
    check_status, create_cells, create_graph_cell, find_operation, invoke, supported_query_types,
    Cell, GraphCell, GraphType, Operation, QueryHandler, StackingType, STATUS_MIME_TYPE,
    STATUS_QUERY_TYPE, TIMESERIES_MIME_TYPE, TIMESERIES_QUERY_TYPE,
};

fn s(text: &str) -> String {
    text.to_string()
}

fn graph() -> Vec<Cell> {
    vec![Cell::Graph(GraphCell {
        id: s("graph"),
        data_links: vec![s("cell-data:application/vnd.fiberplane.timeseries,self")],
        graph_type: GraphType::Line,
        stacking_type: StackingType::Unstacked,
    })]
}

#[test]
fn the_protocol_names() {
    assert_eq!(TIMESERIES_QUERY_TYPE, "timeseries");
    assert_eq!(STATUS_QUERY_TYPE, "status");
    assert_eq!(TIMESERIES_MIME_TYPE, "application/vnd.fiberplane.timeseries");
    assert_eq!(STATUS_MIME_TYPE, "application/vnd.fiberplane.provider-status");
}

#[test]
fn the_protocol_names_are_those_of_the_development_kit() {
    assert_eq!(TIMESERIES_QUERY_TYPE, fiberplane_pdk::providers::TIMESERIES_QUERY_TYPE);
    assert_eq!(STATUS_QUERY_TYPE, fiberplane_pdk::providers::STATUS_QUERY_TYPE);
    assert_eq!(TIMESERIES_MIME_TYPE, fiberplane_pdk::providers::TIMESERIES_MIME_TYPE);
    assert_eq!(STATUS_MIME_TYPE, fiberplane_pdk::providers::STATUS_MIME_TYPE);
}

#[test]
fn two_query_types_are_registered() {
    assert_eq!(
        supported_query_types(),
        vec![
            QueryHandler {
                query_type: s("timeseries"),
                label: Some(s("Retool: show chart")),
                supported_mime_types: vec![s("application/vnd.fiberplane.timeseries")],
                operation: Operation::FetchGraphData,
            },
            QueryHandler {
                query_type: s("status"),
                label: None,
                supported_mime_types: vec![s("application/vnd.fiberplane.provider-status")],
                operation: Operation::CheckStatus,
            },
        ]
    );
}

#[test]
fn the_registered_query_types_have_their_operations() {
    assert_eq!(invoke("timeseries"), Ok(Operation::FetchGraphData));
    assert_eq!(invoke("status"), Ok(Operation::CheckStatus));
}

#[test]
fn every_other_query_type_is_unsupported() {
    for query_type in
        ["", "events", "suggestions", "Timeseries", "STATUS", "timeseries ", " status", "time", "x"]
    {
        assert_eq!(invoke(query_type), Err(Error::UnsupportedRequest), "{query_type:?}");
    }
}

#[test]
fn a_lookup_takes_the_first_handler_of_that_name() {
    let handler = |query_type: &str, operation: Operation| QueryHandler {
        query_type: s(query_type),
        label: None,
        supported_mime_types: vec![],
        operation,
    };
    let handlers = vec![
        handler("a", Operation::CheckStatus),
        handler("b", Operation::FetchGraphData),
        handler("a", Operation::FetchGraphData),
    ];
    assert_eq!(find_operation(&handlers, "a"), Ok(Operation::CheckStatus));
    assert_eq!(find_operation(&handlers, "b"), Ok(Operation::FetchGraphData));
    assert_eq!(find_operation(&handlers, "c"), Err(Error::UnsupportedRequest));
    assert_eq!(find_operation(&vec![], "a"), Err(Error::UnsupportedRequest));
}

#[test]
fn the_graph_cell() {
    assert_eq!(create_graph_cell(), Ok(graph()));
}

#[test]
fn cells_for_the_chart() {
    assert_eq!(create_cells(s("timeseries")), Ok(graph()));
}

#[test]
fn no_cells_for_any_other_query_type() {
    for query_type in ["status", "", "Timeseries", "timeseries2", "events"] {
        assert_eq!(create_cells(s(query_type)), Err(Error::UnsupportedRequest), "{query_type:?}");
    }
}

#[test]
fn the_status_is_ok_with_the_build_as_given() {
    let status = check_status("3f2a9c1", "2024-01-01T12:00:00Z");
    assert_eq!(status.status, Ok(()));
    assert_eq!(status.version, "3f2a9c1");
    assert_eq!(status.built_at, "2024-01-01T12:00:00Z");
}

#[test]
fn the_status_of_a_build_without_a_name() {
    let status = check_status("", "");
    assert_eq!(status.status, Ok(()));
    assert_eq!(status.version, "");
    assert_eq!(status.built_at, "");
}
