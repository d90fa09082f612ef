//! The provider's query types, the cells it draws and the status it reports.

use vstd::prelude::*;
use vstd::string::StringExecFns;
use crate::error::Error;
use crate::text::texts_view;

verus! {

/// The query type that asks for the chart's series.
pub const TIMESERIES_QUERY_TYPE: &'static str = "timeseries";

/// The query type that asks how the provider is.
pub const STATUS_QUERY_TYPE: &'static str = "status";

/// The MIME type of encoded series.
pub const TIMESERIES_MIME_TYPE: &'static str = "application/vnd.fiberplane.timeseries";

/// The MIME type of an encoded status report.
pub const STATUS_MIME_TYPE: &'static str = "application/vnd.fiberplane.provider-status";

/// How the chart's query type is shown to a user.
pub const TIMESERIES_LABEL: &'static str = "Retool: show chart";

/// The identifier of the graph cell.
pub const GRAPH_CELL_ID: &'static str = "graph";

/// The query type under which the embedded Retool app is shown.
pub const RETOOL_EMBED_APP: &'static str = "x-showcase-cells";

/// The MIME type of the data that the embedded app shows.
pub const SHOWCASE_MIME_TYPE: &'static str = "application/vnd.fiberplane.providers.sample.showcase";

/// Where the charting service answers.
pub const CHART_URL: &'static str =
    "http://115.178.76.46:31998/charts/totalchart?intervalE=years%20ago&intervalS=1";

/// What a query type asks the provider to do.
#[derive(Debug, Clone, Copy, PartialEq, Eq, Structural)]
pub enum Operation {
    /// Fetch the chart from `CHART_URL` and answer with its series.
    FetchGraphData,
    /// Answer with the provider's status.
    CheckStatus,
}

/// A query type that the provider answers.
#[derive(Debug, PartialEq, Eq)]
pub struct QueryHandler {
    /// The identifier that requests name.
    pub query_type: String,
    /// How the query type is shown to a user; `None` where users do not pick it.
    pub label: Option<String>,
    /// The MIME types of the answers.
    pub supported_mime_types: Vec<String>,
    pub operation: Operation,
}

/// A query handler as plain values.
pub struct QueryHandlerView {
    pub query_type: Seq<char>,
    pub label: Option<Seq<char>>,
    pub supported_mime_types: Seq<Seq<char>>,
    pub operation: Operation,
}

impl View for QueryHandler {
    type V = QueryHandlerView;

    open spec fn view(&self) -> QueryHandlerView {
        QueryHandlerView {
            query_type: self.query_type@,
            label: match self.label {
                Some(label) => Some(label@),
                None => None,
            },
            supported_mime_types: texts_view(self.supported_mime_types@),
            operation: self.operation,
        }
    }
}

/// The handlers as plain values.
pub open spec fn handlers_view(handlers: Seq<QueryHandler>) -> Seq<QueryHandlerView> {
    handlers.map_values(|h: QueryHandler| h@)
}

/// The query types that the provider answers: the chart's series, and the
/// status.
pub open spec fn registered() -> Seq<QueryHandlerView> {
    seq![
        QueryHandlerView {
            query_type: TIMESERIES_QUERY_TYPE@,
            label: Some(TIMESERIES_LABEL@),
            supported_mime_types: seq![TIMESERIES_MIME_TYPE@],
            operation: Operation::FetchGraphData,
        },
        QueryHandlerView {
            query_type: STATUS_QUERY_TYPE@,
            label: None,
            supported_mime_types: seq![STATUS_MIME_TYPE@],
            operation: Operation::CheckStatus,
        },
    ]
}

/// The operation of the first handler registered for exactly `query_type`.
pub open spec fn operation_of(handlers: Seq<QueryHandlerView>, query_type: Seq<char>) -> Option<
    Operation,
>
    decreases handlers.len(),
{
    if handlers.len() == 0 {
        None
    } else if handlers[0].query_type == query_type {
        Some(handlers[0].operation)
    } else {
        operation_of(handlers.drop_first(), query_type)
    }
}

/// The table of the provider's query types.
pub fn supported_query_types() -> (r: Vec<QueryHandler>)
    ensures
        handlers_view(r@) == registered(),
{
    let mut timeseries_mime_types: Vec<String> = Vec::new();
    timeseries_mime_types.push(TIMESERIES_MIME_TYPE.to_owned());
    let mut status_mime_types: Vec<String> = Vec::new();
    status_mime_types.push(STATUS_MIME_TYPE.to_owned());
    let mut r: Vec<QueryHandler> = Vec::new();
    r.push(
        QueryHandler {
            query_type: TIMESERIES_QUERY_TYPE.to_owned(),
            label: Some(TIMESERIES_LABEL.to_owned()),
            supported_mime_types: timeseries_mime_types,
            operation: Operation::FetchGraphData,
        },
    );
    r.push(
        QueryHandler {
            query_type: STATUS_QUERY_TYPE.to_owned(),
            label: None,
            supported_mime_types: status_mime_types,
            operation: Operation::CheckStatus,
        },
    );
    proof {
        assert(r[0]@.supported_mime_types =~= seq![TIMESERIES_MIME_TYPE@]);
        assert(r[1]@.supported_mime_types =~= seq![STATUS_MIME_TYPE@]);
        assert(handlers_view(r@) =~= registered());
    }
    r
}

/// Looks `query_type` up among `handlers`: the operation of the first handler
/// registered for exactly that identifier, or `UnsupportedRequest` where there
/// is none.
pub fn find_operation(handlers: &Vec<QueryHandler>, query_type: &str) -> (r: Result<
    Operation,
    Error,
>)
    ensures
        match operation_of(handlers_view(handlers@), query_type@) {
            Some(operation) => r == Ok::<Operation, Error>(operation),
            None => r == Err::<Operation, Error>(Error::UnsupportedRequest),
        },
{
    let ghost all = handlers_view(handlers@);
    let wanted = query_type.to_owned();
    let mut i: usize = 0;
    proof {
        assert(all.skip(0) =~= all);
    }
    while i < handlers.len()
        invariant
            0 <= i <= handlers.len(),
            all == handlers_view(handlers@),
            wanted@ == query_type@,
            operation_of(all, query_type@) == operation_of(all.skip(i as int), query_type@),
        decreases handlers.len() - i,
    {
        if handlers[i].query_type == wanted {
            return Ok(handlers[i].operation);
        }
        proof {
            assert(all.skip(i as int).drop_first() =~= all.skip(i + 1));
        }
        i += 1;
    }
    Err(Error::UnsupportedRequest)
}

/// A lookup finds the first handler registered for exactly the identifier
/// asked for, and nothing where no handler is: there is no fallback.
pub proof fn lemma_operation_of(handlers: Seq<QueryHandlerView>, query_type: Seq<char>)
    ensures
        match operation_of(handlers, query_type) {
            Some(operation) => exists|i: int|
                0 <= i < handlers.len() && (#[trigger] handlers[i]).query_type == query_type
                    && handlers[i].operation == operation && forall|j: int|
                    0 <= j < i ==> (#[trigger] handlers[j]).query_type != query_type,
            None => forall|i: int|
                0 <= i < handlers.len() ==> (#[trigger] handlers[i]).query_type != query_type,
        },
    decreases handlers.len(),
{
    if handlers.len() > 0 && handlers[0].query_type != query_type {
        let rest = handlers.drop_first();
        lemma_operation_of(rest, query_type);
        match operation_of(rest, query_type) {
            Some(operation) => {
                let i = choose|i: int|
                    0 <= i < rest.len() && (#[trigger] rest[i]).query_type == query_type
                        && rest[i].operation == operation && forall|j: int|
                        0 <= j < i ==> (#[trigger] rest[j]).query_type != query_type;
                assert(handlers[i + 1] == rest[i]);
                assert forall|j: int| 0 <= j < i + 1 implies (#[trigger] handlers[j]).query_type
                    != query_type by {
                    if j > 0 {
                        assert(handlers[j] == rest[j - 1]);
                    }
                }
            },
            None => {
                assert forall|i: int| 0 <= i < handlers.len() implies (
                #[trigger] handlers[i]).query_type != query_type by {
                    if i > 0 {
                        assert(handlers[i] == rest[i - 1]);
                    }
                }
            },
        }
    } else if handlers.len() > 0 {
        assert(handlers[0].query_type == query_type);
    }
}

/// The provider answers the chart's query type by fetching the chart, the
/// status query type by reporting its status, and no other identifier.
pub proof fn lemma_registered(query_type: Seq<char>)
    ensures
        operation_of(registered(), query_type) == if query_type == TIMESERIES_QUERY_TYPE@ {
            Some(Operation::FetchGraphData)
        } else if query_type == STATUS_QUERY_TYPE@ {
            Some(Operation::CheckStatus)
        } else {
            None
        },
{
    reveal_with_fuel(operation_of, 3);
    assert(registered().drop_first().drop_first().len() == 0);
}

/// What the provider is to do for a request of `query_type`: fetch the chart
/// for the chart's query type, report the status for the status query type,
/// and fail with `UnsupportedRequest` for every other identifier.
pub fn invoke(query_type: &str) -> (r: Result<Operation, Error>)
    ensures
        r == if query_type@ == TIMESERIES_QUERY_TYPE@ {
            Ok::<Operation, Error>(Operation::FetchGraphData)
        } else if query_type@ == STATUS_QUERY_TYPE@ {
            Ok::<Operation, Error>(Operation::CheckStatus)
        } else {
            Err::<Operation, Error>(Error::UnsupportedRequest)
        },
{
    proof {
        lemma_registered(query_type@);
    }
    find_operation(&supported_query_types(), query_type)
}

/// How a graph is drawn.
#[derive(Debug, Clone, Copy, PartialEq, Eq, Structural)]
pub enum GraphType {
    Bar,
    Line,
}

/// How the series of a graph are stacked.
#[derive(Debug, Clone, Copy, PartialEq, Eq, Structural)]
pub enum StackingType {
    Unstacked,
    Stacked,
    Percentage,
}

/// A cell that draws the data it links to.
#[derive(Debug, PartialEq, Eq)]
pub struct GraphCell {
    pub id: String,
    /// Where the data is found.
    pub data_links: Vec<String>,
    pub graph_type: GraphType,
    pub stacking_type: StackingType,
}

/// A graph cell as plain values.
pub struct GraphCellView {
    pub id: Seq<char>,
    pub data_links: Seq<Seq<char>>,
    pub graph_type: GraphType,
    pub stacking_type: StackingType,
}

impl View for GraphCell {
    type V = GraphCellView;

    open spec fn view(&self) -> GraphCellView {
        GraphCellView {
            id: self.id@,
            data_links: texts_view(self.data_links@),
            graph_type: self.graph_type,
            stacking_type: self.stacking_type,
        }
    }
}

/// A notebook cell.
#[derive(Debug, PartialEq, Eq)]
pub enum Cell {
    Graph(GraphCell),
}

impl View for Cell {
    type V = GraphCellView;

    open spec fn view(&self) -> GraphCellView {
        match self {
            Cell::Graph(cell) => cell@,
        }
    }
}

/// The cells as plain values.
pub open spec fn cells_view(cells: Seq<Cell>) -> Seq<GraphCellView> {
    cells.map_values(|c: Cell| c@)
}

/// The link to the data of `mime_type` that the cell's own query produced.
pub open spec fn data_link(mime_type: Seq<char>) -> Seq<char> {
    "cell-data:"@ + mime_type + ",self"@
}

/// The cell that draws the chart: a line graph, not stacked, of the series
/// that the cell's own query produced.
pub open spec fn graph_cell() -> GraphCellView {
    GraphCellView {
        id: GRAPH_CELL_ID@,
        data_links: seq![data_link(TIMESERIES_MIME_TYPE@)],
        graph_type: GraphType::Line,
        stacking_type: StackingType::Unstacked,
    }
}

/// The cells that show the chart.
pub fn create_graph_cell() -> (r: Result<Vec<Cell>, Error>)
    ensures
        r matches Ok(cells) && cells_view(cells@) == seq![graph_cell()],
{
    let mut link = "cell-data:".to_owned();
    link.append(TIMESERIES_MIME_TYPE);
    link.append(",self");
    let mut data_links: Vec<String> = Vec::new();
    data_links.push(link);
    let cell = Cell::Graph(
        GraphCell {
            id: GRAPH_CELL_ID.to_owned(),
            data_links,
            graph_type: GraphType::Line,
            stacking_type: StackingType::Unstacked,
        },
    );
    let mut cells: Vec<Cell> = Vec::new();
    cells.push(cell);
    proof {
        assert(cells[0]@.data_links =~= seq![data_link(TIMESERIES_MIME_TYPE@)]);
        assert(cells_view(cells@) =~= seq![graph_cell()]);
    }
    Ok(cells)
}

/// The cells that show the answer to a query of `query_type`: the graph cell
/// for the chart's series, and `UnsupportedRequest` for every other identifier.
pub fn create_cells(query_type: String) -> (r: Result<Vec<Cell>, Error>)
    ensures
        match r {
            Ok(cells) => query_type@ == TIMESERIES_QUERY_TYPE@ && cells_view(cells@)
                == seq![graph_cell()],
            Err(e) => query_type@ != TIMESERIES_QUERY_TYPE@ && e == Error::UnsupportedRequest,
        },
{
    if query_type == TIMESERIES_QUERY_TYPE.to_owned() {
        create_graph_cell()
    } else {
        Err(Error::UnsupportedRequest)
    }
}

/// What the provider reports of itself.
#[derive(Debug, PartialEq, Eq)]
pub struct ProviderStatus {
    /// Whether the provider can be queried.
    pub status: Result<(), Error>,
    /// The version of the build.
    pub version: String,
    /// When the build was made.
    pub built_at: String,
}

/// The status of a build: in order, with the build's version and time as they
/// are given.
pub fn check_status(version: &str, built_at: &str) -> (r: ProviderStatus)
    ensures
        r.status is Ok,
        r.version@ == version@,
        r.built_at@ == built_at@,
{
    ProviderStatus { status: Ok(()), version: version.to_owned(), built_at: built_at.to_owned() }
}

} // verus!
