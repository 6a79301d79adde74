use vstd::prelude::*;

verus! {

/// One upstream train-prediction record, with every field held exactly as the
/// upstream API delivers it: strings throughout, two of them optional. The
/// minutes-until-arrival field stays a string, since upstream may send
/// non-numeric sentinel values in it.
pub struct TrainPrediction {
    pub car: Option<String>,
    pub destination: String,
    pub destination_code: Option<String>,
    pub destination_name: String,
    pub group: String,
    pub line: String,
    pub location_code: String,
    pub location_name: String,
    pub min: String,
}

/// Mathematical model of a record: each field as a character sequence.
pub struct TrainView {
    pub car: Option<Seq<char>>,
    pub destination: Seq<char>,
    pub destination_code: Option<Seq<char>>,
    pub destination_name: Seq<char>,
    pub group: Seq<char>,
    pub line: Seq<char>,
    pub location_code: Seq<char>,
    pub location_name: Seq<char>,
    pub min: Seq<char>,
}

pub open spec fn view_opt_string(s: Option<String>) -> Option<Seq<char>> {
    match s {
        Some(t) => Some(t@),
        None => None,
    }
}

impl View for TrainPrediction {
    type V = TrainView;

    open spec fn view(&self) -> TrainView {
        TrainView {
            car: view_opt_string(self.car),
            destination: self.destination@,
            destination_code: view_opt_string(self.destination_code),
            destination_name: self.destination_name@,
            group: self.group@,
            line: self.line@,
            location_code: self.location_code@,
            location_name: self.location_name@,
            min: self.min@,
        }
    }
}

impl DeepView for TrainPrediction {
    type V = TrainView;

    open spec fn deep_view(&self) -> TrainView {
        self.view()
    }
}

/// The decoded upstream response: the ordered list of prediction records.
pub struct PredictionResponse {
    pub trains: Vec<TrainPrediction>,
}

impl View for PredictionResponse {
    type V = Seq<TrainView>;

    open spec fn view(&self) -> Seq<TrainView> {
        self.trains.deep_view()
    }
}

/// A station selector: which station's records to keep, and how many at most.
pub struct StationSelector {
    pub code: String,
    pub count: usize,
}

/// Mathematical model of a selector.
pub struct SelectorView {
    pub code: Seq<char>,
    pub count: nat,
}

impl View for StationSelector {
    type V = SelectorView;

    open spec fn view(&self) -> SelectorView {
        SelectorView { code: self.code@, count: self.count as nat }
    }
}

impl DeepView for StationSelector {
    type V = SelectorView;

    open spec fn deep_view(&self) -> SelectorView {
        self.view()
    }
}

impl StationSelector {
    /// Pairs a station code with the number of records to keep for it.
    pub fn new(code: String, count: usize) -> (r: StationSelector)
        ensures
            r@ == (SelectorView { code: code@, count: count as nat }),
    {
        StationSelector { code, count }
    }
}

/// The three failure categories the service distinguishes: the upstream call
/// could not be sent or completed, the upstream answered with a non-success
/// status (carried along), or the body could not be decoded.
#[derive(Debug, PartialEq, Eq, Structural, Clone, Copy)]
pub enum ServiceError {
    Transport,
    UpstreamStatus(u16),
    Decode,
}

/// What the one upstream call produced: a transport-level failure, or a
/// response with its status code and its body text.
pub enum UpstreamOutcome {
    TransportFailure,
    Response(u16, String),
}

/// The response this service returns to its own caller: an HTTP status, and a
/// body on success only.
pub struct OutwardResponse {
    pub status: u16,
    pub body: Option<String>,
}

/// The two response modes: a formatted multi-line text block per selector, or
/// the decoded records re-encoded as JSON.
#[derive(Debug, PartialEq, Eq, Structural, Clone, Copy)]
pub enum ResponseMode {
    FormattedText,
    JsonPassthrough,
}

/// Startup configuration, supplied from outside: the prediction endpoint's
/// base URL, the API key to attach to each upstream call, and the default
/// station selectors.
pub struct ServiceConfig {
    pub endpoint_base: String,
    pub api_key: String,
    pub selectors: Vec<StationSelector>,
}

} // verus!
