use transfer_hero::format::{format_predictions, format_station};
use transfer_hero::handler::{handle_outcome, internal_error, is_recognized_status, outward_status};
use transfer_hero::json::{decode_body, encode_response};
use transfer_hero::client::{build_prediction_url, join_codes, selector_codes};
use transfer_hero::model::{
    OutwardResponse, PredictionResponse, ResponseMode, ServiceError, StationSelector,
    TrainPrediction, UpstreamOutcome,
};

fn record(
    car: Option<&str>,
    destination: &str,
    destination_code: Option<&str>,
    destination_name: &str,
    group: &str,
    line: &str,
    location_code: &str,
    location_name: &str,
    min: &str,
) -> TrainPrediction {
    TrainPrediction {
        car: car.map(|s| s.to_string()),
        destination: destination.to_string(),
        destination_code: destination_code.map(|s| s.to_string()),
        destination_name: destination_name.to_string(),
        group: group.to_string(),
        line: line.to_string(),
        location_code: location_code.to_string(),
        location_name: location_name.to_string(),
        min: min.to_string(),
    }
}

fn largo_body() -> &'static str {
    r#"{"Trains":[{"Car":"6","Destination":"Largo","DestinationCode":"E10","DestinationName":"Largo Town Center","Group":"2","Line":"SV","LocationCode":"B03","LocationName":"Medical Center","Min":"5"}]}"#
}

fn selectors(pairs: &[(&str, usize)]) -> Vec<StationSelector> {
    pairs.iter().map(|(c, n)| StationSelector::new(c.to_string(), *n)).collect()
}

#[test]
fn end_to_end_largo_block() {
    let outcome = UpstreamOutcome::Response(200, largo_body().to_string());
    let sels = selectors(&[("B03", 2)]);
    let r: OutwardResponse = handle_outcome(ResponseMode::FormattedText, &sels, outcome);
    assert_eq!(r.status, 200);
    assert_eq!(
        r.body.as_deref(),
        Some("B03 - Destination: Largo Town Center\nLine: SV\nMin: 5\n")
    );
}

#[test]
fn malformed_body_yields_500() {
    let truncated = r#"{"Trains":[{"Car":"6","Destination""#;
    let sels = selectors(&[("B03", 2)]);
    let r = handle_outcome(
        ResponseMode::FormattedText,
        &sels,
        UpstreamOutcome::Response(200, truncated.to_string()),
    );
    assert_eq!(r.status, 500);
    assert!(r.body.is_none());

    let renamed = r#"{"Trains":[{"Car":"6","Destination":"Largo","DestinationCode":"E10","DestinationName":"Largo Town Center","Group":"2","Line":"SV","LocationCode":"B03","LocationName":"Medical Center","Minutes":"5"}]}"#;
    let r = handle_outcome(
        ResponseMode::FormattedText,
        &sels,
        UpstreamOutcome::Response(200, renamed.to_string()),
    );
    assert_eq!(r.status, 500);
    assert!(r.body.is_none());
}

#[test]
fn decode_rejects_malformed_bodies() {
    assert!(matches!(decode_body("not json at all"), Err(ServiceError::Decode)));
    assert!(matches!(decode_body("[1,2,3]"), Err(ServiceError::Decode)));
    assert!(matches!(decode_body(r#"{"NoTrains":[]}"#), Err(ServiceError::Decode)));
    assert!(matches!(decode_body(r#"{"Trains":"x"}"#), Err(ServiceError::Decode)));
    // a numeric value in a required string field is a type mismatch
    assert!(matches!(
        decode_body(
            r#"{"Trains":[{"Car":null,"Destination":"L","DestinationCode":null,"DestinationName":"L","Group":"2","Line":"SV","LocationCode":"B03","LocationName":"M","Min":5}]}"#
        ),
        Err(ServiceError::Decode)
    ));
    // one malformed record rejects the whole response
    assert!(matches!(
        decode_body(
            r#"{"Trains":[{"Car":null,"Destination":"L","DestinationCode":null,"DestinationName":"L","Group":"2","Line":"SV","LocationCode":"B03","LocationName":"M","Min":"5"},{"Car":null}]}"#
        ),
        Err(ServiceError::Decode)
    ));
}

#[test]
fn decode_accepts_valid_body() {
    let resp = decode_body(largo_body()).expect("body decodes");
    assert_eq!(resp.trains.len(), 1);
    let t = &resp.trains[0];
    assert_eq!(t.car.as_deref(), Some("6"));
    assert_eq!(t.destination, "Largo");
    assert_eq!(t.destination_code.as_deref(), Some("E10"));
    assert_eq!(t.destination_name, "Largo Town Center");
    assert_eq!(t.group, "2");
    assert_eq!(t.line, "SV");
    assert_eq!(t.location_code, "B03");
    assert_eq!(t.location_name, "Medical Center");
    assert_eq!(t.min, "5");
}

#[test]
fn decode_accepts_null_optionals_and_extra_fields() {
    let body = r#"{"Trains":[{"Car":null,"Destination":"L","DestinationCode":null,"DestinationName":"Largo","Extra":7,"Group":"2","Line":"SV","LocationCode":"B03","LocationName":"M","Min":"ARR"}]}"#;
    let resp = decode_body(body).expect("body decodes");
    assert_eq!(resp.trains.len(), 1);
    assert_eq!(resp.trains[0].car, None);
    assert_eq!(resp.trains[0].destination_code, None);
    assert_eq!(resp.trains[0].min, "ARR");
}

#[test]
fn decode_then_reencode_preserves_fields() {
    let first = decode_body(largo_body()).expect("body decodes");
    let reencoded = encode_response(&first);
    // the canonical field order is alphabetical, as in the input body
    assert_eq!(reencoded, largo_body());
    let second = decode_body(&reencoded).expect("re-encoded body decodes");
    assert_eq!(second.trains.len(), first.trains.len());
    assert_eq!(second.trains[0].destination_name, first.trains[0].destination_name);
    assert_eq!(second.trains[0].car, first.trains[0].car);
    assert_eq!(second.trains[0].min, first.trains[0].min);
}

#[test]
fn reencode_renders_null_for_absent_optionals() {
    let resp = PredictionResponse {
        trains: vec![record(None, "L", None, "Largo", "2", "SV", "B03", "M", "5")],
    };
    let text = encode_response(&resp);
    assert_eq!(
        text,
        r#"{"Trains":[{"Car":null,"Destination":"L","DestinationCode":null,"DestinationName":"Largo","Group":"2","Line":"SV","LocationCode":"B03","LocationName":"M","Min":"5"}]}"#
    );
}

#[test]
fn passthrough_mode_returns_json() {
    let sels = selectors(&[("B03", 2)]);
    let r = handle_outcome(
        ResponseMode::JsonPassthrough,
        &sels,
        UpstreamOutcome::Response(200, largo_body().to_string()),
    );
    assert_eq!(r.status, 200);
    assert_eq!(r.body.as_deref(), Some(largo_body()));
}

#[test]
fn formatter_truncates_to_count() {
    let trains = vec![
        record(Some("6"), "A", None, "Alpha", "2", "RD", "B03", "M", "1"),
        record(Some("6"), "B", None, "Beta", "2", "RD", "B03", "M", "3"),
        record(Some("6"), "C", None, "Gamma", "2", "RD", "B03", "M", "9"),
    ];
    let text = format_station(&"B03".to_string(), 2, &trains);
    assert_eq!(
        text,
        "B03 - Destination: Alpha\nLine: RD\nMin: 1\nB03 - Destination: Beta\nLine: RD\nMin: 3\n"
    );
}

#[test]
fn formatter_skips_non_matching_records() {
    let trains = vec![
        record(None, "A", None, "Alpha", "1", "RD", "B03", "M", "1"),
        record(None, "B", None, "Beta", "2", "RD", "C01", "M", "3"),
        record(None, "C", None, "Gamma", "2", "RD", "B03", "M", "9"),
    ];
    // the first record has the wrong group, the second the wrong station
    let text = format_station(&"B03".to_string(), 5, &trains);
    assert_eq!(text, "B03 - Destination: Gamma\nLine: RD\nMin: 9\n");
    // a station with no matching record renders nothing
    let empty = format_station(&"K08".to_string(), 5, &trains);
    assert_eq!(empty, "");
}

#[test]
fn formatter_concatenates_selectors_in_order() {
    let resp = PredictionResponse {
        trains: vec![
            record(None, "A", None, "Alpha", "2", "RD", "B03", "M", "1"),
            record(None, "B", None, "Beta", "2", "GR", "C01", "N", "3"),
        ],
    };
    let sels = selectors(&[("C01", 2), ("B03", 2)]);
    let text = format_predictions(&sels, &resp);
    assert_eq!(
        text,
        "C01 - Destination: Beta\nLine: GR\nMin: 3\nB03 - Destination: Alpha\nLine: RD\nMin: 1\n"
    );
}

#[test]
fn formatter_with_zero_count_renders_nothing() {
    let trains = vec![record(None, "A", None, "Alpha", "2", "RD", "B03", "M", "1")];
    assert_eq!(format_station(&"B03".to_string(), 0, &trains), "");
}

#[test]
fn upstream_status_is_echoed_when_recognized() {
    let sels = selectors(&[("B03", 2)]);
    let r = handle_outcome(
        ResponseMode::FormattedText,
        &sels,
        UpstreamOutcome::Response(404, String::new()),
    );
    assert_eq!(r.status, 404);
    assert!(r.body.is_none());
}

#[test]
fn unrecognized_upstream_status_falls_back_to_500() {
    let sels = selectors(&[("B03", 2)]);
    let r = handle_outcome(
        ResponseMode::FormattedText,
        &sels,
        UpstreamOutcome::Response(599, String::new()),
    );
    assert_eq!(r.status, 500);
    assert!(r.body.is_none());
}

#[test]
fn transport_failure_yields_500() {
    let sels = selectors(&[("B03", 2)]);
    let r = handle_outcome(ResponseMode::FormattedText, &sels, UpstreamOutcome::TransportFailure);
    assert_eq!(r.status, 500);
    assert!(r.body.is_none());
}

#[test]
fn error_to_status_mapping() {
    assert_eq!(outward_status(&ServiceError::Transport), 500);
    assert_eq!(outward_status(&ServiceError::Decode), 500);
    assert_eq!(outward_status(&ServiceError::UpstreamStatus(404)), 404);
    assert_eq!(outward_status(&ServiceError::UpstreamStatus(503)), 503);
    assert_eq!(outward_status(&ServiceError::UpstreamStatus(599)), 500);
    assert!(is_recognized_status(418));
    assert!(!is_recognized_status(599));
    assert!(!is_recognized_status(0));
}

#[test]
fn internal_error_body_text() {
    assert_eq!(internal_error(), "Internal Server Error");
}

#[test]
fn url_building_joins_codes_with_commas() {
    let sels = selectors(&[("B03", 2), ("C01", 2)]);
    let codes = selector_codes(&sels);
    assert_eq!(codes, vec!["B03".to_string(), "C01".to_string()]);
    assert_eq!(join_codes(&codes), "B03,C01");
    let url = build_prediction_url(
        &"https://example.test/StationPrediction.svc/json/GetPrediction/".to_string(),
        &codes,
    );
    assert_eq!(url, "https://example.test/StationPrediction.svc/json/GetPrediction/B03,C01");
    let one = join_codes(&vec!["B03".to_string()]);
    assert_eq!(one, "B03");
    let none = join_codes(&Vec::new());
    assert_eq!(none, "");
}
