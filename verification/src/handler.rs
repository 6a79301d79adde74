use vstd::prelude::*;

use crate::format::{format_predictions, format_text};
use crate::json::{decode_body, encode_response, json_text, spec_decode, tree_of_records};
use crate::model::{
    OutwardResponse, ResponseMode, ServiceError, StationSelector, UpstreamOutcome,
};

verus! {

/// The registered HTTP status codes this service recognizes: an upstream
/// non-success status is echoed outward only when it is one of these.
pub open spec fn recognized_status(code: u16) -> bool {
    ||| 100 <= code <= 102
    ||| 200 <= code <= 208
    ||| code == 226
    ||| 300 <= code <= 305
    ||| 307 <= code <= 308
    ||| 400 <= code <= 418
    ||| 421 <= code <= 424
    ||| code == 426
    ||| code == 428
    ||| code == 429
    ||| code == 431
    ||| code == 451
    ||| 500 <= code <= 508
    ||| code == 510
    ||| code == 511
}

/// Whether `code` is one of the recognized registered status codes.
pub fn is_recognized_status(code: u16) -> (r: bool)
    ensures
        r == recognized_status(code),
{
    (100 <= code && code <= 102) || (200 <= code && code <= 208) || code == 226 || (300 <= code
        && code <= 305) || (307 <= code && code <= 308) || (400 <= code && code <= 418) || (421
        <= code && code <= 424) || code == 426 || code == 428 || code == 429 || code == 431
        || code == 451 || (500 <= code && code <= 508) || code == 510 || code == 511
}

/// Whether an upstream status counts as success.
pub open spec fn is_success_status(code: u16) -> bool {
    200 <= code < 300
}

/// The outward status for a failure: transport and decode failures map to
/// 500; an upstream non-success status is echoed where recognized, with 500
/// as the fallback for an unrecognized code.
pub open spec fn spec_outward_status(e: ServiceError) -> u16 {
    match e {
        ServiceError::Transport => 500,
        ServiceError::Decode => 500,
        ServiceError::UpstreamStatus(c) => if recognized_status(c) {
            c
        } else {
            500
        },
    }
}

/// Maps a failure to the status this service answers with.
pub fn outward_status(e: &ServiceError) -> (r: u16)
    ensures
        r == spec_outward_status(*e),
{
    match e {
        ServiceError::Transport => 500,
        ServiceError::Decode => 500,
        ServiceError::UpstreamStatus(c) => {
            if is_recognized_status(*c) {
                *c
            } else {
                500
            }
        },
    }
}

/// The fixed body served alongside an internal-error status.
pub fn internal_error() -> (r: &'static str)
    ensures
        r@ == "Internal Server Error"@,
{
    "Internal Server Error"
}

/// The request handler's whole decision, for one upstream outcome: a
/// transport failure answers 500; an upstream non-success status is echoed
/// where recognized, else 500; a success body that fails to decode answers
/// 500; a decoded body answers 200 with the formatted text or, in the
/// passthrough mode, the records re-encoded as JSON.
pub fn handle_outcome(
    mode: ResponseMode,
    selectors: &Vec<StationSelector>,
    outcome: UpstreamOutcome,
) -> (r: OutwardResponse)
    ensures
        match outcome {
            UpstreamOutcome::TransportFailure => r.status == 500 && r.body is None,
            UpstreamOutcome::Response(st, body) => {
                if !is_success_status(st) {
                    r.status == spec_outward_status(ServiceError::UpstreamStatus(st)) && r.body
                        is None
                } else {
                    match spec_decode(body@) {
                        None => r.status == 500 && r.body is None,
                        Some(recs) => {
                            &&& r.status == 200
                            &&& r.body is Some
                            &&& (r.body->0)@ == (match mode {
                                ResponseMode::FormattedText => format_text(
                                    selectors.deep_view(),
                                    recs,
                                ),
                                ResponseMode::JsonPassthrough => json_text(tree_of_records(recs)),
                            })
                        },
                    }
                }
            },
        },
{
    match outcome {
        UpstreamOutcome::TransportFailure => OutwardResponse { status: 500, body: None },
        UpstreamOutcome::Response(status, body) => {
            if !(200 <= status && status < 300) {
                let e = ServiceError::UpstreamStatus(status);
                OutwardResponse { status: outward_status(&e), body: None }
            } else {
                match decode_body(body.as_str()) {
                    Ok(resp) => {
                        let text = match mode {
                            ResponseMode::FormattedText => format_predictions(selectors, &resp),
                            ResponseMode::JsonPassthrough => encode_response(&resp),
                        };
                        OutwardResponse { status: 200, body: Some(text) }
                    },
                    Err(_) => OutwardResponse { status: 500, body: None },
                }
            }
        },
    }
}

} // verus!
