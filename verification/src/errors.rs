//! The adapter's error taxonomy: a closed set of failure categories, the
//! external error envelope, and the HTTP status each category maps to.

use vstd::prelude::*;

verus! {

/// The closed set of failure categories this layer distinguishes.
#[derive(Clone, Copy, PartialEq, Eq, Structural, Debug)]
pub enum ErrorKind {
    /// The request had no usable content after normalization.
    InvalidRequest,
    /// A session could not be resolved or created.
    SessionFailure,
    /// Submitting the turn request to the session failed.
    SubmissionFailed,
    /// Pulling the next event from the session failed.
    EventStreamFailed,
    /// The turn itself reported an error event.
    UpstreamError,
    /// The turn was aborted before completing.
    TurnAborted,
}

/// The category string of each kind, as reported to observers.
pub open spec fn spec_category(k: ErrorKind) -> Seq<char> {
    match k {
        ErrorKind::InvalidRequest => "invalid request"@,
        ErrorKind::SessionFailure => "session resolution failed"@,
        ErrorKind::SubmissionFailed => "submission failed"@,
        ErrorKind::EventStreamFailed => "event stream failed"@,
        ErrorKind::UpstreamError => "upstream turn error"@,
        ErrorKind::TurnAborted => "turn aborted"@,
    }
}

/// The external envelope `type` string of each kind.
pub open spec fn spec_error_type(k: ErrorKind) -> Seq<char> {
    if k == ErrorKind::InvalidRequest {
        "invalid_request_error"@
    } else {
        "internal_error"@
    }
}

/// The HTTP status of each kind: an invalid request is the caller's fault,
/// every other failure is reported as an internal error.
pub open spec fn spec_http_status(k: ErrorKind) -> u16 {
    if k == ErrorKind::InvalidRequest {
        400
    } else {
        500
    }
}

impl ErrorKind {
    /// The category string of this kind.
    pub fn category(&self) -> (r: &'static str)
        ensures
            r@ == spec_category(*self),
    {
        match self {
            ErrorKind::InvalidRequest => "invalid request",
            ErrorKind::SessionFailure => "session resolution failed",
            ErrorKind::SubmissionFailed => "submission failed",
            ErrorKind::EventStreamFailed => "event stream failed",
            ErrorKind::UpstreamError => "upstream turn error",
            ErrorKind::TurnAborted => "turn aborted",
        }
    }

    /// The external envelope `type` string of this kind.
    pub fn error_type(&self) -> (r: &'static str)
        ensures
            r@ == spec_error_type(*self),
    {
        match self {
            ErrorKind::InvalidRequest => "invalid_request_error",
            _ => "internal_error",
        }
    }

    /// The HTTP status this kind is reported with.
    pub fn http_status(&self) -> (r: u16)
        ensures
            r == spec_http_status(*self),
    {
        match self {
            ErrorKind::InvalidRequest => 400,
            _ => 500,
        }
    }
}

/// A classified failure with its human-readable message.
#[derive(Debug)]
pub struct TurnError {
    pub kind: ErrorKind,
    pub message: String,
}

/// Spec-level value of a [`TurnError`].
pub struct TurnErrorModel {
    pub kind: ErrorKind,
    pub message: Seq<char>,
}

impl View for TurnError {
    type V = TurnErrorModel;

    open spec fn view(&self) -> TurnErrorModel {
        TurnErrorModel { kind: self.kind, message: self.message@ }
    }
}

/// The external error envelope: a message and a closed `type` string.
pub struct ErrorEnvelope {
    pub message: String,
    pub error_type: String,
}

/// Shape a failure into the external error envelope.
pub fn error_envelope(err: &TurnError) -> (r: ErrorEnvelope)
    ensures
        r.message@ == err.message@,
        r.error_type@ == spec_error_type(err.kind),
{
    ErrorEnvelope {
        message: err.message.clone(),
        error_type: String::from_str(err.kind.error_type()),
    }
}

/// Classify a failed submission, keeping the collaborator's own words.
pub fn submit_failure(detail: &str) -> (r: TurnError)
    ensures
        r.kind == ErrorKind::SubmissionFailed,
        r.message@ == "submit error: "@ + detail@,
{
    let mut message = String::from_str("submit error: ");
    message.append(detail);
    TurnError { kind: ErrorKind::SubmissionFailed, message }
}

/// Classify a failed event pull, keeping the collaborator's own words.
pub fn event_stream_failure(detail: &str) -> (r: TurnError)
    ensures
        r.kind == ErrorKind::EventStreamFailed,
        r.message@ == "event error: "@ + detail@,
{
    let mut message = String::from_str("event error: ");
    message.append(detail);
    TurnError { kind: ErrorKind::EventStreamFailed, message }
}

} // verus!
