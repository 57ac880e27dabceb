//! The error slot of a thread: the status of the last failure and its diagnostic.

use vstd::prelude::*;

use crate::abi::{AbiError, OtelStatus};
use crate::time::{duration_debug, duration_text, Duration};

verus! {

/// What the last failing call on a thread left behind.
#[derive(Debug)]
pub struct ErrorState {
    pub last_status: OtelStatus,
    pub message: String,
}

impl ErrorState {
    /// The slot holds this status and this diagnostic.
    pub open spec fn holds(self, status: OtelStatus, message: Seq<char>) -> bool {
        self.last_status == status && self.message@ == message
    }

    /// No failure is recorded.
    pub open spec fn is_clear(self) -> bool {
        self.holds(OtelStatus::Success, Seq::empty())
    }

    /// A slot without a failure.
    pub fn new() -> (r: ErrorState)
        ensures
            r.is_clear(),
    {
        ErrorState { last_status: OtelStatus::Success, message: String::new() }
    }
}

/// Records a diagnostic and leaves the status alone.
pub fn set_last_error(errors: &mut ErrorState, message: &str)
    ensures
        final(errors).holds(old(errors).last_status, message@),
{
    errors.message = message.to_owned();
}

/// Records `message` with `status` and returns `status`.
pub fn fail(errors: &mut ErrorState, status: OtelStatus, message: &str) -> (r: OtelStatus)
    ensures
        r == status,
        final(errors).holds(status, message@),
{
    errors.last_status = status;
    set_last_error(errors, message);
    status
}

/// Records an owned `message` with `status` and returns `status`.
pub fn fail_owned(errors: &mut ErrorState, status: OtelStatus, message: String) -> (r: OtelStatus)
    ensures
        r == status,
        final(errors).holds(status, message@),
{
    errors.last_status = status;
    errors.message = message;
    status
}

/// Forgets the last failure.
pub fn clear_last_error(errors: &mut ErrorState)
    ensures
        final(errors).is_clear(),
{
    reset_last_status(errors);
    errors.message = String::new();
}

/// Forgets the status of the last failure and keeps its diagnostic.
pub fn reset_last_status(errors: &mut ErrorState)
    ensures
        final(errors).holds(OtelStatus::Success, old(errors).message@),
{
    errors.last_status = OtelStatus::Success;
}

/// The status of the last failure, or `fallback` where none is recorded.
pub fn last_status_or(errors: &ErrorState, fallback: OtelStatus) -> (r: OtelStatus)
    ensures
        r == (if errors.last_status == OtelStatus::Success {
            fallback
        } else {
            errors.last_status
        }),
{
    if errors.last_status == OtelStatus::Success {
        fallback
    } else {
        errors.last_status
    }
}

/// Records why a view could not be read.
pub fn fail_abi(errors: &mut ErrorState, err: AbiError) -> (r: OtelStatus)
    ensures
        r == err.spec_status(),
        final(errors).holds(err.spec_status(), err.spec_message()),
{
    fail(errors, err.status(), err.message())
}

/// A lifecycle failure of the export pipeline.
#[derive(Debug)]
pub enum OTelSdkError {
    AlreadyShutdown,
    Timeout(Duration),
    InternalFailure(String),
}

/// The result of a lifecycle operation.
pub type OTelSdkResult = Result<(), OTelSdkError>;

/// The mathematical value of a lifecycle failure.
pub enum SdkErrorView {
    AlreadyShutdown,
    Timeout(Duration),
    InternalFailure(Seq<char>),
}

impl View for OTelSdkError {
    type V = SdkErrorView;

    open spec fn view(&self) -> SdkErrorView {
        match self {
            OTelSdkError::AlreadyShutdown => SdkErrorView::AlreadyShutdown,
            OTelSdkError::Timeout(d) => SdkErrorView::Timeout(*d),
            OTelSdkError::InternalFailure(message) => SdkErrorView::InternalFailure(message@),
        }
    }
}

/// The mathematical value of a lifecycle result.
pub open spec fn result_view(r: OTelSdkResult) -> Result<(), SdkErrorView> {
    match r {
        Ok(_) => Ok(()),
        Err(e) => Err(e@),
    }
}

impl OTelSdkError {
    /// A timeout carries a normalized duration.
    pub open spec fn wf(self) -> bool {
        self matches OTelSdkError::Timeout(d) ==> d.wf()
    }

    /// The status reported for this failure.
    pub open spec fn spec_status(self) -> OtelStatus {
        match self {
            OTelSdkError::AlreadyShutdown => OtelStatus::AlreadyShutdown,
            OTelSdkError::Timeout(_) => OtelStatus::Timeout,
            OTelSdkError::InternalFailure(_) => OtelStatus::ExportFailed,
        }
    }

    /// The diagnostic recorded for this failure.
    pub open spec fn spec_message(self) -> Seq<char> {
        match self {
            OTelSdkError::AlreadyShutdown => "operation failed: provider already shut down"@,
            OTelSdkError::Timeout(d) => "operation timed out after "@ + duration_debug(
                d.secs,
                d.nanos,
            ),
            OTelSdkError::InternalFailure(message) => "internal failure: "@ + message@,
        }
    }
}

/// Maps a lifecycle failure of the export pipeline to a status and records its detail. An
/// exporter failure surfaced by a flush or a shutdown is an export failure, not a failure of
/// this library.
pub fn status_from_export_pipeline_error(errors: &mut ErrorState, err: &OTelSdkError) -> (r:
    OtelStatus)
    requires
        err.wf(),
    ensures
        r == err.spec_status(),
        final(errors).holds(err.spec_status(), err.spec_message()),
{
    match err {
        OTelSdkError::AlreadyShutdown => fail(
            errors,
            OtelStatus::AlreadyShutdown,
            "operation failed: provider already shut down",
        ),
        OTelSdkError::Timeout(d) => {
            let text = duration_text(*d);
            let mut message = "operation timed out after ".to_owned();
            message.append(text.as_str());
            fail_owned(errors, OtelStatus::Timeout, message)
        },
        OTelSdkError::InternalFailure(detail) => {
            let mut message = "internal failure: ".to_owned();
            message.append(detail.as_str());
            fail_owned(errors, OtelStatus::ExportFailed, message)
        },
    }
}

} // verus!
