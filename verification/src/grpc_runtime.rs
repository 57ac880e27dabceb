//! Decisions around the runtime that a gRPC exporter owns.

use vstd::prelude::*;

use crate::error::{OTelSdkError, SdkErrorView};

verus! {

/// How a runtime is disposed of.
#[derive(Clone, Copy, Debug, PartialEq, Eq, Structural)]
pub enum RuntimeDisposal {
    /// On the calling thread.
    Inline,
    /// On a thread of its own that is joined: a runtime may not be dropped inside another one.
    NeutralThread,
    /// In the background: the runtime cannot wait for its own worker.
    Background,
}

/// Decides how the runtime `own` is disposed of by a thread that has entered `current`.
pub fn dispose_grpc_runtime(current: Option<u64>, own: u64) -> (r: RuntimeDisposal)
    ensures
        r == match current {
            None => RuntimeDisposal::Inline,
            Some(id) => if id == own {
                RuntimeDisposal::Background
            } else {
                RuntimeDisposal::NeutralThread
            },
        },
{
    match current {
        None => RuntimeDisposal::Inline,
        Some(id) => if id == own {
            RuntimeDisposal::Background
        } else {
            RuntimeDisposal::NeutralThread
        },
    }
}

/// Whether a synchronous export may block on its runtime: not on a thread that has entered one.
pub fn grpc_export_gate(signal: &str, entered: bool) -> (r: Result<(), OTelSdkError>)
    ensures
        r is Ok <==> !entered,
        r matches Err(error) ==> error@ == SdkErrorView::InternalFailure(
            "synchronous OTLP gRPC "@ + signal@
                + " export cannot call block_on from an entered Tokio runtime"@,
        ),
{
    if !entered {
        return Ok(());
    }
    let mut message = "synchronous OTLP gRPC ".to_owned();
    message.append(signal);
    message.append(" export cannot call block_on from an entered Tokio runtime");
    Err(OTelSdkError::InternalFailure(message))
}

} // verus!
