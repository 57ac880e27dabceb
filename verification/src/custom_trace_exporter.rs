//! Traces exporter backed by C callbacks.
//!
//! The exporter decides which callback runs with which arguments; the caller invokes it and
//! hands its outcome back. The callback table may be a prefix of the current one: a member that
//! lies beyond the announced size is not read.

use vstd::prelude::*;

use crate::abi::OtelStatus;
use crate::callback::{
    begin_flush, begin_release, begin_shutdown, callback_meaning, callback_outcome, export_refusal,
    flush_step, release_plan, shutdown_step, CallbackStep, ReleasePlan, ShutdownStep, StatusPolicy,
};
use crate::error::{
    clear_last_error, fail, fail_owned, result_view, ErrorState, OTelSdkError, OTelSdkResult,
    SdkErrorView,
};
use crate::handle::is_valid;
use crate::log_export::Resource;
use crate::time::Duration;
use crate::trace_exporter::{OtelTraceExporter, TraceExporterImpl};

verus! {

/// Where the members of the callback table end on this platform, in bytes from its start.
#[derive(Clone, Copy, Debug, PartialEq, Eq)]
pub struct TraceCallbackLayout {
    /// The end of the last required member, which every table must cover.
    pub export_spans_end: usize,
    pub force_flush_end: usize,
    pub shutdown_end: usize,
    pub state_destroy_end: usize,
}

/// Callback table accepted by [`otel_custom_trace_exporter_new`].
#[derive(Clone, Copy, Debug, PartialEq, Eq)]
pub struct OtelCustomTraceExporterCallbacks {
    pub struct_size: usize,
    /// Required.
    pub export_spans: Option<usize>,
    /// Optional; a successful no-op where it is absent.
    pub force_flush: Option<usize>,
    /// Optional; a successful no-op where it is absent.
    pub shutdown: Option<usize>,
    /// Optional; the callback state is not released where it is absent.
    pub state_destroy: Option<usize>,
}

/// The callback in word `i` of a table, if the table reaches there and the word is not NULL.
pub open spec fn callback_word(words: Seq<usize>, i: int) -> Option<usize> {
    if 0 <= i < words.len() && words[i] != 0 {
        Some(words[i])
    } else {
        None
    }
}

/// The callback in word `i` of a table, where the announced size covers it.
pub open spec fn optional_word(
    words: Seq<usize>,
    struct_size: usize,
    i: int,
    end: usize,
) -> Option<usize> {
    if struct_size >= end {
        callback_word(words, i)
    } else {
        None
    }
}

/// The callbacks of a table of the announced size.
pub open spec fn table_of(
    words: Seq<usize>,
    struct_size: usize,
    layout: TraceCallbackLayout,
) -> OtelCustomTraceExporterCallbacks {
    OtelCustomTraceExporterCallbacks {
        struct_size,
        export_spans: callback_word(words, 1),
        force_flush: optional_word(words, struct_size, 2, layout.force_flush_end),
        shutdown: optional_word(words, struct_size, 3, layout.shutdown_end),
        state_destroy: optional_word(words, struct_size, 4, layout.state_destroy_end),
    }
}

fn read_word(words: &[usize], i: usize) -> (r: Option<usize>)
    ensures
        r == callback_word(words@, i as int),
{
    if i < words.len() && words[i] != 0 {
        Some(words[i])
    } else {
        None
    }
}

fn read_member(words: &[usize], struct_size: usize, i: usize, end: usize) -> (r: Option<usize>)
    ensures
        r == optional_word(words@, struct_size, i as int, end),
{
    if struct_size >= end {
        read_word(words, i)
    } else {
        None
    }
}

/// Reads the callbacks out of the words of a table, none of them beyond the announced size.
pub fn read_callbacks(words: &[usize], struct_size: usize, layout: TraceCallbackLayout) -> (r:
    OtelCustomTraceExporterCallbacks)
    ensures
        r == table_of(words@, struct_size, layout),
{
    OtelCustomTraceExporterCallbacks {
        struct_size,
        export_spans: read_word(words, 1),
        force_flush: read_member(words, struct_size, 2, layout.force_flush_end),
        shutdown: read_member(words, struct_size, 3, layout.shutdown_end),
        state_destroy: read_member(words, struct_size, 4, layout.state_destroy_end),
    }
}

/// A Traces exporter that hands batches to C.
#[derive(Debug)]
pub struct CustomTraceExporter {
    pub callbacks: OtelCustomTraceExporterCallbacks,
    pub user_data: usize,
    pub resource: Resource,
    pub shutdown: bool,
}

/// Why a span batch could not be presented to C.
#[derive(Debug)]
pub struct SpanConversionError {
    pub status: OtelStatus,
    pub message: String,
}

impl CustomTraceExporter {
    /// Maps the outcome of a callback (`None` where it panicked) to a lifecycle result.
    pub fn callback_result(
        &self,
        operation: &str,
        timeout: Duration,
        outcome: Option<OtelStatus>,
    ) -> (r: OTelSdkResult)
        ensures
            result_view(r) == callback_meaning(
                "trace"@,
                operation@,
                timeout,
                outcome,
                StatusPolicy::Strict,
            ),
    {
        callback_outcome("trace", operation, timeout, outcome, StatusPolicy::Strict)
    }

    /// Whether an export gets as far as converting its batch: the exporter is not shut down and
    /// has its callback.
    pub fn ready(&self) -> (r: Result<usize, OTelSdkError>)
        ensures
            match export_refusal(
                self.shutdown,
                self.callbacks.export_spans,
                "custom trace exporter lost its validated export callback"@,
            ) {
                Some(error) => r matches Err(e) && e@ == error,
                None => r == Ok::<usize, OTelSdkError>(self.callbacks.export_spans->0),
            },
    {
        if self.shutdown {
            return Err(OTelSdkError::AlreadyShutdown);
        }
        match self.callbacks.export_spans {
            Some(callback) => Ok(callback),
            None => Err(
                OTelSdkError::InternalFailure(
                    "custom trace exporter lost its validated export callback".to_owned(),
                ),
            ),
        }
    }

    /// Decides what exporting a batch does once its conversion ended this way. The batch is
    /// converted before the callback runs, so the callback never sees a part of it.
    pub fn export(&self, errors: &mut ErrorState, conversion: Result<(), SpanConversionError>) -> (r:
        CallbackStep)
        ensures
            match export_refusal(
                self.shutdown,
                self.callbacks.export_spans,
                "custom trace exporter lost its validated export callback"@,
            ) {
                Some(error) => {
                    &&& *final(errors) == *old(errors)
                    &&& r matches CallbackStep::Done(result)
                    &&& result_view(result) == Err::<(), SdkErrorView>(error)
                },
                None => match conversion {
                    Err(error) => {
                        &&& final(errors).holds(error.status, error.message@)
                        &&& r matches CallbackStep::Done(result)
                        &&& result_view(result) == Err::<(), SdkErrorView>(
                            SdkErrorView::InternalFailure(error.message@),
                        )
                    },
                    Ok(_) => {
                        &&& *final(errors) == *old(errors)
                        &&& r == (CallbackStep::Invoke {
                            callback: self.callbacks.export_spans->0,
                            user_data: self.user_data,
                        })
                    },
                },
            },
    {
        let callback: usize = match self.ready() {
            Ok(callback) => callback,
            Err(error) => return CallbackStep::Done(Err(error)),
        };
        match conversion {
            Ok(_) => CallbackStep::Invoke { callback, user_data: self.user_data },
            Err(error) => {
                fail_owned(errors, error.status, error.message.as_str().to_owned());
                CallbackStep::Done(Err(OTelSdkError::InternalFailure(error.message)))
            },
        }
    }

    /// Decides what a flush does.
    pub fn force_flush(&self) -> (r: CallbackStep)
        ensures
            flush_step(r, self.shutdown, self.callbacks.force_flush, self.user_data),
    {
        begin_flush(self.shutdown, self.callbacks.force_flush, self.user_data)
    }

    /// Decides what a shutdown does. Only the first one reaches the callback.
    pub fn shutdown(&mut self, timeout: Duration) -> (r: ShutdownStep)
        requires
            timeout.wf(),
        ensures
            *final(self) == (CustomTraceExporter { shutdown: true, ..*old(self) }),
            shutdown_step(
                r,
                old(self).shutdown,
                old(self).callbacks.shutdown,
                old(self).user_data,
                timeout,
            ),
    {
        begin_shutdown(&mut self.shutdown, self.callbacks.shutdown, self.user_data, timeout)
    }

    /// Replaces the resource.
    pub fn set_resource(&mut self, resource: Resource)
        ensures
            *final(self) == (CustomTraceExporter { resource, ..*old(self) }),
    {
        self.resource = resource;
    }

    /// Gives the exporter up: it is shut down with a budget of five seconds unless it was before,
    /// and its state is released.
    pub fn release(self) -> (r: ReleasePlan)
        ensures
            release_plan(
                r,
                self.shutdown,
                self.callbacks.shutdown,
                self.callbacks.state_destroy,
                self.user_data,
            ),
    {
        begin_release(
            self.shutdown,
            self.callbacks.shutdown,
            self.callbacks.state_destroy,
            self.user_data,
        )
    }
}

/// The size that a table announces in its first word.
pub open spec fn announced_size(words: Seq<usize>) -> usize {
    if words.len() > 0 {
        words[0]
    } else {
        0
    }
}

/// Why a callback table is refused, if it is.
pub open spec fn trace_callbacks_fault(
    words: Option<Seq<usize>>,
    layout: TraceCallbackLayout,
) -> Option<(OtelStatus, Seq<char>)> {
    match words {
        None => Some(
            (OtelStatus::InvalidArgument, "custom trace exporter callbacks must not be NULL"@),
        ),
        Some(words) => if announced_size(words) < layout.export_spans_end {
            Some(
                (
                    OtelStatus::InvalidConfig,
                    "custom trace exporter callback structure is smaller than the required ABI size"@,
                ),
            )
        } else if callback_word(words, 1) is None {
            Some((OtelStatus::InvalidConfig, "custom trace exporter requires an export callback"@))
        } else {
            None
        },
    }
}

/// Creates a Traces exporter backed by C callbacks, whose table is given by its words. It owns
/// the callback state only on success.
pub fn otel_custom_trace_exporter_new<E>(
    errors: &mut ErrorState,
    callbacks: Option<&[usize]>,
    layout: TraceCallbackLayout,
    user_data: usize,
    out: Option<&mut Option<OtelTraceExporter<E>>>,
) -> (r: OtelStatus)
    ensures
        out is None ==> r == OtelStatus::InvalidArgument && final(errors).holds(
            OtelStatus::InvalidArgument,
            "out pointer must not be NULL"@,
        ),
        out matches Some(slot) ==> match trace_callbacks_fault(
            match callbacks {
                Some(words) => Some(words@),
                None => None,
            },
            layout,
        ) {
            Some((status, message)) => r == status && final(errors).holds(status, message)
                && *final(slot) is None,
            None => {
                &&& r == OtelStatus::Success
                &&& final(errors).is_clear()
                &&& *final(slot) matches Some(handle)
                &&& is_valid(handle)
                &&& handle.exporter matches TraceExporterImpl::Custom(exporter)
                &&& exporter.callbacks == table_of(
                    (callbacks->0)@,
                    announced_size((callbacks->0)@),
                    layout,
                )
                &&& exporter.user_data == user_data
                &&& !exporter.shutdown
                &&& exporter.resource.schema_url is None
                &&& exporter.resource.attributes@.len() == 0
            },
        },
{
    clear_last_error(errors);
    let slot = match out {
        None => return fail(errors, OtelStatus::InvalidArgument, "out pointer must not be NULL"),
        Some(slot) => slot,
    };
    *slot = None;
    let words = match callbacks {
        None => return fail(
            errors,
            OtelStatus::InvalidArgument,
            "custom trace exporter callbacks must not be NULL",
        ),
        Some(words) => words,
    };
    let struct_size: usize = if words.len() > 0 {
        words[0]
    } else {
        0
    };
    if struct_size < layout.export_spans_end {
        return fail(
            errors,
            OtelStatus::InvalidConfig,
            "custom trace exporter callback structure is smaller than the required ABI size",
        );
    }
    let table = read_callbacks(words, struct_size, layout);
    if table.export_spans.is_none() {
        return fail(
            errors,
            OtelStatus::InvalidConfig,
            "custom trace exporter requires an export callback",
        );
    }
    let exporter = CustomTraceExporter {
        callbacks: table,
        user_data,
        resource: Resource { schema_url: None, attributes: Vec::new() },
        shutdown: false,
    };
    *slot = Some(OtelTraceExporter::new(TraceExporterImpl::Custom(exporter)));
    OtelStatus::Success
}

} // verus!
