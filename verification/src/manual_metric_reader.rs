//! Metrics readers that the application drives.
//!
//! A flush collects, exports and flushes the exporter; the caller does the work and hands each
//! result back.

use vstd::prelude::*;

use crate::abi::OtelStatus;
use crate::error::{clear_last_error, fail, ErrorState, OTelSdkError, OTelSdkResult};
use crate::handle::{
    handle_checked, is_valid, refused_handle, take, HasHandleHeader, OtelHandleHeader,
    OTEL_HANDLE_KIND_MANUAL_METRIC_READER,
};
use crate::metric_exporter::{MetricExporterImpl, OtelMetricExporter};
use crate::time::Duration;

verus! {

/// A reader with the exporter it owns.
#[derive(Debug)]
pub struct ManualMetricReader<E> {
    pub exporter: MetricExporterImpl<E>,
    /// A pipeline was registered, so its provider shuts the reader down.
    pub registered: bool,
    pub shutdown: bool,
}

/// Owns a reader until it is transferred or destroyed.
#[derive(Debug)]
pub struct OtelManualMetricReader<E> {
    pub header: OtelHandleHeader,
    pub reader: ManualMetricReader<E>,
}

impl<E> HasHandleHeader for OtelManualMetricReader<E> {
    open spec fn spec_type_kind() -> u64 {
        OTEL_HANDLE_KIND_MANUAL_METRIC_READER
    }

    open spec fn spec_header(&self) -> OtelHandleHeader {
        self.header
    }

    open spec fn with_header(self, header: OtelHandleHeader) -> Self {
        OtelManualMetricReader { header, ..self }
    }

    fn type_kind() -> u64 {
        OTEL_HANDLE_KIND_MANUAL_METRIC_READER
    }

    fn header(&self) -> OtelHandleHeader {
        self.header
    }

    fn set_header(&mut self, header: OtelHandleHeader) {
        self.header = header;
    }
}

/// How far a flush has come.
#[derive(Clone, Copy, Debug, PartialEq, Eq, Structural)]
pub enum FlushPhase {
    Started,
    Collected,
    Exported,
    Flushed,
}

/// What a flush does next.
#[derive(Debug)]
pub enum FlushStep {
    Collect,
    Export,
    Flush,
    Done(OTelSdkResult),
}

/// What follows a phase that ended with this result: the first failure ends the flush.
pub open spec fn flush_follows(phase: FlushPhase, result: OTelSdkResult) -> FlushStep {
    match phase {
        FlushPhase::Started => FlushStep::Collect,
        FlushPhase::Collected => if result is Ok {
            FlushStep::Export
        } else {
            FlushStep::Done(result)
        },
        FlushPhase::Exported => if result is Ok {
            FlushStep::Flush
        } else {
            FlushStep::Done(result)
        },
        FlushPhase::Flushed => FlushStep::Done(result),
    }
}

/// What a shutdown does next.
#[derive(Debug)]
pub enum ReaderShutdown {
    /// It was shut down before.
    Refused(OTelSdkError),
    /// The collecting side and the exporter are both to be shut down with this budget.
    Both(Duration),
}

/// What a shutdown does: only the first one has an effect.
pub open spec fn reader_shutdown(was_shut_down: bool, timeout: Duration) -> ReaderShutdown {
    if was_shut_down {
        ReaderShutdown::Refused(OTelSdkError::AlreadyShutdown)
    } else {
        ReaderShutdown::Both(timeout)
    }
}

impl<E> ManualMetricReader<E> {
    /// Decides what follows a phase of a flush. The result of the start is not looked at.
    pub fn force_flush(&self, phase: FlushPhase, result: OTelSdkResult) -> (r: FlushStep)
        ensures
            r == flush_follows(phase, result),
    {
        match phase {
            FlushPhase::Started => FlushStep::Collect,
            FlushPhase::Collected => match result {
                Ok(_) => FlushStep::Export,
                Err(error) => FlushStep::Done(Err(error)),
            },
            FlushPhase::Exported => match result {
                Ok(_) => FlushStep::Flush,
                Err(error) => FlushStep::Done(Err(error)),
            },
            FlushPhase::Flushed => FlushStep::Done(result),
        }
    }

    /// Notes that a pipeline was registered.
    pub fn register_pipeline(&mut self)
        ensures
            *final(self) == (ManualMetricReader { registered: true, ..*old(self) }),
    {
        self.registered = true;
    }

    /// Decides what a shutdown does. Only the first one has an effect.
    pub fn shutdown(&mut self, timeout: Duration) -> (r: ReaderShutdown)
        ensures
            *final(self) == (ManualMetricReader { shutdown: true, ..*old(self) }),
            r == reader_shutdown(old(self).shutdown, timeout),
    {
        if self.shutdown {
            return ReaderShutdown::Refused(OTelSdkError::AlreadyShutdown);
        }
        self.shutdown = true;
        ReaderShutdown::Both(timeout)
    }

    /// Decides what giving the reader up does: unless a pipeline was registered, it is shut down
    /// with a budget of five seconds.
    pub fn shutdown_unregistered(&mut self) -> (r: Option<ReaderShutdown>)
        ensures
            old(self).registered ==> r is None && *final(self) == *old(self),
            !old(self).registered ==> {
                &&& *final(self) == (ManualMetricReader { shutdown: true, ..*old(self) })
                &&& r == Some(
                    reader_shutdown(old(self).shutdown, Duration { secs: 5, nanos: 0 }),
                )
            },
    {
        if self.registered {
            return None;
        }
        Some(self.shutdown(Duration::from_secs(5)))
    }
}

/// The result of a shutdown of both sides: the failure of the collecting side, else the result of
/// the exporter.
pub fn shutdown_result(reader: OTelSdkResult, exporter: OTelSdkResult) -> (r: OTelSdkResult)
    ensures
        r == (if reader is Err {
            reader
        } else {
            exporter
        }),
{
    match reader {
        Ok(_) => exporter,
        Err(error) => Err(error),
    }
}

/// Transfers an exporter into a new reader. A refused call leaves the exporter with the caller.
pub fn otel_manual_metric_reader_new<E>(
    errors: &mut ErrorState,
    exporter: &mut Option<OtelMetricExporter<E>>,
    out: Option<&mut Option<OtelManualMetricReader<E>>>,
) -> (r: OtelStatus)
    ensures
        match out {
            None => {
                &&& r == OtelStatus::InvalidArgument
                &&& final(errors).holds(
                    OtelStatus::InvalidArgument,
                    "out pointer must not be NULL"@,
                )
                &&& *final(exporter) == *old(exporter)
            },
            Some(slot) => if *old(exporter) matches Some(handle) && is_valid(handle) {
                &&& r == OtelStatus::Success
                &&& final(errors).is_clear()
                &&& *final(exporter) is None
                &&& *final(slot) matches Some(reader)
                &&& is_valid(reader)
                &&& reader.reader == (ManualMetricReader {
                    exporter: (*old(exporter))->0.exporter,
                    registered: false,
                    shutdown: false,
                })
            } else {
                &&& refused_handle(*old(exporter), r, *final(errors))
                &&& *final(exporter) == *old(exporter)
                &&& *final(slot) is None
            },
        },
{
    clear_last_error(errors);
    let slot = match out {
        None => return fail(errors, OtelStatus::InvalidArgument, "out pointer must not be NULL"),
        Some(slot) => slot,
    };
    *slot = None;
    match take(errors, exporter) {
        Some(owned) => {
            let reader = ManualMetricReader {
                exporter: owned.exporter,
                registered: false,
                shutdown: false,
            };
            *slot =
            Some(
                OtelManualMetricReader {
                    header: OtelHandleHeader::new(OTEL_HANDLE_KIND_MANUAL_METRIC_READER),
                    reader,
                },
            );
            OtelStatus::Success
        },
        None => OtelStatus::InvalidArgument,
    }
}

/// Destroys a reader handle that was not transferred and hands out the reader to be given up.
/// Anything but a valid handle is left alone, and its diagnostic recorded.
pub fn otel_manual_metric_reader_destroy<E>(
    errors: &mut ErrorState,
    reader: &mut Option<OtelManualMetricReader<E>>,
) -> (r: Option<(ManualMetricReader<E>, Option<ReaderShutdown>)>)
    ensures
        handle_checked(*old(reader), *old(errors), *final(errors)),
        if *old(reader) matches Some(handle) && is_valid(handle) {
            let before = (*old(reader))->0.reader;
            &&& *final(reader) is None
            &&& r matches Some((after, step))
            &&& if before.registered {
                step is None && after == before
            } else {
                &&& after == (ManualMetricReader { shutdown: true, ..before })
                &&& step == Some(
                    reader_shutdown(before.shutdown, Duration { secs: 5, nanos: 0 }),
                )
            }
        } else {
            r is None && *final(reader) == *old(reader)
        },
{
    match take(errors, reader) {
        Some(handle) => {
            let mut reader = handle.reader;
            let step = reader.shutdown_unregistered();
            Some((reader, step))
        },
        None => None,
    }
}

/// Of any number of shutdowns, each told whether another came before it, only the first reaches
/// the collecting side and the exporter.
pub proof fn readers_shut_down_once(steps: Seq<ReaderShutdown>, timeouts: Seq<Duration>, n: int)
    requires
        forall|i: int|
            0 <= i < steps.len() ==> #[trigger] steps[i] == reader_shutdown(i > 0, timeouts[i]),
        0 <= n < steps.len(),
    ensures
        steps[n] is Both <==> n == 0,
        n > 0 ==> steps[n] == ReaderShutdown::Refused(OTelSdkError::AlreadyShutdown),
{
}

/// A flush runs its phases in order and stops at the first that fails: it exports only what was
/// collected, and flushes the exporter only after an export that succeeded.
pub proof fn flush_stops_at_first_failure(
    collected: OTelSdkResult,
    exported: OTelSdkResult,
    flushed: OTelSdkResult,
)
    ensures
        flush_follows(FlushPhase::Collected, collected) == FlushStep::Export <==> collected is Ok,
        collected is Err ==> flush_follows(FlushPhase::Collected, collected) == FlushStep::Done(
            collected,
        ),
        flush_follows(FlushPhase::Exported, exported) == FlushStep::Flush <==> exported is Ok,
        exported is Err ==> flush_follows(FlushPhase::Exported, exported) == FlushStep::Done(
            exported,
        ),
        flush_follows(FlushPhase::Flushed, flushed) == FlushStep::Done(flushed),
{
}

} // verus!
