//! What the settings of log processors and metric readers come to: each setting reaches what is
//! built on its own, and an exporter has one owner all the way.

use vstd::prelude::*;

use crate::abi::OtelStatus;
use crate::error::{ErrorState, OTelSdkError, OTelSdkResult};
use crate::features::Features;
use crate::grpc_runtime::{dispose_grpc_runtime, grpc_export_gate, RuntimeDisposal};
use crate::handle::is_valid;
use crate::log_exporter::{LogExporterImpl, OtelLogExporter};
use crate::log_processor::{
    builder_has_exporter, otel_batch_log_processor_builder_build,
    otel_batch_log_processor_builder_destroy, otel_batch_log_processor_builder_new,
    otel_batch_log_processor_builder_set_exporter,
    otel_batch_log_processor_builder_set_max_export_batch_size,
    otel_batch_log_processor_builder_set_max_queue_size,
    otel_batch_log_processor_builder_set_scheduled_delay_millis, otel_simple_log_processor_create,
    LogProcessorImpl, OtelBatchLogProcessorBuilder, OtelLogProcessor,
};
use crate::manual_metric_reader::{
    otel_manual_metric_reader_destroy, otel_manual_metric_reader_new, shutdown_result, FlushPhase,
    FlushStep, ManualMetricReader, OtelManualMetricReader, ReaderShutdown,
};
use crate::metric_exporter::{MetricExporterImpl, OtelMetricExporter};
use crate::periodic_metric_reader::{
    otel_periodic_metric_reader_builder_build, otel_periodic_metric_reader_builder_destroy,
    otel_periodic_metric_reader_builder_new, otel_periodic_metric_reader_builder_set_exporter,
    otel_periodic_metric_reader_builder_set_interval_millis, otel_periodic_metric_reader_destroy,
    OtelPeriodicMetricReader, OtelPeriodicMetricReaderBuilder, PeriodicMetricReader,
};
use crate::time::Duration;

verus! {

/// The handle is there, live and of its own kind.
pub open spec fn usable<T: crate::handle::HasHandleHeader>(handle: Option<T>) -> bool {
    handle matches Some(h) && is_valid(h)
}

/// A simple processor takes a live exporter over and nothing else, and leaves an exporter that it
/// does not take with the caller.
pub proof fn simple_processor_takes_its_exporter<E>(
    errors: &mut ErrorState,
    exporter: &mut Option<OtelLogExporter<E>>,
    out: &mut Option<OtelLogProcessor<E>>,
    r: OtelStatus,
)
    requires
        call_ensures(otel_simple_log_processor_create::<E>, (errors, exporter, Some(out)), r),
    ensures
        r == OtelStatus::Success <==> usable(*old(exporter)),
        r == OtelStatus::Success ==> {
            &&& *final(exporter) is None
            &&& *final(out) matches Some(processor)
            &&& is_valid(processor)
            &&& processor.processor matches LogProcessorImpl::Simple(owned)
            &&& owned == (*old(exporter))->0.exporter
        },
        r != OtelStatus::Success ==> *final(exporter) == *old(exporter) && *final(out) is None,
{
}

/// A new batch processor builder leaves every setting to its default.
pub proof fn new_batch_builder_has_defaults<E>(
    errors: &mut ErrorState,
    r: OtelBatchLogProcessorBuilder<E>,
)
    requires
        call_ensures(otel_batch_log_processor_builder_new::<E>, (errors,), r),
    ensures
        is_valid(r),
        r.config.exporter is None,
        r.config.max_queue_size is None,
        r.config.max_export_batch_size is None,
        r.config.scheduled_delay_millis is None,
{
}

/// Setting the queue size keeps it, or the default where it is zero, and changes nothing else.
pub proof fn queue_size_is_kept<E>(
    errors: &mut ErrorState,
    builder: &mut OtelBatchLogProcessorBuilder<E>,
    size: usize,
    r: OtelStatus,
)
    requires
        is_valid(*old(builder)),
        call_ensures(
            otel_batch_log_processor_builder_set_max_queue_size::<E>,
            (errors, Some(builder), size),
            r,
        ),
    ensures
        r == OtelStatus::Success,
        is_valid(*final(builder)),
        size == 0 ==> final(builder).config.max_queue_size is None,
        size > 0 ==> final(builder).config.max_queue_size == Some(size),
        final(builder).config.max_export_batch_size == old(builder).config.max_export_batch_size,
        final(builder).config.scheduled_delay_millis == old(builder).config.scheduled_delay_millis,
        final(builder).config.exporter == old(builder).config.exporter,
{
}

/// Setting the batch size keeps it, or the default where it is zero, and changes nothing else.
pub proof fn batch_size_is_kept<E>(
    errors: &mut ErrorState,
    builder: &mut OtelBatchLogProcessorBuilder<E>,
    size: usize,
    r: OtelStatus,
)
    requires
        is_valid(*old(builder)),
        call_ensures(
            otel_batch_log_processor_builder_set_max_export_batch_size::<E>,
            (errors, Some(builder), size),
            r,
        ),
    ensures
        r == OtelStatus::Success,
        is_valid(*final(builder)),
        size == 0 ==> final(builder).config.max_export_batch_size is None,
        size > 0 ==> final(builder).config.max_export_batch_size == Some(size),
        final(builder).config.max_queue_size == old(builder).config.max_queue_size,
        final(builder).config.scheduled_delay_millis == old(builder).config.scheduled_delay_millis,
        final(builder).config.exporter == old(builder).config.exporter,
{
}

/// Setting the delay keeps it, or the default where it is zero, and changes nothing else.
pub proof fn scheduled_delay_is_kept<E>(
    errors: &mut ErrorState,
    builder: &mut OtelBatchLogProcessorBuilder<E>,
    millis: u64,
    r: OtelStatus,
)
    requires
        is_valid(*old(builder)),
        call_ensures(
            otel_batch_log_processor_builder_set_scheduled_delay_millis::<E>,
            (errors, Some(builder), millis),
            r,
        ),
    ensures
        r == OtelStatus::Success,
        is_valid(*final(builder)),
        millis == 0 ==> final(builder).config.scheduled_delay_millis is None,
        millis > 0 ==> final(builder).config.scheduled_delay_millis == Some(millis),
        final(builder).config.max_queue_size == old(builder).config.max_queue_size,
        final(builder).config.max_export_batch_size == old(builder).config.max_export_batch_size,
        final(builder).config.exporter == old(builder).config.exporter,
{
}

/// Setting the exporter moves it out of its handle into the builder, hands out the one that it
/// replaces, and changes nothing else. An exporter that is not taken stays with the caller.
pub proof fn batch_exporter_moves_in<E>(
    errors: &mut ErrorState,
    builder: &mut OtelBatchLogProcessorBuilder<E>,
    exporter: &mut Option<OtelLogExporter<E>>,
    r: (OtelStatus, Option<LogExporterImpl<E>>),
)
    requires
        is_valid(*old(builder)),
        call_ensures(
            otel_batch_log_processor_builder_set_exporter::<E>,
            (errors, Some(builder), exporter),
            r,
        ),
    ensures
        r.0 == OtelStatus::Success <==> usable(*old(exporter)),
        r.0 == OtelStatus::Success ==> {
            &&& *final(exporter) is None
            &&& final(builder).config.exporter == Some((*old(exporter))->0.exporter)
            &&& r.1 == old(builder).config.exporter
        },
        r.0 != OtelStatus::Success ==> {
            &&& *final(exporter) == *old(exporter)
            &&& final(builder).config.exporter == old(builder).config.exporter
            &&& r.1 is None
        },
        is_valid(*final(builder)),
        final(builder).config.max_queue_size == old(builder).config.max_queue_size,
        final(builder).config.max_export_batch_size == old(builder).config.max_export_batch_size,
        final(builder).config.scheduled_delay_millis == old(builder).config.scheduled_delay_millis,
{
}

/// Each setting reaches a batch processor on its own: the queue size, the batch size and the delay,
/// of exactly the set milliseconds, are there exactly when they were set, whatever the others are.
/// The processor owns the exporter that the builder held, which keeps everything else.
pub proof fn batch_settings_reach_the_processor<E>(
    errors: &mut ErrorState,
    builder: &mut OtelBatchLogProcessorBuilder<E>,
    out: &mut Option<OtelLogProcessor<E>>,
    r: OtelStatus,
)
    requires
        is_valid(*old(builder)),
        call_ensures(
            otel_batch_log_processor_builder_build::<E>,
            (errors, Some(builder), Some(out)),
            r,
        ),
        r == OtelStatus::Success,
    ensures
        *final(out) matches Some(handle) && is_valid(handle),
        (*final(out))->0.processor matches LogProcessorImpl::Batch { exporter, config } && {
            &&& old(builder).config.exporter == Some(exporter)
            &&& config.scheduled_delay is Some
                <==> old(builder).config.scheduled_delay_millis is Some
            &&& old(builder).config.scheduled_delay_millis matches Some(millis)
                ==> (config.scheduled_delay->0).lasts(millis as int)
            &&& config.max_queue_size is Some <==> old(builder).config.max_queue_size is Some
            &&& old(builder).config.max_queue_size matches Some(size) ==> config.max_queue_size->0
                == size
            &&& config.max_export_batch_size is Some
                <==> old(builder).config.max_export_batch_size is Some
            &&& old(builder).config.max_export_batch_size matches Some(size)
                ==> config.max_export_batch_size->0 == size
        },
        is_valid(*final(builder)),
        final(builder).config.exporter is None,
        final(builder).config.max_queue_size == old(builder).config.max_queue_size,
        final(builder).config.max_export_batch_size == old(builder).config.max_export_batch_size,
        final(builder).config.scheduled_delay_millis == old(builder).config.scheduled_delay_millis,
{
}

/// A batch processor is built exactly when the builder has an exporter and no batch size above the
/// queue size, both being set. A build that is refused is misconfigured and leaves the builder as
/// it is.
pub proof fn batch_processor_is_owed<E>(
    errors: &mut ErrorState,
    builder: &mut OtelBatchLogProcessorBuilder<E>,
    out: &mut Option<OtelLogProcessor<E>>,
    r: OtelStatus,
)
    requires
        is_valid(*old(builder)),
        call_ensures(
            otel_batch_log_processor_builder_build::<E>,
            (errors, Some(builder), Some(out)),
            r,
        ),
    ensures
        r == OtelStatus::Success <==> {
            &&& old(builder).config.exporter is Some
            &&& old(builder).config.max_queue_size is None
                || old(builder).config.max_export_batch_size is None
                || old(builder).config.max_export_batch_size->0
                <= old(builder).config.max_queue_size->0
        },
        r != OtelStatus::Success ==> r == OtelStatus::InvalidConfig && *final(builder)
            == *old(builder) && *final(out) is None,
{
}

/// Whether a builder holds an exporter is told as it is.
pub proof fn held_exporter_is_seen<E>(
    errors: &mut ErrorState,
    builder: &OtelBatchLogProcessorBuilder<E>,
    r: bool,
)
    requires
        is_valid(*builder),
        call_ensures(builder_has_exporter::<E>, (errors, Some(builder)), r),
    ensures
        r <==> builder.config.exporter is Some,
{
}

/// Destroying a batch processor builder hands out the exporter that it still held, once.
pub proof fn destroyed_batch_builder_hands_out_its_exporter<E>(
    builder: &mut Option<OtelBatchLogProcessorBuilder<E>>,
    r: Option<LogExporterImpl<E>>,
)
    requires
        call_ensures(otel_batch_log_processor_builder_destroy::<E>, (builder,), r),
    ensures
        usable(*old(builder)) ==> *final(builder) is None && r == (*old(builder))->0.config.exporter,
        !usable(*old(builder)) ==> *final(builder) == *old(builder) && r is None,
{
}

/// A new periodic reader builder has neither an interval nor an exporter.
pub proof fn new_periodic_builder_has_defaults<E>(
    errors: &mut ErrorState,
    r: OtelPeriodicMetricReaderBuilder<E>,
)
    requires
        call_ensures(otel_periodic_metric_reader_builder_new::<E>, (errors,), r),
    ensures
        is_valid(r),
        r.interval is None,
        r.exporter is None,
{
}

/// Setting the interval keeps exactly so many milliseconds, or the default where they are zero, and
/// changes nothing else.
pub proof fn interval_is_kept<E>(
    errors: &mut ErrorState,
    builder: &mut OtelPeriodicMetricReaderBuilder<E>,
    millis: u64,
    r: OtelStatus,
)
    requires
        is_valid(*old(builder)),
        call_ensures(
            otel_periodic_metric_reader_builder_set_interval_millis::<E>,
            (errors, Some(builder), millis),
            r,
        ),
    ensures
        r == OtelStatus::Success,
        is_valid(*final(builder)),
        millis == 0 <==> final(builder).interval is None,
        final(builder).interval matches Some(interval) ==> interval.lasts(millis as int),
        final(builder).exporter == old(builder).exporter,
{
}

/// A periodic reader builder takes one exporter: a second one stays with the caller, as does one
/// that is not live.
pub proof fn periodic_exporter_moves_in_once<E>(
    errors: &mut ErrorState,
    builder: &mut OtelPeriodicMetricReaderBuilder<E>,
    exporter: &mut Option<OtelMetricExporter<E>>,
    r: OtelStatus,
)
    requires
        is_valid(*old(builder)),
        call_ensures(
            otel_periodic_metric_reader_builder_set_exporter::<E>,
            (errors, Some(builder), exporter),
            r,
        ),
    ensures
        r == OtelStatus::Success <==> old(builder).exporter is None && usable(*old(exporter)),
        r == OtelStatus::Success ==> *final(exporter) is None && final(builder).exporter == Some(
            (*old(exporter))->0.exporter,
        ),
        r != OtelStatus::Success ==> *final(exporter) == *old(exporter) && final(builder).exporter
            == old(builder).exporter,
        old(builder).exporter is Some ==> r == OtelStatus::InvalidConfig,
        is_valid(*final(builder)),
        final(builder).interval == old(builder).interval,
{
}

/// A periodic reader is built exactly when there is an exporter that needs no transport or a
/// transport is built in. It has the interval and the exporter of the builder; an exporter that
/// gets no reader is handed out.
pub proof fn periodic_settings_reach_the_reader<E>(
    errors: &mut ErrorState,
    features: Features,
    builder: &mut OtelPeriodicMetricReaderBuilder<E>,
    out: &mut Option<OtelPeriodicMetricReader<E>>,
    r: (OtelStatus, Option<MetricExporterImpl<E>>),
)
    requires
        is_valid(*old(builder)),
        call_ensures(
            otel_periodic_metric_reader_builder_build::<E>,
            (errors, features, Some(builder), Some(out)),
            r,
        ),
    ensures
        r.0 == OtelStatus::Success <==> (old(builder).exporter matches Some(exporter) && (
        exporter is Custom || features.otlp_http || features.otlp_grpc)),
        r.0 == OtelStatus::Success ==> {
            &&& *final(out) matches Some(handle)
            &&& is_valid(handle)
            &&& Some(handle.reader.exporter) == old(builder).exporter
            &&& handle.reader.interval == old(builder).interval
            &&& r.1 is None
        },
        r.0 != OtelStatus::Success ==> {
            &&& r.0 == OtelStatus::InvalidConfig
            &&& *final(out) is None
            &&& r.1 == old(builder).exporter
        },
        final(builder).exporter is None,
        final(builder).interval == old(builder).interval,
{
}

/// Destroying a periodic reader builder hands out the exporter that it still held, once.
pub proof fn destroyed_periodic_builder_hands_out_its_exporter<E>(
    builder: &mut Option<OtelPeriodicMetricReaderBuilder<E>>,
    r: Option<MetricExporterImpl<E>>,
)
    requires
        call_ensures(otel_periodic_metric_reader_builder_destroy::<E>, (builder,), r),
    ensures
        usable(*old(builder)) ==> *final(builder) is None && r == (*old(builder))->0.exporter,
        !usable(*old(builder)) ==> *final(builder) == *old(builder) && r is None,
{
}

/// Destroying a periodic reader hands it out, once.
pub proof fn destroyed_periodic_reader_is_handed_out<E>(
    errors: &mut ErrorState,
    reader: &mut Option<OtelPeriodicMetricReader<E>>,
    r: Option<PeriodicMetricReader<E>>,
)
    requires
        call_ensures(otel_periodic_metric_reader_destroy::<E>, (errors, reader), r),
    ensures
        usable(*old(reader)) ==> *final(reader) is None && r == Some((*old(reader))->0.reader),
        !usable(*old(reader)) ==> *final(reader) == *old(reader) && r is None,
{
}

/// A manual reader takes a live exporter over, and starts neither registered nor shut down. An
/// exporter that is not taken stays with the caller.
pub proof fn manual_reader_takes_its_exporter<E>(
    errors: &mut ErrorState,
    exporter: &mut Option<OtelMetricExporter<E>>,
    out: &mut Option<OtelManualMetricReader<E>>,
    r: OtelStatus,
)
    requires
        call_ensures(otel_manual_metric_reader_new::<E>, (errors, exporter, Some(out)), r),
    ensures
        r == OtelStatus::Success <==> usable(*old(exporter)),
        r == OtelStatus::Success ==> {
            &&& *final(exporter) is None
            &&& *final(out) matches Some(handle)
            &&& is_valid(handle)
            &&& handle.reader.exporter == (*old(exporter))->0.exporter
            &&& !handle.reader.registered
            &&& !handle.reader.shutdown
        },
        r != OtelStatus::Success ==> *final(exporter) == *old(exporter) && *final(out) is None,
{
}

/// Of two shutdowns of a manual reader only the first has an effect: it reaches both sides with the
/// budget that it was given, and the second is refused.
pub proof fn manual_reader_shuts_down_once<E>(
    reader: &mut ManualMetricReader<E>,
    again: &mut ManualMetricReader<E>,
    timeout: Duration,
    later: Duration,
    first: ReaderShutdown,
    second: ReaderShutdown,
)
    requires
        !old(reader).shutdown,
        call_ensures(ManualMetricReader::<E>::shutdown, (reader, timeout), first),
        *old(again) == *final(reader),
        call_ensures(ManualMetricReader::<E>::shutdown, (again, later), second),
    ensures
        first matches ReaderShutdown::Both(budget) && budget.secs == timeout.secs && budget.nanos
            == timeout.nanos,
        second matches ReaderShutdown::Refused(error) && error is AlreadyShutdown,
        final(reader).exporter == old(reader).exporter,
        final(reader).registered == old(reader).registered,
{
}

/// A reader that is given up is shut down with five seconds, unless a pipeline was registered with
/// it, whose provider shuts it down.
pub proof fn registered_readers_are_left_to_their_provider<E>(
    reader: &mut ManualMetricReader<E>,
    given_up: &mut ManualMetricReader<E>,
    step: Option<ReaderShutdown>,
    fresh: &mut ManualMetricReader<E>,
    other: Option<ReaderShutdown>,
)
    requires
        call_ensures(ManualMetricReader::<E>::register_pipeline, (reader,), ()),
        *old(given_up) == *final(reader),
        call_ensures(ManualMetricReader::<E>::shutdown_unregistered, (given_up,), step),
        !old(fresh).registered,
        !old(fresh).shutdown,
        call_ensures(ManualMetricReader::<E>::shutdown_unregistered, (fresh,), other),
    ensures
        step is None,
        final(reader).exporter == old(reader).exporter,
        final(reader).shutdown == old(reader).shutdown,
        *final(given_up) == *final(reader),
        other matches Some(ReaderShutdown::Both(budget)) && budget.lasts(5_000),
        final(fresh).shutdown,
        final(fresh).exporter == old(fresh).exporter,
{
}

/// A flush collects first, exports what was collected, and then flushes the exporter; the first
/// failure ends it and is its result.
pub proof fn manual_flush_runs_in_order<E>(
    reader: &ManualMetricReader<E>,
    phase: FlushPhase,
    result: OTelSdkResult,
    step: FlushStep,
)
    requires
        call_ensures(ManualMetricReader::<E>::force_flush, (reader, phase, result), step),
    ensures
        phase is Started ==> step is Collect,
        phase is Collected && result is Ok ==> step is Export,
        phase is Exported && result is Ok ==> step is Flush,
        phase is Flushed ==> step == FlushStep::Done(result),
        !(phase is Started) && result is Err ==> step == FlushStep::Done(result),
{
}

/// The result of a shutdown is the first failure of the two sides, the collecting one first.
pub proof fn shutdown_reports_the_first_failure(
    reader: OTelSdkResult,
    exporter: OTelSdkResult,
    r: OTelSdkResult,
)
    requires
        call_ensures(shutdown_result, (reader, exporter), r),
    ensures
        r is Ok <==> reader is Ok && exporter is Ok,
        reader is Err ==> r == reader,
        reader is Ok && exporter is Err ==> r == exporter,
{
}

/// Destroying a manual reader hands it out, once, and shuts it down with five seconds unless a
/// pipeline was registered with it or it was shut down before.
pub proof fn destroyed_manual_reader_is_shut_down<E>(
    errors: &mut ErrorState,
    reader: &mut Option<OtelManualMetricReader<E>>,
    r: Option<(ManualMetricReader<E>, Option<ReaderShutdown>)>,
)
    requires
        call_ensures(otel_manual_metric_reader_destroy::<E>, (errors, reader), r),
    ensures
        !usable(*old(reader)) ==> *final(reader) == *old(reader) && r is None,
        usable(*old(reader)) ==> {
            let before = (*old(reader))->0.reader;
            &&& *final(reader) is None
            &&& r matches Some((after, step))
            &&& after.exporter == before.exporter
            &&& before.registered ==> step is None
            &&& !before.registered && !before.shutdown ==> (step matches Some(
                ReaderShutdown::Both(budget),
            ) && budget.lasts(5_000))
            &&& !before.registered && before.shutdown ==> (step matches Some(
                ReaderShutdown::Refused(error),
            ) && error is AlreadyShutdown)
            &&& !before.registered ==> after.shutdown
        },
{
}

/// A runtime is dropped on the calling thread only where that thread has entered none, on a thread
/// of its own inside another runtime, and in the background inside itself.
pub proof fn runtimes_are_never_dropped_inside_one(
    current: Option<u64>,
    own: u64,
    r: RuntimeDisposal,
)
    requires
        call_ensures(dispose_grpc_runtime, (current, own), r),
    ensures
        r is Inline <==> current is None,
        r is Background <==> current == Some(own),
        r is NeutralThread <==> (current matches Some(id) && id != own),
{
}

/// A synchronous export blocks on its runtime exactly where the thread has entered none.
pub proof fn exports_block_only_outside_a_runtime(
    signal: &str,
    entered: bool,
    r: Result<(), OTelSdkError>,
)
    requires
        call_ensures(grpc_export_gate, (signal, entered), r),
    ensures
        r is Ok <==> !entered,
        r matches Err(error) ==> error is InternalFailure,
{
}

} // verus!
