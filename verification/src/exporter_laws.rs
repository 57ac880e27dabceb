//! What the callbacks of custom exporters are given and what their answers mean: each operation
//! reaches its own callback with the state that was handed over, and nothing after a shutdown.

use vstd::prelude::*;

use crate::abi::OtelStatus;
use crate::callback::{
    begin_flush, begin_release, begin_shutdown, callback_outcome, CallbackStep, ReleasePlan,
    ShutdownStep, StatusPolicy,
};
use crate::custom_log_exporter::{
    export_step, otel_custom_log_exporter_new, CustomLogExporter, LogExportStep,
    OtelCustomLogExporterCallbacks,
};
use crate::custom_metric_exporter::{
    configured_temporality, otel_custom_metric_exporter_new, CustomMetricExporter,
    MetricExportStep, OtelCustomMetricExporterCallbacks,
};
use crate::custom_trace_exporter::{
    otel_custom_trace_exporter_new, read_callbacks, CustomTraceExporter,
    OtelCustomTraceExporterCallbacks, SpanConversionError, TraceCallbackLayout,
};
use crate::error::{ErrorState, OTelSdkError, OTelSdkResult};
use crate::export_error::ConversionError;
use crate::log_export::{BatchEntry, ExportViewSizes, OtelLogExportBatchView, Resource};
use crate::log_exporter::{
    otel_log_exporter_destroy, LogExporterImpl, LogRelease, OtelLogExporter,
};
use crate::metric_batch::{
    active_batch, ActiveBatches, MetricBatchRegistration, OtelMetricBatch,
};
use crate::metric_data::Temporality;
use crate::metric_exporter::{
    otel_metric_exporter_destroy, MetricExporterImpl, MetricRelease, OtelMetricExporter,
};
use crate::pipeline_laws::usable;
use crate::time::Duration;
use crate::trace_exporter::{
    otel_trace_exporter_destroy, OtelTraceExporter, TraceExporterImpl, TraceRelease,
};

verus! {

/// The milliseconds of a budget: whole ones, rounded down, and no more than the greatest `u64`.
pub open spec fn budget_millis(timeout: Duration) -> int {
    let millis = (timeout.secs * 1_000_000_000 + timeout.nanos) / 1_000_000;
    if millis <= u64::MAX {
        millis
    } else {
        u64::MAX as int
    }
}

/// The first shutdown invokes this callback with this state and this budget, or succeeds where
/// there is no callback.
pub open spec fn shuts_down(
    step: ShutdownStep,
    callback: Option<usize>,
    user_data: usize,
    timeout: Duration,
) -> bool {
    match callback {
        Some(address) => step == (ShutdownStep::Invoke {
            callback: address,
            user_data,
            timeout_millis: budget_millis(timeout) as u64,
        }),
        None => step matches ShutdownStep::Done(r) && r is Ok,
    }
}

/// Giving an exporter up shuts it down with five seconds unless it was shut down before, and
/// releases its state.
pub open spec fn gives_up_state(
    plan: ReleasePlan,
    was_shut_down: bool,
    shutdown: Option<usize>,
    state_destroy: Option<usize>,
    user_data: usize,
) -> bool {
    &&& was_shut_down ==> plan.shutdown == ShutdownStep::Done(Err(OTelSdkError::AlreadyShutdown))
    &&& !was_shut_down ==> match shutdown {
        Some(address) => plan.shutdown == (ShutdownStep::Invoke {
            callback: address,
            user_data,
            timeout_millis: 5_000,
        }),
        None => plan.shutdown matches ShutdownStep::Done(r) && r is Ok,
    }
    &&& plan.destroy == state_destroy
    &&& plan.user_data == user_data
}

/// The answer of a callback means this: success is success, a shutdown and a timeout are those,
/// and everything else, a panic too, is an internal failure.
pub open spec fn answers(
    outcome: Option<OtelStatus>,
    timeout: Duration,
    r: OTelSdkResult,
) -> bool {
    &&& r is Ok <==> outcome == Some(OtelStatus::Success)
    &&& r matches Err(error) ==> {
        &&& error is AlreadyShutdown <==> outcome == Some(OtelStatus::AlreadyShutdown)
        &&& error is Timeout <==> outcome == Some(OtelStatus::Timeout)
        &&& error matches OTelSdkError::Timeout(t) ==> t.secs == timeout.secs && t.nanos
            == timeout.nanos
    }
}

proof fn lemma_same_budget(timeout: Duration)
    requires
        timeout.wf(),
    ensures
        crate::callback::millis_budget(timeout) == budget_millis(timeout),
{
    let secs = timeout.secs as int;
    let nanos = timeout.nanos as int;
    assert((secs * 1_000_000_000 + nanos) / 1_000_000 == secs * 1000 + nanos / 1_000_000);
}

/// A shutdown reaches its callback once: the first call asks for it with the state and the whole
/// milliseconds of the budget, and any later one is refused.
pub proof fn shutdown_is_asked_for_once(
    flag: &mut bool,
    again: &mut bool,
    callback: Option<usize>,
    user_data: usize,
    timeout: Duration,
    later: Duration,
    first: ShutdownStep,
    second: ShutdownStep,
)
    requires
        timeout.wf(),
        !*old(flag),
        call_ensures(begin_shutdown, (flag, callback, user_data, timeout), first),
        *old(again) == *final(flag),
        call_ensures(begin_shutdown, (again, callback, user_data, later), second),
    ensures
        shuts_down(first, callback, user_data, timeout),
        second == ShutdownStep::Done(Err(OTelSdkError::AlreadyShutdown)),
{
    lemma_same_budget(timeout);
}

/// A flush reaches its callback with the state, succeeds where there is none, and is refused after
/// a shutdown.
pub proof fn flush_reaches_its_callback(
    shut_down: bool,
    callback: Option<usize>,
    user_data: usize,
    step: CallbackStep,
)
    requires
        call_ensures(begin_flush, (shut_down, callback, user_data), step),
    ensures
        flushes(step, shut_down, callback, user_data),
{
}

/// A flush does this.
pub open spec fn flushes(
    step: CallbackStep,
    shut_down: bool,
    callback: Option<usize>,
    user_data: usize,
) -> bool {
    &&& shut_down ==> step == CallbackStep::Done(Err(OTelSdkError::AlreadyShutdown))
    &&& !shut_down && callback is None ==> (step matches CallbackStep::Done(r) && r is Ok)
    &&& !shut_down && callback is Some ==> step == (CallbackStep::Invoke {
        callback: callback->0,
        user_data,
    })
}

/// Releasing an exporter shuts it down first, and then releases its state.
pub proof fn release_shuts_down_first(
    was_shut_down: bool,
    shutdown: Option<usize>,
    state_destroy: Option<usize>,
    user_data: usize,
    plan: ReleasePlan,
)
    requires
        call_ensures(begin_release, (was_shut_down, shutdown, state_destroy, user_data), plan),
    ensures
        gives_up_state(plan, was_shut_down, shutdown, state_destroy, user_data),
{
    lemma_same_budget(Duration { secs: 5, nanos: 0 });
}

/// What the answer of a callback means does not depend on the signal or the operation, which only
/// show in its diagnostic.
pub proof fn callback_answers_have_one_meaning(
    signal: &str,
    operation: &str,
    timeout: Duration,
    outcome: Option<OtelStatus>,
    policy: StatusPolicy,
    r: OTelSdkResult,
)
    requires
        call_ensures(callback_outcome, (signal, operation, timeout, outcome, policy), r),
    ensures
        answers(outcome, timeout, r),
{
}

/// Of two shutdowns of a Logs exporter only the first reaches the callback, with its state and its
/// budget, and the second is refused.
pub proof fn log_exporter_shuts_down_once(
    exporter: &mut CustomLogExporter,
    again: &mut CustomLogExporter,
    timeout: Duration,
    later: Duration,
    first: ShutdownStep,
    second: ShutdownStep,
)
    requires
        timeout.wf(),
        !old(exporter).shutdown,
        call_ensures(CustomLogExporter::shutdown, (exporter, timeout), first),
        *old(again) == *final(exporter),
        call_ensures(CustomLogExporter::shutdown, (again, later), second),
    ensures
        shuts_down(
            first,
            old(exporter).callbacks.shutdown,
            old(exporter).user_data,
            timeout,
        ),
        second == ShutdownStep::Done(Err(OTelSdkError::AlreadyShutdown)),
        final(exporter).callbacks == old(exporter).callbacks,
        final(exporter).user_data == old(exporter).user_data,
        final(exporter).resource == old(exporter).resource,
{
    lemma_same_budget(timeout);
}

/// Giving a Logs exporter up shuts it down and releases its state.
pub proof fn log_exporter_is_given_up(exporter: CustomLogExporter, plan: ReleasePlan)
    requires
        call_ensures(CustomLogExporter::release, (exporter,), plan),
    ensures
        gives_up_state(
            plan,
            exporter.shutdown,
            exporter.callbacks.shutdown,
            exporter.callbacks.state_destroy,
            exporter.user_data,
        ),
{
    lemma_same_budget(Duration { secs: 5, nanos: 0 });
}

/// What the answer of a callback of a Logs exporter means.
pub proof fn log_callback_answers(
    exporter: &CustomLogExporter,
    operation: &str,
    timeout: Duration,
    outcome: Option<OtelStatus>,
    r: OTelSdkResult,
)
    requires
        call_ensures(CustomLogExporter::callback_result, (exporter, operation, timeout, outcome), r),
    ensures
        answers(outcome, timeout, r),
{
}

/// A Logs exporter handle is destroyed once: a transport is dropped, and callbacks are given up.
pub proof fn log_handle_is_destroyed_once<E>(
    handle: &mut Option<OtelLogExporter<E>>,
    r: Option<LogRelease<E>>,
)
    requires
        call_ensures(otel_log_exporter_destroy::<E>, (handle,), r),
    ensures
        !usable(*old(handle)) ==> *final(handle) == *old(handle) && r is None,
        usable(*old(handle)) ==> *final(handle) is None && r is Some,
        usable(*old(handle)) ==> match (*old(handle))->0.exporter {
            LogExporterImpl::Otlp(transport) => r == Some(LogRelease::<E>::Drop(transport)),
            LogExporterImpl::Custom(exporter) => r matches Some(LogRelease::Run(plan)) && gives_up_state(
                plan,
                exporter.shutdown,
                exporter.callbacks.shutdown,
                exporter.callbacks.state_destroy,
                exporter.user_data,
            ),
        },
{
    lemma_same_budget(Duration { secs: 5, nanos: 0 });
}

/// Replacing the resource of a Logs exporter changes nothing else.
pub proof fn log_resource_is_replaced(exporter: &mut CustomLogExporter, resource: Resource)
    requires
        call_ensures(CustomLogExporter::set_resource, (exporter, resource), ()),
    ensures
        final(exporter).resource == resource,
        final(exporter).callbacks == old(exporter).callbacks,
        final(exporter).user_data == old(exporter).user_data,
        final(exporter).shutdown == old(exporter).shutdown,
{
}

/// A Logs exporter is made exactly of a table of sufficient size with an export callback. It has
/// the callbacks and the state that it was given, and starts live with an empty resource.
pub proof fn log_exporter_keeps_its_callbacks<E>(
    errors: &mut ErrorState,
    callbacks: Option<OtelCustomLogExporterCallbacks>,
    table_size: usize,
    user_data: usize,
    out: &mut Option<OtelLogExporter<E>>,
    r: OtelStatus,
)
    requires
        call_ensures(
            otel_custom_log_exporter_new::<E>,
            (errors, callbacks, table_size, user_data, Some(out)),
            r,
        ),
    ensures
        r == OtelStatus::Success <==> (callbacks matches Some(table) && table.struct_size
            >= table_size && table.export_logs is Some),
        r == OtelStatus::Success ==> {
            &&& usable(*final(out))
            &&& (*final(out))->0.exporter matches LogExporterImpl::Custom(exporter)
            &&& callbacks matches Some(table)
            &&& exporter.callbacks.export_logs == table.export_logs
            &&& exporter.callbacks.shutdown == table.shutdown
            &&& exporter.callbacks.state_destroy == table.state_destroy
            &&& exporter.user_data == user_data
            &&& !exporter.shutdown
            &&& exporter.resource.attributes@.len() == 0
            &&& exporter.resource.schema_url is None
        },
        r != OtelStatus::Success ==> *final(out) is None,
        callbacks is None ==> r == OtelStatus::InvalidArgument,
        callbacks is Some && r != OtelStatus::Success ==> r == OtelStatus::InvalidConfig,
{
}

/// A Logs exporter that is live hands a batch to its export callback with its state, or fails
/// without reaching it; after a shutdown nothing reaches it.
pub proof fn log_export_reaches_its_callback<'a>(
    exporter: &'a CustomLogExporter,
    errors: &mut ErrorState,
    entries: &[BatchEntry<'a>],
    sizes: ExportViewSizes,
    step: LogExportStep<'a>,
)
    requires
        call_ensures(CustomLogExporter::export, (exporter, errors, entries, sizes), step),
    ensures
        exporter.shutdown ==> step == LogExportStep::Done(Err(OTelSdkError::AlreadyShutdown)),
        step matches LogExportStep::Invoke { callback, user_data, view } ==> {
            &&& !exporter.shutdown
            &&& exporter.callbacks.export_logs == Some(callback)
            &&& user_data == exporter.user_data
            &&& view.records@.len() == entries@.len()
            &&& view.struct_size == sizes.batch
        },
        step matches LogExportStep::Done(result) ==> result is Err,
{
}

/// A conversion that succeeded is followed by the callback, with the view that came of it, and one
/// that failed by a failure with its diagnostic, which the error slot holds too.
pub proof fn log_conversion_decides_the_step<'a>(
    errors: &mut ErrorState,
    callback: usize,
    user_data: usize,
    outcome: Result<OtelLogExportBatchView<'a>, ConversionError>,
    step: LogExportStep<'a>,
)
    requires
        call_ensures(export_step, (errors, callback, user_data, outcome), step),
    ensures
        outcome matches Ok(view) ==> step == (LogExportStep::Invoke { callback, user_data, view }),
        outcome is Err ==> {
            &&& step matches LogExportStep::Done(Err(OTelSdkError::InternalFailure(text)))
            &&& final(errors).last_status == OtelStatus::ExportFailed
            &&& final(errors).message@ == text@
        },
{
}

/// Of two shutdowns of a Metrics exporter only the first reaches the callback, with its state and its
/// budget, and the second is refused.
pub proof fn metric_exporter_shuts_down_once(
    exporter: &mut CustomMetricExporter,
    again: &mut CustomMetricExporter,
    timeout: Duration,
    later: Duration,
    first: ShutdownStep,
    second: ShutdownStep,
)
    requires
        timeout.wf(),
        !old(exporter).shutdown,
        call_ensures(CustomMetricExporter::shutdown, (exporter, timeout), first),
        *old(again) == *final(exporter),
        call_ensures(CustomMetricExporter::shutdown, (again, later), second),
    ensures
        shuts_down(
            first,
            old(exporter).callbacks.shutdown,
            old(exporter).user_data,
            timeout,
        ),
        second == ShutdownStep::Done(Err(OTelSdkError::AlreadyShutdown)),
        final(exporter).callbacks == old(exporter).callbacks,
        final(exporter).user_data == old(exporter).user_data,
        final(exporter).temporality == old(exporter).temporality,
{
    lemma_same_budget(timeout);
}

/// Giving a Metrics exporter up shuts it down and releases its state.
pub proof fn metric_exporter_is_given_up(exporter: CustomMetricExporter, plan: ReleasePlan)
    requires
        call_ensures(CustomMetricExporter::release, (exporter,), plan),
    ensures
        gives_up_state(
            plan,
            exporter.shutdown,
            exporter.callbacks.shutdown,
            exporter.callbacks.state_destroy,
            exporter.user_data,
        ),
{
    lemma_same_budget(Duration { secs: 5, nanos: 0 });
}

/// What the answer of a callback of a Metrics exporter means.
pub proof fn metric_callback_answers(
    exporter: &CustomMetricExporter,
    operation: &str,
    timeout: Duration,
    outcome: Option<OtelStatus>,
    r: OTelSdkResult,
)
    requires
        call_ensures(CustomMetricExporter::callback_result, (exporter, operation, timeout, outcome), r),
    ensures
        answers(outcome, timeout, r),
{
}

/// A Metrics exporter handle is destroyed once: a transport is dropped, and callbacks are given up.
pub proof fn metric_handle_is_destroyed_once<E>(
    handle: &mut Option<OtelMetricExporter<E>>,
    r: Option<MetricRelease<E>>,
)
    requires
        call_ensures(otel_metric_exporter_destroy::<E>, (handle,), r),
    ensures
        !usable(*old(handle)) ==> *final(handle) == *old(handle) && r is None,
        usable(*old(handle)) ==> *final(handle) is None && r is Some,
        usable(*old(handle)) ==> match (*old(handle))->0.exporter {
            MetricExporterImpl::Otlp(transport) => r == Some(MetricRelease::<E>::Drop(transport)),
            MetricExporterImpl::Custom(exporter) => r matches Some(MetricRelease::Run(plan)) && gives_up_state(
                plan,
                exporter.shutdown,
                exporter.callbacks.shutdown,
                exporter.callbacks.state_destroy,
                exporter.user_data,
            ),
        },
{
    lemma_same_budget(Duration { secs: 5, nanos: 0 });
}

/// A flush of a Metrics exporter reaches its flush callback.
pub proof fn metric_flush_reaches_its_callback(exporter: &CustomMetricExporter, step: CallbackStep)
    requires
        call_ensures(CustomMetricExporter::force_flush, (exporter,), step),
    ensures
        flushes(step, exporter.shutdown, exporter.callbacks.force_flush, exporter.user_data),
{
}

/// A Metrics exporter is made exactly of a table of sufficient size with an export callback and a
/// known temporality, where zero and one are cumulative, two is delta and three low-memory. It has
/// the callbacks, the state and the temporality that it was given, and starts live.
pub proof fn metric_exporter_keeps_its_callbacks<E>(
    errors: &mut ErrorState,
    callbacks: Option<OtelCustomMetricExporterCallbacks>,
    table_size: usize,
    user_data: usize,
    temporality: u32,
    out: &mut Option<OtelMetricExporter<E>>,
    r: OtelStatus,
)
    requires
        call_ensures(
            otel_custom_metric_exporter_new::<E>,
            (errors, callbacks, table_size, user_data, temporality, Some(out)),
            r,
        ),
    ensures
        r == OtelStatus::Success <==> (callbacks matches Some(table) && table.struct_size
            >= table_size && table.export_metrics is Some && temporality <= 3),
        r == OtelStatus::Success ==> {
            &&& usable(*final(out))
            &&& (*final(out))->0.exporter matches MetricExporterImpl::Custom(exporter)
            &&& callbacks matches Some(table)
            &&& exporter.callbacks.export_metrics == table.export_metrics
            &&& exporter.callbacks.force_flush == table.force_flush
            &&& exporter.callbacks.shutdown == table.shutdown
            &&& exporter.callbacks.state_destroy == table.state_destroy
            &&& exporter.user_data == user_data
            &&& temporality <= 1 ==> exporter.temporality is Cumulative
            &&& temporality == 2 ==> exporter.temporality is Delta
            &&& temporality == 3 ==> exporter.temporality is LowMemory
            &&& !exporter.shutdown
        },
        r != OtelStatus::Success ==> *final(out) is None,
        callbacks is None ==> r == OtelStatus::InvalidArgument,
        callbacks is Some && r != OtelStatus::Success ==> r == OtelStatus::InvalidConfig,
{
}

/// A temporality has its code.
pub proof fn exporter_temporalities_have_codes(value: u32, r: Option<Temporality>)
    requires
        call_ensures(configured_temporality, (value,), r),
    ensures
        r == Some(Temporality::Cumulative) <==> value == 0 || value == 1,
        r == Some(Temporality::Delta) <==> value == 2,
        r == Some(Temporality::LowMemory) <==> value == 3,
{
}

/// A Metrics exporter reports the temporality that it was made with.
pub proof fn metric_exporter_reports_its_temporality(
    exporter: &CustomMetricExporter,
    r: Temporality,
)
    requires
        call_ensures(CustomMetricExporter::temporality, (exporter,), r),
    ensures
        r == exporter.temporality,
{
}

/// A Metrics exporter that is live registers the batch under a token and hands the token to its
/// export callback with its state; after a shutdown nothing reaches it and nothing is registered.
pub proof fn metric_export_reaches_its_callback(
    exporter: &CustomMetricExporter,
    counter: &mut usize,
    batches: &mut ActiveBatches,
    metrics: usize,
    step: MetricExportStep,
    seen: Option<usize>,
    token: OtelMetricBatch,
)
    requires
        call_ensures(CustomMetricExporter::export, (exporter, counter, batches, metrics), step),
        step matches MetricExportStep::Invoke { registration, .. } ==> call_ensures(
            MetricBatchRegistration::token,
            (&registration,),
            token,
        ) && call_ensures(active_batch, (&*final(batches), token.token), seen),
    ensures
        step is Invoke <==> !exporter.shutdown && exporter.callbacks.export_metrics is Some,
        exporter.shutdown ==> step == MetricExportStep::Done(Err(OTelSdkError::AlreadyShutdown)),
        step is Done ==> final(batches).entries@ == old(batches).entries@,
        step matches MetricExportStep::Invoke { callback, user_data, .. } ==> {
            &&& exporter.callbacks.export_metrics == Some(callback)
            &&& user_data == exporter.user_data
            &&& token.token != 0
            &&& seen == Some(metrics)
        },
{
    if step is Invoke {
        let entries = final(batches).entries@;
        assert(entries.last() == (token.token, metrics));
        assert(crate::metric_batch::innermost(entries, token.token, entries.len() as int) == Some(
            entries.len() - 1,
        ));
    }
}

/// The batch of a registration is visible through its token until the registration ends, and then
/// the other batches are as they were.
pub proof fn batches_are_visible_while_registered(
    counter: &mut usize,
    batches: &mut ActiveBatches,
    metrics: usize,
    registration: MetricBatchRegistration,
    token: OtelMetricBatch,
    during: Option<usize>,
    ended: &mut ActiveBatches,
)
    requires
        call_ensures(MetricBatchRegistration::new, (counter, batches, metrics), registration),
        call_ensures(MetricBatchRegistration::token, (&registration,), token),
        call_ensures(active_batch, (&*final(batches), token.token), during),
        *old(ended) == *final(batches),
        call_ensures(MetricBatchRegistration::release, (registration, ended), ()),
    ensures
        token.token != 0,
        during == Some(metrics),
        final(ended).entries@ == old(batches).entries@,
        *final(counter) != *old(counter),
{
    let before = old(batches).entries@;
    let entries = before.push((token.token, metrics));
    assert(final(batches).entries@ == entries);
    assert(crate::metric_batch::innermost(entries, token.token, entries.len() as int) == Some(
        entries.len() - 1,
    ));
    assert(entries.remove(entries.len() - 1) =~= before);
}

/// Of two shutdowns of a Traces exporter only the first reaches the callback, with its state and its
/// budget, and the second is refused.
pub proof fn trace_exporter_shuts_down_once(
    exporter: &mut CustomTraceExporter,
    again: &mut CustomTraceExporter,
    timeout: Duration,
    later: Duration,
    first: ShutdownStep,
    second: ShutdownStep,
)
    requires
        timeout.wf(),
        !old(exporter).shutdown,
        call_ensures(CustomTraceExporter::shutdown, (exporter, timeout), first),
        *old(again) == *final(exporter),
        call_ensures(CustomTraceExporter::shutdown, (again, later), second),
    ensures
        shuts_down(
            first,
            old(exporter).callbacks.shutdown,
            old(exporter).user_data,
            timeout,
        ),
        second == ShutdownStep::Done(Err(OTelSdkError::AlreadyShutdown)),
        final(exporter).callbacks == old(exporter).callbacks,
        final(exporter).user_data == old(exporter).user_data,
        final(exporter).resource == old(exporter).resource,
{
    lemma_same_budget(timeout);
}

/// Giving a Traces exporter up shuts it down and releases its state.
pub proof fn trace_exporter_is_given_up(exporter: CustomTraceExporter, plan: ReleasePlan)
    requires
        call_ensures(CustomTraceExporter::release, (exporter,), plan),
    ensures
        gives_up_state(
            plan,
            exporter.shutdown,
            exporter.callbacks.shutdown,
            exporter.callbacks.state_destroy,
            exporter.user_data,
        ),
{
    lemma_same_budget(Duration { secs: 5, nanos: 0 });
}

/// What the answer of a callback of a Traces exporter means.
pub proof fn trace_callback_answers(
    exporter: &CustomTraceExporter,
    operation: &str,
    timeout: Duration,
    outcome: Option<OtelStatus>,
    r: OTelSdkResult,
)
    requires
        call_ensures(CustomTraceExporter::callback_result, (exporter, operation, timeout, outcome), r),
    ensures
        answers(outcome, timeout, r),
{
}

/// A Traces exporter handle is destroyed once: a transport is dropped, and callbacks are given up.
pub proof fn trace_handle_is_destroyed_once<E>(
    handle: &mut Option<OtelTraceExporter<E>>,
    r: Option<TraceRelease<E>>,
)
    requires
        call_ensures(otel_trace_exporter_destroy::<E>, (handle,), r),
    ensures
        !usable(*old(handle)) ==> *final(handle) == *old(handle) && r is None,
        usable(*old(handle)) ==> *final(handle) is None && r is Some,
        usable(*old(handle)) ==> match (*old(handle))->0.exporter {
            TraceExporterImpl::Otlp(transport) => r == Some(TraceRelease::<E>::Drop(transport)),
            TraceExporterImpl::Custom(exporter) => r matches Some(TraceRelease::Run(plan)) && gives_up_state(
                plan,
                exporter.shutdown,
                exporter.callbacks.shutdown,
                exporter.callbacks.state_destroy,
                exporter.user_data,
            ),
        },
{
    lemma_same_budget(Duration { secs: 5, nanos: 0 });
}

/// Replacing the resource of a Traces exporter changes nothing else.
pub proof fn trace_resource_is_replaced(exporter: &mut CustomTraceExporter, resource: Resource)
    requires
        call_ensures(CustomTraceExporter::set_resource, (exporter, resource), ()),
    ensures
        final(exporter).resource == resource,
        final(exporter).callbacks == old(exporter).callbacks,
        final(exporter).user_data == old(exporter).user_data,
        final(exporter).shutdown == old(exporter).shutdown,
{
}

/// A flush of a Traces exporter reaches its flush callback.
pub proof fn trace_flush_reaches_its_callback(exporter: &CustomTraceExporter, step: CallbackStep)
    requires
        call_ensures(CustomTraceExporter::force_flush, (exporter,), step),
    ensures
        flushes(step, exporter.shutdown, exporter.callbacks.force_flush, exporter.user_data),
{
}

/// A Traces exporter is made exactly of a table that covers its required members and has an export
/// callback. It has the callbacks in their words, as far as the announced size covers them and they
/// are not NULL, and the state that it was given.
pub proof fn trace_exporter_keeps_its_callbacks<E>(
    errors: &mut ErrorState,
    words: &[usize],
    layout: TraceCallbackLayout,
    user_data: usize,
    out: &mut Option<OtelTraceExporter<E>>,
    r: OtelStatus,
)
    requires
        call_ensures(
            otel_custom_trace_exporter_new::<E>,
            (errors, Some(words), layout, user_data, Some(out)),
            r,
        ),
    ensures
        r == OtelStatus::Success <==> word_at(words@, 0) >= layout.export_spans_end && word_at(words@, 1) != 0,
        r == OtelStatus::Success ==> {
            &&& usable(*final(out))
            &&& (*final(out))->0.exporter matches TraceExporterImpl::Custom(exporter)
            &&& exporter.callbacks.export_spans == Some(word_at(words@, 1))
            &&& is_member(
                exporter.callbacks.force_flush,
                word_at(words@, 2),
                word_at(words@, 0) >= layout.force_flush_end,
            )
            &&& is_member(exporter.callbacks.shutdown, word_at(words@, 3), word_at(words@, 0) >= layout.shutdown_end)
            &&& is_member(
                exporter.callbacks.state_destroy,
                word_at(words@, 4),
                word_at(words@, 0) >= layout.state_destroy_end,
            )
            &&& exporter.user_data == user_data
            &&& !exporter.shutdown
            &&& exporter.resource.attributes@.len() == 0
            &&& exporter.resource.schema_url is None
        },
        r != OtelStatus::Success ==> *final(out) is None && r == OtelStatus::InvalidConfig,
{
}

/// The callbacks of a table are read from their words, none of them beyond the announced size.
pub proof fn callbacks_are_read_from_their_words(
    words: &[usize],
    struct_size: usize,
    layout: TraceCallbackLayout,
    r: OtelCustomTraceExporterCallbacks,
)
    requires
        call_ensures(read_callbacks, (words, struct_size, layout), r),
    ensures
        r.struct_size == struct_size,
        is_member(r.export_spans, word_at(words@, 1), true),
        is_member(r.force_flush, word_at(words@, 2), struct_size >= layout.force_flush_end),
        is_member(r.shutdown, word_at(words@, 3), struct_size >= layout.shutdown_end),
        is_member(r.state_destroy, word_at(words@, 4), struct_size >= layout.state_destroy_end),
{
}

/// Word `i` of a table, NULL beyond its end.
pub open spec fn word_at(words: Seq<usize>, i: int) -> usize {
    if 0 <= i < words.len() {
        words[i]
    } else {
        0
    }
}

/// The member is the word where the table covers it, and a NULL word is no callback.
pub open spec fn is_member(member: Option<usize>, word: usize, covered: bool) -> bool {
    &&& member is Some <==> covered && word != 0
    &&& member matches Some(address) ==> address == word
}

/// A missing table is the caller's mistake.
pub proof fn trace_exporter_needs_a_table<E>(
    errors: &mut ErrorState,
    layout: TraceCallbackLayout,
    user_data: usize,
    out: &mut Option<OtelTraceExporter<E>>,
    r: OtelStatus,
)
    requires
        call_ensures(
            otel_custom_trace_exporter_new::<E>,
            (errors, None, layout, user_data, Some(out)),
            r,
        ),
    ensures
        r == OtelStatus::InvalidArgument,
        *final(out) is None,
{
}

/// A Traces exporter that is live hands a converted batch to its export callback with its state;
/// a batch that could not be converted fails with its diagnostic, and after a shutdown nothing
/// reaches the callback.
pub proof fn trace_export_reaches_its_callback(
    exporter: &CustomTraceExporter,
    errors: &mut ErrorState,
    conversion: Result<(), SpanConversionError>,
    step: CallbackStep,
    ready: Result<usize, OTelSdkError>,
)
    requires
        call_ensures(CustomTraceExporter::export, (exporter, errors, conversion), step),
        call_ensures(CustomTraceExporter::ready, (exporter,), ready),
    ensures
        exporter.shutdown ==> step == CallbackStep::Done(Err(OTelSdkError::AlreadyShutdown)),
        step is Invoke <==> !exporter.shutdown && exporter.callbacks.export_spans is Some
            && conversion is Ok,
        step matches CallbackStep::Invoke { callback, user_data } ==> {
            &&& exporter.callbacks.export_spans == Some(callback)
            &&& user_data == exporter.user_data
        },
        step matches CallbackStep::Done(result) ==> result is Err,
        !exporter.shutdown && exporter.callbacks.export_spans is Some ==> (conversion matches Err(
            error,
        ) ==> (step matches CallbackStep::Done(Err(OTelSdkError::InternalFailure(text))) && text@
            == error.message@ && final(errors).last_status == error.status
            && final(errors).message@ == error.message@)),
        ready is Ok <==> !exporter.shutdown && exporter.callbacks.export_spans is Some,
        ready matches Ok(callback) ==> exporter.callbacks.export_spans == Some(callback),
        exporter.shutdown ==> ready == Err::<usize, OTelSdkError>(OTelSdkError::AlreadyShutdown),
{
}

} // verus!
