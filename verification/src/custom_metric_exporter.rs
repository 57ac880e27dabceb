//! Metrics exporter backed by C callbacks.
//!
//! The exporter decides which callback runs with which arguments; the caller invokes it and
//! hands its outcome back.

use vstd::prelude::*;

use crate::abi::OtelStatus;
use crate::callback::{
    begin_flush, begin_release, begin_shutdown, callback_meaning, callback_outcome, export_refusal,
    flush_step, release_plan, shutdown_step, CallbackStep, ReleasePlan, ShutdownStep, StatusPolicy,
};
use crate::error::{
    clear_last_error, fail, result_view, ErrorState, OTelSdkError, OTelSdkResult, SdkErrorView,
};
use crate::handle::is_valid;
use crate::metric_batch::{ActiveBatches, MetricBatchRegistration};
use crate::metric_data::Temporality;
use crate::metric_exporter::{MetricExporterImpl, OtelMetricExporter};
use crate::time::Duration;

verus! {

/// Callback table accepted by [`otel_custom_metric_exporter_new`].
#[derive(Clone, Copy, Debug, PartialEq, Eq)]
pub struct OtelCustomMetricExporterCallbacks {
    pub struct_size: usize,
    /// Required.
    pub export_metrics: Option<usize>,
    /// Optional; a successful no-op where it is absent.
    pub force_flush: Option<usize>,
    /// Optional; a successful no-op where it is absent.
    pub shutdown: Option<usize>,
    /// Optional; the callback state is not released where it is absent.
    pub state_destroy: Option<usize>,
}

/// A Metrics exporter that hands batches to C.
#[derive(Debug)]
pub struct CustomMetricExporter {
    pub callbacks: OtelCustomMetricExporterCallbacks,
    pub user_data: usize,
    pub temporality: Temporality,
    pub shutdown: bool,
}

/// What an export does next: it is done, or the callback is to be invoked with the token of the
/// registered batch.
#[derive(Debug)]
pub enum MetricExportStep {
    Done(OTelSdkResult),
    Invoke { callback: usize, user_data: usize, registration: MetricBatchRegistration },
}

impl CustomMetricExporter {
    /// Maps the outcome of a callback (`None` where it panicked) to a lifecycle result.
    pub fn callback_result(
        &self,
        operation: &str,
        timeout: Duration,
        outcome: Option<OtelStatus>,
    ) -> (r: OTelSdkResult)
        ensures
            result_view(r) == callback_meaning(
                "metric"@,
                operation@,
                timeout,
                outcome,
                StatusPolicy::Lenient,
            ),
    {
        callback_outcome("metric", operation, timeout, outcome, StatusPolicy::Lenient)
    }

    /// Decides what exporting the batch at address `metrics` does. A batch that reaches the
    /// callback is registered under a token.
    pub fn export(&self, counter: &mut usize, batches: &mut ActiveBatches, metrics: usize) -> (r:
        MetricExportStep)
        ensures
            match export_refusal(
                self.shutdown,
                self.callbacks.export_metrics,
                "custom metric exporter lost its validated export callback"@,
            ) {
                Some(error) => {
                    &&& r matches MetricExportStep::Done(result)
                    &&& result_view(result) == Err::<(), SdkErrorView>(error)
                    &&& final(batches).entries@ == old(batches).entries@
                },
                None => {
                    &&& r matches MetricExportStep::Invoke { callback, user_data, registration }
                    &&& callback == self.callbacks.export_metrics->0
                    &&& user_data == self.user_data
                    &&& registration.spec_token() != 0
                    &&& registration.spec_token() == (if *old(counter) == 0 {
                        1usize
                    } else {
                        *old(counter)
                    })
                    &&& final(batches).entries@ == old(batches).entries@.push(
                        (registration.spec_token(), metrics),
                    )
                },
            },
            self.shutdown ==> *final(counter) == *old(counter),
            !self.shutdown ==> *final(counter) == (if *old(counter) == usize::MAX {
                0
            } else if *old(counter) == 0 {
                2
            } else {
                *old(counter) + 1
            }),
    {
        if self.shutdown {
            return MetricExportStep::Done(Err(OTelSdkError::AlreadyShutdown));
        }
        let registration = MetricBatchRegistration::new(counter, batches, metrics);
        match self.callbacks.export_metrics {
            Some(callback) => MetricExportStep::Invoke {
                callback,
                user_data: self.user_data,
                registration,
            },
            None => {
                registration.release(batches);
                assert(batches.entries@ =~= old(batches).entries@);
                MetricExportStep::Done(
                    Err(
                        OTelSdkError::InternalFailure(
                            "custom metric exporter lost its validated export callback".to_owned(),
                        ),
                    ),
                )
            },
        }
    }

    /// Decides what a flush does.
    pub fn force_flush(&self) -> (r: CallbackStep)
        ensures
            flush_step(r, self.shutdown, self.callbacks.force_flush, self.user_data),
    {
        begin_flush(self.shutdown, self.callbacks.force_flush, self.user_data)
    }

    /// Decides what a shutdown does. Only the first one reaches the callback.
    pub fn shutdown(&mut self, timeout: Duration) -> (r: ShutdownStep)
        requires
            timeout.wf(),
        ensures
            *final(self) == (CustomMetricExporter { shutdown: true, ..*old(self) }),
            shutdown_step(
                r,
                old(self).shutdown,
                old(self).callbacks.shutdown,
                old(self).user_data,
                timeout,
            ),
    {
        begin_shutdown(&mut self.shutdown, self.callbacks.shutdown, self.user_data, timeout)
    }

    /// The temporality that the exporter was made with.
    pub fn temporality(&self) -> (r: Temporality)
        ensures
            r == self.temporality,
    {
        self.temporality
    }

    /// Gives the exporter up: it is shut down with a budget of five seconds unless it was before,
    /// and its state is released.
    pub fn release(self) -> (r: ReleasePlan)
        ensures
            release_plan(
                r,
                self.shutdown,
                self.callbacks.shutdown,
                self.callbacks.state_destroy,
                self.user_data,
            ),
    {
        begin_release(
            self.shutdown,
            self.callbacks.shutdown,
            self.callbacks.state_destroy,
            self.user_data,
        )
    }
}

/// The temporality that a code stands for.
pub open spec fn temporality_of(value: u32) -> Option<Temporality> {
    if value == 0 || value == 1 {
        Some(Temporality::Cumulative)
    } else if value == 2 {
        Some(Temporality::Delta)
    } else if value == 3 {
        Some(Temporality::LowMemory)
    } else {
        None
    }
}

/// The temporality that a code stands for.
pub fn configured_temporality(value: u32) -> (r: Option<Temporality>)
    ensures
        r == temporality_of(value),
{
    match value {
        0 => Some(Temporality::Cumulative),
        1 => Some(Temporality::Cumulative),
        2 => Some(Temporality::Delta),
        3 => Some(Temporality::LowMemory),
        _ => None,
    }
}

/// Why a callback table with a temporality is refused, if it is.
pub open spec fn metric_callbacks_fault(
    callbacks: Option<OtelCustomMetricExporterCallbacks>,
    table_size: usize,
    temporality: u32,
) -> Option<(OtelStatus, Seq<char>)> {
    match callbacks {
        None => Some(
            (OtelStatus::InvalidArgument, "custom metric exporter callbacks must not be NULL"@),
        ),
        Some(table) => if table.struct_size < table_size {
            Some(
                (
                    OtelStatus::InvalidConfig,
                    "custom metric exporter callback structure is smaller than the required ABI size"@,
                ),
            )
        } else if table.export_metrics is None {
            Some((OtelStatus::InvalidConfig, "custom metric exporter requires an export callback"@))
        } else if temporality_of(temporality) is None {
            Some((OtelStatus::InvalidConfig, "unknown custom metric exporter temporality"@))
        } else {
            None
        },
    }
}

/// Creates a Metrics exporter backed by C callbacks. It owns the callback state only on success.
/// `table_size` is the size of the callback table on this platform.
pub fn otel_custom_metric_exporter_new<E>(
    errors: &mut ErrorState,
    callbacks: Option<OtelCustomMetricExporterCallbacks>,
    table_size: usize,
    user_data: usize,
    temporality: u32,
    out: Option<&mut Option<OtelMetricExporter<E>>>,
) -> (r: OtelStatus)
    ensures
        out is None ==> r == OtelStatus::InvalidArgument && final(errors).holds(
            OtelStatus::InvalidArgument,
            "out pointer must not be NULL"@,
        ),
        out matches Some(slot) ==> match metric_callbacks_fault(
            callbacks,
            table_size,
            temporality,
        ) {
            Some((status, message)) => r == status && final(errors).holds(status, message)
                && *final(slot) is None,
            None => {
                &&& r == OtelStatus::Success
                &&& final(errors).is_clear()
                &&& *final(slot) matches Some(handle)
                &&& is_valid(handle)
                &&& handle.exporter == MetricExporterImpl::<E>::Custom(
                    CustomMetricExporter {
                        callbacks: callbacks->0,
                        user_data,
                        temporality: temporality_of(temporality)->0,
                        shutdown: false,
                    },
                )
            },
        },
{
    clear_last_error(errors);
    let slot = match out {
        None => return fail(errors, OtelStatus::InvalidArgument, "out pointer must not be NULL"),
        Some(slot) => slot,
    };
    *slot = None;
    let table = match callbacks {
        None => return fail(
            errors,
            OtelStatus::InvalidArgument,
            "custom metric exporter callbacks must not be NULL",
        ),
        Some(table) => table,
    };
    if table.struct_size < table_size {
        return fail(
            errors,
            OtelStatus::InvalidConfig,
            "custom metric exporter callback structure is smaller than the required ABI size",
        );
    }
    if table.export_metrics.is_none() {
        return fail(
            errors,
            OtelStatus::InvalidConfig,
            "custom metric exporter requires an export callback",
        );
    }
    let temporality = match configured_temporality(temporality) {
        Some(temporality) => temporality,
        None => return fail(
            errors,
            OtelStatus::InvalidConfig,
            "unknown custom metric exporter temporality",
        ),
    };
    let exporter = CustomMetricExporter {
        callbacks: table,
        user_data,
        temporality,
        shutdown: false,
    };
    *slot = Some(OtelMetricExporter::new(MetricExporterImpl::Custom(exporter)));
    OtelStatus::Success
}

} // verus!
