//! Logs exporter backed by C callbacks.
//!
//! The exporter decides which callback runs with which arguments; the caller invokes it and
//! hands its outcome back. A callback is known by its address, and the callback state by its own.

use vstd::prelude::*;

use crate::abi::OtelStatus;
use crate::callback::{
    begin_release, begin_shutdown, callback_meaning, callback_outcome, export_refusal,
    release_plan, shutdown_step, ReleasePlan, ShutdownStep, StatusPolicy,
};
use crate::error::{
    clear_last_error, fail, fail_owned, result_view, ErrorState, OTelSdkError, OTelSdkResult,
    SdkErrorView,
};
use crate::export_error::ConversionError;
use crate::log_export::{
    batch_fault, batch_refused, convert_batch, presents_batch, reserves_nothing, sized, BatchEntry,
    ExportViewSizes, OtelLogExportBatchView, Resource,
};
use crate::handle::is_valid;
use crate::log_exporter::{LogExporterImpl, OtelLogExporter};
use crate::time::Duration;

verus! {

/// Callback table accepted by [`otel_custom_log_exporter_new`].
#[derive(Clone, Copy, Debug, PartialEq, Eq)]
pub struct OtelCustomLogExporterCallbacks {
    pub struct_size: usize,
    /// Required.
    pub export_logs: Option<usize>,
    /// Optional; a successful no-op where it is absent.
    pub shutdown: Option<usize>,
    /// Optional; the callback state is not released where it is absent.
    pub state_destroy: Option<usize>,
}

/// A Logs exporter that hands batches to C.
#[derive(Debug)]
pub struct CustomLogExporter {
    pub callbacks: OtelCustomLogExporterCallbacks,
    pub user_data: usize,
    pub resource: Resource,
    pub shutdown: bool,
}

/// What an export does next: it is done, or the callback is to be invoked with the batch view.
pub enum LogExportStep<'a> {
    Done(OTelSdkResult),
    Invoke { callback: usize, user_data: usize, view: OtelLogExportBatchView<'a> },
}

/// A batch that cannot be presented fails the export with the diagnostic of the conversion.
pub open spec fn conversion_failed(
    error: ConversionError,
    step: LogExportStep,
    errors: ErrorState,
) -> bool {
    &&& step matches LogExportStep::Done(r) && result_view(r) == Err::<(), SdkErrorView>(
        SdkErrorView::InternalFailure(error.spec_message()),
    )
    &&& errors.holds(OtelStatus::ExportFailed, error.spec_message())
}

/// What follows the conversion of a batch: the callback is to be invoked with the view, or the
/// export has failed and the diagnostic is recorded in the error slot.
pub fn export_step<'a>(
    errors: &mut ErrorState,
    callback: usize,
    user_data: usize,
    outcome: Result<OtelLogExportBatchView<'a>, ConversionError>,
) -> (r: LogExportStep<'a>)
    ensures
        outcome matches Ok(view) ==> r == (LogExportStep::Invoke { callback, user_data, view })
            && *final(errors) == *old(errors),
        outcome matches Err(error) ==> conversion_failed(error, r, *final(errors)),
{
    match outcome {
        Ok(view) => LogExportStep::Invoke { callback, user_data, view },
        Err(error) => {
            fail_owned(errors, error.status(), error.message());
            LogExportStep::Done(Err(OTelSdkError::InternalFailure(error.message())))
        },
    }
}

impl CustomLogExporter {
    /// Maps the outcome of a callback (`None` where it panicked) to a lifecycle result.
    pub fn callback_result(
        &self,
        operation: &str,
        timeout: Duration,
        outcome: Option<OtelStatus>,
    ) -> (r: OTelSdkResult)
        ensures
            result_view(r) == callback_meaning(
                "log"@,
                operation@,
                timeout,
                outcome,
                StatusPolicy::Strict,
            ),
    {
        callback_outcome("log", operation, timeout, outcome, StatusPolicy::Strict)
    }

    /// Decides what exporting a batch does. The batch is converted before the callback runs, so
    /// the callback never sees a part of it.
    pub fn export<'a>(
        &'a self,
        errors: &mut ErrorState,
        entries: &[BatchEntry<'a>],
        sizes: ExportViewSizes,
    ) -> (r: LogExportStep<'a>)
        ensures
            match export_refusal(
                self.shutdown,
                self.callbacks.export_logs,
                "custom log exporter lost its validated export callback"@,
            ) {
                Some(error) => {
                    &&& r matches LogExportStep::Done(result)
                    &&& result_view(result) == Err::<(), SdkErrorView>(error)
                    &&& *final(errors) == *old(errors)
                },
                None => match r {
                    LogExportStep::Invoke { callback, user_data, view } => {
                        &&& batch_fault(entries@, self.resource) is None
                        &&& callback == self.callbacks.export_logs->0
                        &&& user_data == self.user_data
                        &&& presents_batch(view, entries@, self.resource)
                        &&& sized(view, sizes)
                        &&& *final(errors) == *old(errors)
                    },
                    LogExportStep::Done(_) => exists|e: ConversionError|
                        (if e.is_memory() {
                            batch_refused(entries@, self.resource, e)
                        } else {
                            batch_fault(entries@, self.resource) == Some(e)
                        }) && #[trigger] conversion_failed(e, r, *final(errors)),
                },
            },
            !self.shutdown && self.callbacks.export_logs is Some && reserves_nothing(
                entries@,
                self.resource,
            ) ==> match batch_fault(entries@, self.resource) {
                Some(e) => conversion_failed(e, r, *final(errors)),
                None => r is Invoke,
            },
    {
        if self.shutdown {
            return LogExportStep::Done(Err(OTelSdkError::AlreadyShutdown));
        }
        let callback: usize = match self.callbacks.export_logs {
            Some(callback) => callback,
            None => return LogExportStep::Done(
                Err(
                    OTelSdkError::InternalFailure(
                        "custom log exporter lost its validated export callback".to_owned(),
                    ),
                ),
            ),
        };
        export_step(
            errors,
            callback,
            self.user_data,
            convert_batch(entries, &self.resource, sizes),
        )
    }

    /// Decides what a shutdown does. Only the first one reaches the callback.
    pub fn shutdown(&mut self, timeout: Duration) -> (r: ShutdownStep)
        requires
            timeout.wf(),
        ensures
            *final(self) == (CustomLogExporter { shutdown: true, ..*old(self) }),
            shutdown_step(
                r,
                old(self).shutdown,
                old(self).callbacks.shutdown,
                old(self).user_data,
                timeout,
            ),
    {
        begin_shutdown(&mut self.shutdown, self.callbacks.shutdown, self.user_data, timeout)
    }

    /// Replaces the resource.
    pub fn set_resource(&mut self, resource: Resource)
        ensures
            *final(self) == (CustomLogExporter { resource, ..*old(self) }),
    {
        self.resource = resource;
    }

    /// Gives the exporter up: it is shut down with a budget of five seconds unless it was before,
    /// and its state is released.
    pub fn release(self) -> (r: ReleasePlan)
        ensures
            release_plan(
                r,
                self.shutdown,
                self.callbacks.shutdown,
                self.callbacks.state_destroy,
                self.user_data,
            ),
    {
        begin_release(
            self.shutdown,
            self.callbacks.shutdown,
            self.callbacks.state_destroy,
            self.user_data,
        )
    }
}

/// Why a callback table is refused, if it is.
pub open spec fn log_callbacks_fault(
    callbacks: Option<OtelCustomLogExporterCallbacks>,
    table_size: usize,
) -> Option<(OtelStatus, Seq<char>)> {
    match callbacks {
        None => Some(
            (OtelStatus::InvalidArgument, "custom log exporter callbacks must not be NULL"@),
        ),
        Some(table) => if table.struct_size < table_size {
            Some(
                (
                    OtelStatus::InvalidConfig,
                    "custom log exporter callback structure is smaller than the required ABI size"@,
                ),
            )
        } else if table.export_logs is None {
            Some((OtelStatus::InvalidConfig, "custom log exporter requires an export callback"@))
        } else {
            None
        },
    }
}

/// Creates a Logs exporter backed by C callbacks. It owns the callback state only on success.
/// `table_size` is the size of the callback table on this platform.
pub fn otel_custom_log_exporter_new<E>(
    errors: &mut ErrorState,
    callbacks: Option<OtelCustomLogExporterCallbacks>,
    table_size: usize,
    user_data: usize,
    out: Option<&mut Option<OtelLogExporter<E>>>,
) -> (r: OtelStatus)
    ensures
        out is None ==> r == OtelStatus::InvalidArgument && final(errors).holds(
            OtelStatus::InvalidArgument,
            "out pointer must not be NULL"@,
        ),
        out matches Some(slot) ==> match log_callbacks_fault(callbacks, table_size) {
            Some((status, message)) => r == status && final(errors).holds(status, message)
                && *final(slot) is None,
            None => {
                &&& r == OtelStatus::Success
                &&& final(errors).is_clear()
                &&& *final(slot) matches Some(handle)
                &&& is_valid(handle)
                &&& handle.exporter matches LogExporterImpl::Custom(exporter)
                &&& exporter.callbacks == callbacks->0
                &&& exporter.user_data == user_data
                &&& !exporter.shutdown
                &&& exporter.resource.schema_url is None
                &&& exporter.resource.attributes@.len() == 0
            },
        },
{
    clear_last_error(errors);
    let slot = match out {
        None => return fail(errors, OtelStatus::InvalidArgument, "out pointer must not be NULL"),
        Some(slot) => slot,
    };
    *slot = None;
    let table = match callbacks {
        None => return fail(
            errors,
            OtelStatus::InvalidArgument,
            "custom log exporter callbacks must not be NULL",
        ),
        Some(table) => table,
    };
    if table.struct_size < table_size {
        return fail(
            errors,
            OtelStatus::InvalidConfig,
            "custom log exporter callback structure is smaller than the required ABI size",
        );
    }
    if table.export_logs.is_none() {
        return fail(
            errors,
            OtelStatus::InvalidConfig,
            "custom log exporter requires an export callback",
        );
    }
    *slot =
    Some(
        OtelLogExporter::new(
            LogExporterImpl::Custom(
                CustomLogExporter {
                    callbacks: table,
                    user_data,
                    resource: Resource { schema_url: None, attributes: Vec::new() },
                    shutdown: false,
                },
            ),
        ),
    );
    OtelStatus::Success
}

} // verus!
