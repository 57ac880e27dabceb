//! Logs exporter handles.

use vstd::prelude::*;

use crate::callback::{release_plan, ReleasePlan};
use crate::custom_log_exporter::CustomLogExporter;
use crate::handle::{
    destroy, is_valid, HasHandleHeader, OtelHandleHeader, OTEL_HANDLE_KIND_LOG_EXPORTER,
};

verus! {

/// A Logs exporter: one that sends over a transport, or one that hands batches to C.
#[derive(Debug)]
pub enum LogExporterImpl<E> {
    Otlp(E),
    Custom(CustomLogExporter),
}

/// Owns an exporter until it is transferred or destroyed.
#[derive(Debug)]
pub struct OtelLogExporter<E> {
    pub header: OtelHandleHeader,
    pub exporter: LogExporterImpl<E>,
}

impl<E> OtelLogExporter<E> {
    /// A live handle.
    pub fn new(exporter: LogExporterImpl<E>) -> (r: Self)
        ensures
            is_valid(r),
            r.exporter == exporter,
    {
        OtelLogExporter { header: OtelHandleHeader::new(OTEL_HANDLE_KIND_LOG_EXPORTER), exporter }
    }
}

impl<E> HasHandleHeader for OtelLogExporter<E> {
    open spec fn spec_type_kind() -> u64 {
        OTEL_HANDLE_KIND_LOG_EXPORTER
    }

    open spec fn spec_header(&self) -> OtelHandleHeader {
        self.header
    }

    open spec fn with_header(self, header: OtelHandleHeader) -> Self {
        OtelLogExporter { header, ..self }
    }

    fn type_kind() -> u64 {
        OTEL_HANDLE_KIND_LOG_EXPORTER
    }

    fn header(&self) -> OtelHandleHeader {
        self.header
    }

    fn set_header(&mut self, header: OtelHandleHeader) {
        self.header = header;
    }
}

/// What releasing an exporter takes.
#[derive(Debug)]
pub enum LogRelease<E> {
    /// The transport is dropped.
    Drop(E),
    /// The callbacks run.
    Run(ReleasePlan),
}

/// Releasing this exporter takes this.
pub open spec fn log_release<E>(exporter: LogExporterImpl<E>, release: LogRelease<E>) -> bool {
    match exporter {
        LogExporterImpl::Otlp(transport) => release == LogRelease::Drop(transport),
        LogExporterImpl::Custom(custom) => release matches LogRelease::Run(plan) && release_plan(
            plan,
            custom.shutdown,
            custom.callbacks.shutdown,
            custom.callbacks.state_destroy,
            custom.user_data,
        ),
    }
}

impl<E> LogExporterImpl<E> {
    /// Gives the exporter up.
    pub fn release(self) -> (r: LogRelease<E>)
        ensures
            log_release(self, r),
    {
        match self {
            LogExporterImpl::Otlp(transport) => LogRelease::Drop(transport),
            LogExporterImpl::Custom(custom) => LogRelease::Run(custom.release()),
        }
    }
}

/// Destroys a Logs exporter handle that was not transferred. Anything but a valid handle is left
/// alone.
pub fn otel_log_exporter_destroy<E>(exporter: &mut Option<OtelLogExporter<E>>) -> (r: Option<LogRelease<E>>)
    ensures
        if *old(exporter) matches Some(handle) && is_valid(handle) {
            &&& *final(exporter) is None
            &&& r matches Some(release)
            &&& log_release((*old(exporter))->0.exporter, release)
        } else {
            r is None && *final(exporter) == *old(exporter)
        },
{
    match destroy(exporter) {
        Some(handle) => Some(handle.exporter.release()),
        None => None,
    }
}

} // verus!
