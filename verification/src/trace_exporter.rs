//! Traces exporter handles.

use vstd::prelude::*;

use crate::callback::{release_plan, ReleasePlan};
use crate::custom_trace_exporter::CustomTraceExporter;
use crate::handle::{
    destroy, is_valid, HasHandleHeader, OtelHandleHeader, OTEL_HANDLE_KIND_TRACE_EXPORTER,
};

verus! {

/// A Traces exporter: one that sends over a transport, or one that hands batches to C.
#[derive(Debug)]
pub enum TraceExporterImpl<E> {
    Otlp(E),
    Custom(CustomTraceExporter),
}

/// Owns an exporter until it is transferred or destroyed.
#[derive(Debug)]
pub struct OtelTraceExporter<E> {
    pub header: OtelHandleHeader,
    pub exporter: TraceExporterImpl<E>,
}

impl<E> OtelTraceExporter<E> {
    /// A live handle.
    pub fn new(exporter: TraceExporterImpl<E>) -> (r: Self)
        ensures
            is_valid(r),
            r.exporter == exporter,
    {
        OtelTraceExporter { header: OtelHandleHeader::new(OTEL_HANDLE_KIND_TRACE_EXPORTER), exporter }
    }
}

impl<E> HasHandleHeader for OtelTraceExporter<E> {
    open spec fn spec_type_kind() -> u64 {
        OTEL_HANDLE_KIND_TRACE_EXPORTER
    }

    open spec fn spec_header(&self) -> OtelHandleHeader {
        self.header
    }

    open spec fn with_header(self, header: OtelHandleHeader) -> Self {
        OtelTraceExporter { header, ..self }
    }

    fn type_kind() -> u64 {
        OTEL_HANDLE_KIND_TRACE_EXPORTER
    }

    fn header(&self) -> OtelHandleHeader {
        self.header
    }

    fn set_header(&mut self, header: OtelHandleHeader) {
        self.header = header;
    }
}

/// What releasing an exporter takes.
#[derive(Debug)]
pub enum TraceRelease<E> {
    /// The transport is dropped.
    Drop(E),
    /// The callbacks run.
    Run(ReleasePlan),
}

/// Releasing this exporter takes this.
pub open spec fn trace_release<E>(exporter: TraceExporterImpl<E>, release: TraceRelease<E>) -> bool {
    match exporter {
        TraceExporterImpl::Otlp(transport) => release == TraceRelease::Drop(transport),
        TraceExporterImpl::Custom(custom) => release matches TraceRelease::Run(plan) && release_plan(
            plan,
            custom.shutdown,
            custom.callbacks.shutdown,
            custom.callbacks.state_destroy,
            custom.user_data,
        ),
    }
}

impl<E> TraceExporterImpl<E> {
    /// Gives the exporter up.
    pub fn release(self) -> (r: TraceRelease<E>)
        ensures
            trace_release(self, r),
    {
        match self {
            TraceExporterImpl::Otlp(transport) => TraceRelease::Drop(transport),
            TraceExporterImpl::Custom(custom) => TraceRelease::Run(custom.release()),
        }
    }
}

/// Destroys a Traces exporter handle that was not transferred. Anything but a valid handle is left
/// alone.
pub fn otel_trace_exporter_destroy<E>(exporter: &mut Option<OtelTraceExporter<E>>) -> (r: Option<TraceRelease<E>>)
    ensures
        if *old(exporter) matches Some(handle) && is_valid(handle) {
            &&& *final(exporter) is None
            &&& r matches Some(release)
            &&& trace_release((*old(exporter))->0.exporter, release)
        } else {
            r is None && *final(exporter) == *old(exporter)
        },
{
    match destroy(exporter) {
        Some(handle) => Some(handle.exporter.release()),
        None => None,
    }
}

} // verus!
