//! Metrics exporter handles.

use vstd::prelude::*;

use crate::callback::{release_plan, ReleasePlan};
use crate::custom_metric_exporter::CustomMetricExporter;
use crate::handle::{
    destroy, is_valid, HasHandleHeader, OtelHandleHeader, OTEL_HANDLE_KIND_METRIC_EXPORTER,
};

verus! {

/// A Metrics exporter: one that sends over a transport, or one that hands batches to C.
#[derive(Debug)]
pub enum MetricExporterImpl<E> {
    Otlp(E),
    Custom(CustomMetricExporter),
}

/// Owns an exporter until it is transferred or destroyed.
#[derive(Debug)]
pub struct OtelMetricExporter<E> {
    pub header: OtelHandleHeader,
    pub exporter: MetricExporterImpl<E>,
}

impl<E> OtelMetricExporter<E> {
    /// A live handle.
    pub fn new(exporter: MetricExporterImpl<E>) -> (r: Self)
        ensures
            is_valid(r),
            r.exporter == exporter,
    {
        OtelMetricExporter { header: OtelHandleHeader::new(OTEL_HANDLE_KIND_METRIC_EXPORTER), exporter }
    }
}

impl<E> HasHandleHeader for OtelMetricExporter<E> {
    open spec fn spec_type_kind() -> u64 {
        OTEL_HANDLE_KIND_METRIC_EXPORTER
    }

    open spec fn spec_header(&self) -> OtelHandleHeader {
        self.header
    }

    open spec fn with_header(self, header: OtelHandleHeader) -> Self {
        OtelMetricExporter { header, ..self }
    }

    fn type_kind() -> u64 {
        OTEL_HANDLE_KIND_METRIC_EXPORTER
    }

    fn header(&self) -> OtelHandleHeader {
        self.header
    }

    fn set_header(&mut self, header: OtelHandleHeader) {
        self.header = header;
    }
}

/// What releasing an exporter takes.
#[derive(Debug)]
pub enum MetricRelease<E> {
    /// The transport is dropped.
    Drop(E),
    /// The callbacks run.
    Run(ReleasePlan),
}

/// Releasing this exporter takes this.
pub open spec fn metric_release<E>(exporter: MetricExporterImpl<E>, release: MetricRelease<E>) -> bool {
    match exporter {
        MetricExporterImpl::Otlp(transport) => release == MetricRelease::Drop(transport),
        MetricExporterImpl::Custom(custom) => release matches MetricRelease::Run(plan) && release_plan(
            plan,
            custom.shutdown,
            custom.callbacks.shutdown,
            custom.callbacks.state_destroy,
            custom.user_data,
        ),
    }
}

impl<E> MetricExporterImpl<E> {
    /// Whether this is an exporter of the caller's own.
    pub fn is_custom(&self) -> (r: bool)
        ensures
            r == (self is Custom),
    {
        match self {
            MetricExporterImpl::Otlp(_) => false,
            MetricExporterImpl::Custom(_) => true,
        }
    }

    /// Gives the exporter up.
    pub fn release(self) -> (r: MetricRelease<E>)
        ensures
            metric_release(self, r),
    {
        match self {
            MetricExporterImpl::Otlp(transport) => MetricRelease::Drop(transport),
            MetricExporterImpl::Custom(custom) => MetricRelease::Run(custom.release()),
        }
    }
}

/// Destroys a Metrics exporter handle that was not transferred. Anything but a valid handle is left
/// alone.
pub fn otel_metric_exporter_destroy<E>(exporter: &mut Option<OtelMetricExporter<E>>) -> (r: Option<
    MetricRelease<E>,
>)
    ensures
        if *old(exporter) matches Some(handle) && is_valid(handle) {
            &&& *final(exporter) is None
            &&& r matches Some(release)
            &&& metric_release((*old(exporter))->0.exporter, release)
        } else {
            r is None && *final(exporter) == *old(exporter)
        },
{
    match destroy(exporter) {
        Some(handle) => Some(handle.exporter.release()),
        None => None,
    }
}

} // verus!
