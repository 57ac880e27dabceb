//! Periodic Metrics readers and their builder.

use vstd::prelude::*;

use crate::abi::OtelStatus;
use crate::error::{clear_last_error, fail, ErrorState};
use crate::features::Features;
use crate::handle::{
    checked_mut, destroy, handle_checked, is_valid, refused_handle, take, HasHandleHeader,
    OtelHandleHeader, OTEL_HANDLE_KIND_PERIODIC_METRIC_READER,
    OTEL_HANDLE_KIND_PERIODIC_METRIC_READER_BUILDER,
};
use crate::metric_exporter::{MetricExporterImpl, OtelMetricExporter};
use crate::time::Duration;

verus! {

/// A builder of periodic readers. Confined to one thread.
#[derive(Debug)]
pub struct OtelPeriodicMetricReaderBuilder<E> {
    pub header: OtelHandleHeader,
    /// `None` leaves the interval to the reader's default.
    pub interval: Option<Duration>,
    pub exporter: Option<MetricExporterImpl<E>>,
}

/// A periodic reader: the exporter it owns and the interval it was given.
#[derive(Debug)]
pub struct PeriodicMetricReader<E> {
    pub exporter: MetricExporterImpl<E>,
    pub interval: Option<Duration>,
}

/// Owns a reader until it is transferred or destroyed.
#[derive(Debug)]
pub struct OtelPeriodicMetricReader<E> {
    pub header: OtelHandleHeader,
    pub reader: PeriodicMetricReader<E>,
}

impl<E> HasHandleHeader for OtelPeriodicMetricReaderBuilder<E> {
    open spec fn spec_type_kind() -> u64 {
        OTEL_HANDLE_KIND_PERIODIC_METRIC_READER_BUILDER
    }

    open spec fn spec_header(&self) -> OtelHandleHeader {
        self.header
    }

    open spec fn with_header(self, header: OtelHandleHeader) -> Self {
        OtelPeriodicMetricReaderBuilder { header, ..self }
    }

    fn type_kind() -> u64 {
        OTEL_HANDLE_KIND_PERIODIC_METRIC_READER_BUILDER
    }

    fn header(&self) -> OtelHandleHeader {
        self.header
    }

    fn set_header(&mut self, header: OtelHandleHeader) {
        self.header = header;
    }
}

impl<E> HasHandleHeader for OtelPeriodicMetricReader<E> {
    open spec fn spec_type_kind() -> u64 {
        OTEL_HANDLE_KIND_PERIODIC_METRIC_READER
    }

    open spec fn spec_header(&self) -> OtelHandleHeader {
        self.header
    }

    open spec fn with_header(self, header: OtelHandleHeader) -> Self {
        OtelPeriodicMetricReader { header, ..self }
    }

    fn type_kind() -> u64 {
        OTEL_HANDLE_KIND_PERIODIC_METRIC_READER
    }

    fn header(&self) -> OtelHandleHeader {
        self.header
    }

    fn set_header(&mut self, header: OtelHandleHeader) {
        self.header = header;
    }
}

/// Creates a builder without settings.
pub fn otel_periodic_metric_reader_builder_new<E>(errors: &mut ErrorState) -> (r:
    OtelPeriodicMetricReaderBuilder<E>)
    ensures
        is_valid(r),
        r.interval is None,
        r.exporter is None,
        final(errors).is_clear(),
{
    clear_last_error(errors);
    OtelPeriodicMetricReaderBuilder {
        header: OtelHandleHeader::new(OTEL_HANDLE_KIND_PERIODIC_METRIC_READER_BUILDER),
        interval: None,
        exporter: None,
    }
}

/// Destroys a builder and hands out the exporter it still holds. Anything but a valid handle is
/// left alone.
pub fn otel_periodic_metric_reader_builder_destroy<E>(
    builder: &mut Option<OtelPeriodicMetricReaderBuilder<E>>,
) -> (r: Option<MetricExporterImpl<E>>)
    ensures
        if *old(builder) matches Some(handle) && is_valid(handle) {
            *final(builder) is None && r == (*old(builder))->0.exporter
        } else {
            r is None && *final(builder) == *old(builder)
        },
{
    match destroy(builder) {
        Some(handle) => handle.exporter,
        None => None,
    }
}

/// The length of time that a number of milliseconds selects; zero selects none.
pub open spec fn selected_millis(millis: u64) -> Option<Duration> {
    if millis == 0 {
        None
    } else {
        Some(Duration::of_millis(millis))
    }
}

/// Sets the interval between collections; zero leaves it to the default.
pub fn otel_periodic_metric_reader_builder_set_interval_millis<E>(
    errors: &mut ErrorState,
    builder: Option<&mut OtelPeriodicMetricReaderBuilder<E>>,
    interval_millis: u64,
) -> (r: OtelStatus)
    ensures
        match builder {
            None => refused_handle(None::<OtelPeriodicMetricReaderBuilder<E>>, r, *final(errors)),
            Some(b) => if is_valid(*b) {
                &&& r == OtelStatus::Success
                &&& final(errors).is_clear()
                &&& *final(b) == (OtelPeriodicMetricReaderBuilder {
                    interval: selected_millis(interval_millis),
                    ..*b
                })
            } else {
                refused_handle(Some(*b), r, *final(errors)) && *final(b) == *b
            },
        },
{
    clear_last_error(errors);
    match checked_mut(errors, builder) {
        Some(builder) => {
            builder.interval = if interval_millis == 0 {
                None
            } else {
                Some(Duration::from_millis(interval_millis))
            };
            OtelStatus::Success
        },
        None => OtelStatus::InvalidArgument,
    }
}

/// Transfers an exporter into a builder that has none. A refused call leaves the exporter with the
/// caller.
pub fn otel_periodic_metric_reader_builder_set_exporter<E>(
    errors: &mut ErrorState,
    builder: Option<&mut OtelPeriodicMetricReaderBuilder<E>>,
    exporter: &mut Option<OtelMetricExporter<E>>,
) -> (r: OtelStatus)
    ensures
        match builder {
            None => refused_handle(None::<OtelPeriodicMetricReaderBuilder<E>>, r, *final(errors))
                && *final(exporter) == *old(exporter),
            Some(b) => if !is_valid(*b) {
                &&& refused_handle(Some(*b), r, *final(errors))
                &&& *final(b) == *b
                &&& *final(exporter) == *old(exporter)
            } else if b.exporter is Some {
                &&& r == OtelStatus::InvalidConfig
                &&& final(errors).holds(
                    OtelStatus::InvalidConfig,
                    "periodic metric reader already has an exporter"@,
                )
                &&& *final(b) == *b
                &&& *final(exporter) == *old(exporter)
            } else if *old(exporter) matches Some(handle) && is_valid(handle) {
                &&& r == OtelStatus::Success
                &&& final(errors).is_clear()
                &&& *final(exporter) is None
                &&& *final(b) == (OtelPeriodicMetricReaderBuilder {
                    exporter: Some((*old(exporter))->0.exporter),
                    ..*b
                })
            } else {
                &&& refused_handle(*old(exporter), r, *final(errors))
                &&& *final(b) == *b
                &&& *final(exporter) == *old(exporter)
            },
        },
{
    clear_last_error(errors);
    let builder = match checked_mut(errors, builder) {
        Some(builder) => builder,
        None => return OtelStatus::InvalidArgument,
    };
    if builder.exporter.is_some() {
        return fail(
            errors,
            OtelStatus::InvalidConfig,
            "periodic metric reader already has an exporter",
        );
    }
    match take(errors, exporter) {
        Some(owned) => {
            builder.exporter = Some(owned.exporter);
            OtelStatus::Success
        },
        None => OtelStatus::InvalidArgument,
    }
}

/// Builds a reader, which takes the exporter of the builder over. A custom exporter needs no OTLP
/// transport. Any other leaves the builder without one all the same, and is handed out to be
/// released.
pub fn otel_periodic_metric_reader_builder_build<E>(
    errors: &mut ErrorState,
    features: Features,
    builder: Option<&mut OtelPeriodicMetricReaderBuilder<E>>,
    out: Option<&mut Option<OtelPeriodicMetricReader<E>>>,
) -> (r: (OtelStatus, Option<MetricExporterImpl<E>>))
    ensures
        match out {
            None => {
                &&& r.0 == OtelStatus::InvalidArgument
                &&& r.1 is None
                &&& final(errors).holds(
                    OtelStatus::InvalidArgument,
                    "out pointer must not be NULL"@,
                )
                &&& builder matches Some(b) ==> *final(b) == *b
            },
            Some(slot) => match builder {
                None => {
                    &&& refused_handle(
                        None::<OtelPeriodicMetricReaderBuilder<E>>,
                        r.0,
                        *final(errors),
                    )
                    &&& r.1 is None
                    &&& *final(slot) is None
                },
                Some(b) => if !is_valid(*b) {
                    &&& refused_handle(Some(*b), r.0, *final(errors))
                    &&& r.1 is None
                    &&& *final(b) == *b
                    &&& *final(slot) is None
                } else if b.exporter is None {
                    &&& r.0 == OtelStatus::InvalidConfig
                    &&& r.1 is None
                    &&& final(errors).holds(
                        OtelStatus::InvalidConfig,
                        "periodic metric reader requires an exporter"@,
                    )
                    &&& *final(b) == *b
                    &&& *final(slot) is None
                } else {
                    &&& *final(b) == (OtelPeriodicMetricReaderBuilder { exporter: None, ..*b })
                    &&& if b.exporter->0 is Custom || features.spec_has_transport() {
                        &&& r.0 == OtelStatus::Success
                        &&& r.1 is None
                        &&& final(errors).is_clear()
                        &&& *final(slot) matches Some(handle)
                        &&& is_valid(handle)
                        &&& handle.reader == (PeriodicMetricReader {
                            exporter: b.exporter->0,
                            interval: b.interval,
                        })
                    } else {
                        &&& r.0 == OtelStatus::InvalidConfig
                        &&& r.1 == b.exporter
                        &&& final(errors).holds(
                            OtelStatus::InvalidConfig,
                            "periodic metric reader is unavailable without an OTLP transport feature"@,
                        )
                        &&& *final(slot) is None
                    }
                },
            },
        },
{
    clear_last_error(errors);
    let slot = match out {
        None => return (
            fail(errors, OtelStatus::InvalidArgument, "out pointer must not be NULL"),
            None,
        ),
        Some(slot) => slot,
    };
    *slot = None;
    let builder = match checked_mut(errors, builder) {
        Some(builder) => builder,
        None => return (OtelStatus::InvalidArgument, None),
    };
    let exporter = match builder.exporter.take() {
        Some(exporter) => exporter,
        None => return (
            fail(
                errors,
                OtelStatus::InvalidConfig,
                "periodic metric reader requires an exporter",
            ),
            None,
        ),
    };
    if !exporter.is_custom() && !features.has_transport() {
        let status = fail(
            errors,
            OtelStatus::InvalidConfig,
            "periodic metric reader is unavailable without an OTLP transport feature",
        );
        return (status, Some(exporter));
    }
    *slot =
    Some(
        OtelPeriodicMetricReader {
            header: OtelHandleHeader::new(OTEL_HANDLE_KIND_PERIODIC_METRIC_READER),
            reader: PeriodicMetricReader { exporter, interval: builder.interval },
        },
    );
    (OtelStatus::Success, None)
}

/// Destroys a reader handle and hands out the reader to be shut down. Anything but a valid handle
/// is left alone, and its diagnostic recorded.
pub fn otel_periodic_metric_reader_destroy<E>(
    errors: &mut ErrorState,
    reader: &mut Option<OtelPeriodicMetricReader<E>>,
) -> (r: Option<PeriodicMetricReader<E>>)
    ensures
        handle_checked(*old(reader), *old(errors), *final(errors)),
        if *old(reader) matches Some(handle) && is_valid(handle) {
            *final(reader) is None && r == Some((*old(reader))->0.reader)
        } else {
            r is None && *final(reader) == *old(reader)
        },
{
    match take(errors, reader) {
        Some(handle) => Some(handle.reader),
        None => None,
    }
}

} // verus!
