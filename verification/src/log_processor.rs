//! Logs processor handles and the builders of simple and batch processors.

use vstd::prelude::*;

use crate::abi::OtelStatus;
use crate::error::{clear_last_error, fail, ErrorState};
use crate::handle::{
    checked_mut, checked_ref, destroy, handle_checked, is_valid, refused_handle, take,
    HasHandleHeader, OtelHandleHeader, OTEL_HANDLE_KIND_BATCH_LOG_PROCESSOR_BUILDER, OTEL_HANDLE_KIND_LOG_PROCESSOR,
};
use crate::log_exporter::{LogExporterImpl, OtelLogExporter};
use crate::time::Duration;

verus! {

/// The settings of a batch processor; `None` leaves one to the processor's default.
#[derive(Clone, Copy, Debug, PartialEq, Eq)]
pub struct BatchConfig {
    pub max_queue_size: Option<usize>,
    pub max_export_batch_size: Option<usize>,
    pub scheduled_delay: Option<Duration>,
}

/// A Logs processor of either kind, with the exporter it owns.
#[derive(Debug)]
pub enum LogProcessorImpl<E> {
    /// Exports each record on the emitting thread.
    Simple(LogExporterImpl<E>),
    /// Queues records and exports them from a thread of its own.
    Batch { exporter: LogExporterImpl<E>, config: BatchConfig },
}

/// Owns a processor until it is transferred or destroyed.
#[derive(Debug)]
pub struct OtelLogProcessor<E> {
    pub header: OtelHandleHeader,
    pub processor: LogProcessorImpl<E>,
}

impl<E> OtelLogProcessor<E> {
    /// A live handle.
    pub fn new(processor: LogProcessorImpl<E>) -> (r: Self)
        ensures
            is_valid(r),
            r.processor == processor,
    {
        OtelLogProcessor {
            header: OtelHandleHeader::new(OTEL_HANDLE_KIND_LOG_PROCESSOR),
            processor,
        }
    }
}

impl<E> HasHandleHeader for OtelLogProcessor<E> {
    open spec fn spec_type_kind() -> u64 {
        OTEL_HANDLE_KIND_LOG_PROCESSOR
    }

    open spec fn spec_header(&self) -> OtelHandleHeader {
        self.header
    }

    open spec fn with_header(self, header: OtelHandleHeader) -> Self {
        OtelLogProcessor { header, ..self }
    }

    fn type_kind() -> u64 {
        OTEL_HANDLE_KIND_LOG_PROCESSOR
    }

    fn header(&self) -> OtelHandleHeader {
        self.header
    }

    fn set_header(&mut self, header: OtelHandleHeader) {
        self.header = header;
    }
}

/// Destroys a processor handle that was not transferred and hands out what it owned. Anything but
/// a valid handle is left alone.
pub fn otel_log_processor_destroy<E>(processor: &mut Option<OtelLogProcessor<E>>) -> (r: Option<
    LogProcessorImpl<E>,
>)
    ensures
        if *old(processor) matches Some(handle) && is_valid(handle) {
            *final(processor) is None && r == Some((*old(processor))->0.processor)
        } else {
            r is None && *final(processor) == *old(processor)
        },
{
    match destroy(processor) {
        Some(handle) => Some(handle.processor),
        None => None,
    }
}

/// Builds a simple processor that takes the exporter over. A refused call leaves the exporter
/// with the caller.
pub fn otel_simple_log_processor_create<E>(
    errors: &mut ErrorState,
    exporter: &mut Option<OtelLogExporter<E>>,
    out: Option<&mut Option<OtelLogProcessor<E>>>,
) -> (r: OtelStatus)
    ensures
        match out {
            None => {
                &&& r == OtelStatus::InvalidArgument
                &&& final(errors).holds(
                    OtelStatus::InvalidArgument,
                    "out pointer must not be NULL"@,
                )
                &&& *final(exporter) == *old(exporter)
            },
            Some(slot) => if *old(exporter) matches Some(handle) && is_valid(handle) {
                &&& r == OtelStatus::Success
                &&& final(errors).is_clear()
                &&& *final(exporter) is None
                &&& *final(slot) matches Some(processor)
                &&& is_valid(processor)
                &&& processor.processor == LogProcessorImpl::Simple(
                    (*old(exporter))->0.exporter,
                )
            } else {
                &&& refused_handle(*old(exporter), r, *final(errors))
                &&& *final(exporter) == *old(exporter)
                &&& *final(slot) is None
            },
        },
{
    clear_last_error(errors);
    let slot = match out {
        None => return fail(errors, OtelStatus::InvalidArgument, "out pointer must not be NULL"),
        Some(slot) => slot,
    };
    *slot = None;
    match take(errors, exporter) {
        Some(owned) => {
            *slot = Some(OtelLogProcessor::new(LogProcessorImpl::Simple(owned.exporter)));
            OtelStatus::Success
        },
        None => OtelStatus::InvalidArgument,
    }
}

/// The accumulated configuration of a batch processor.
#[derive(Debug)]
pub struct BatchLogProcessorConfig<E> {
    pub exporter: Option<LogExporterImpl<E>>,
    pub max_queue_size: Option<usize>,
    pub max_export_batch_size: Option<usize>,
    pub scheduled_delay_millis: Option<u64>,
}

/// A builder of batch processors. Confined to one thread.
#[derive(Debug)]
pub struct OtelBatchLogProcessorBuilder<E> {
    pub header: OtelHandleHeader,
    pub config: BatchLogProcessorConfig<E>,
}

impl<E> HasHandleHeader for OtelBatchLogProcessorBuilder<E> {
    open spec fn spec_type_kind() -> u64 {
        OTEL_HANDLE_KIND_BATCH_LOG_PROCESSOR_BUILDER
    }

    open spec fn spec_header(&self) -> OtelHandleHeader {
        self.header
    }

    open spec fn with_header(self, header: OtelHandleHeader) -> Self {
        OtelBatchLogProcessorBuilder { header, ..self }
    }

    fn type_kind() -> u64 {
        OTEL_HANDLE_KIND_BATCH_LOG_PROCESSOR_BUILDER
    }

    fn header(&self) -> OtelHandleHeader {
        self.header
    }

    fn set_header(&mut self, header: OtelHandleHeader) {
        self.header = header;
    }
}

/// Creates a builder without settings.
pub fn otel_batch_log_processor_builder_new<E>(errors: &mut ErrorState) -> (r: OtelBatchLogProcessorBuilder<
    E,
>)
    ensures
        is_valid(r),
        r.config == (BatchLogProcessorConfig::<E> {
            exporter: None,
            max_queue_size: None,
            max_export_batch_size: None,
            scheduled_delay_millis: None,
        }),
        final(errors).is_clear(),
{
    clear_last_error(errors);
    OtelBatchLogProcessorBuilder {
        header: OtelHandleHeader::new(OTEL_HANDLE_KIND_BATCH_LOG_PROCESSOR_BUILDER),
        config: BatchLogProcessorConfig {
            exporter: None,
            max_queue_size: None,
            max_export_batch_size: None,
            scheduled_delay_millis: None,
        },
    }
}

/// Destroys a builder and hands out the exporter it still holds. Anything but a valid handle is
/// left alone.
pub fn otel_batch_log_processor_builder_destroy<E>(
    builder: &mut Option<OtelBatchLogProcessorBuilder<E>>,
) -> (r: Option<LogExporterImpl<E>>)
    ensures
        if *old(builder) matches Some(handle) && is_valid(handle) {
            *final(builder) is None && r == (*old(builder))->0.config.exporter
        } else {
            r is None && *final(builder) == *old(builder)
        },
{
    match destroy(builder) {
        Some(handle) => handle.config.exporter,
        None => None,
    }
}

/// What setting an exporter leaves behind.
pub open spec fn exporter_set<E>(
    before: OtelBatchLogProcessorBuilder<E>,
    after: OtelBatchLogProcessorBuilder<E>,
    exporter: LogExporterImpl<E>,
) -> bool {
    after == (OtelBatchLogProcessorBuilder {
        config: BatchLogProcessorConfig { exporter: Some(exporter), ..before.config },
        ..before
    })
}

/// Transfers an exporter into the builder, in place of any previous one, which is handed out with
/// the status to be released. The builder is checked first, and a refused call leaves the
/// exporter with the caller.
pub fn otel_batch_log_processor_builder_set_exporter<E>(
    errors: &mut ErrorState,
    builder: Option<&mut OtelBatchLogProcessorBuilder<E>>,
    exporter: &mut Option<OtelLogExporter<E>>,
) -> (r: (OtelStatus, Option<LogExporterImpl<E>>))
    ensures
        match builder {
            None => {
                &&& refused_handle(None::<OtelBatchLogProcessorBuilder<E>>, r.0, *final(errors))
                &&& r.1 is None
                &&& *final(exporter) == *old(exporter)
            },
            Some(b) => if !is_valid(*b) {
                &&& refused_handle(Some(*b), r.0, *final(errors))
                &&& r.1 is None
                &&& *final(b) == *b
                &&& *final(exporter) == *old(exporter)
            } else if *old(exporter) matches Some(handle) && is_valid(handle) {
                &&& r.0 == OtelStatus::Success
                &&& r.1 == b.config.exporter
                &&& final(errors).is_clear()
                &&& *final(exporter) is None
                &&& exporter_set(*b, *final(b), (*old(exporter))->0.exporter)
            } else {
                &&& refused_handle(*old(exporter), r.0, *final(errors))
                &&& r.1 is None
                &&& *final(b) == *b
                &&& *final(exporter) == *old(exporter)
            },
        },
{
    clear_last_error(errors);
    let builder = match checked_mut(errors, builder) {
        Some(builder) => builder,
        None => return (OtelStatus::InvalidArgument, None),
    };
    match take(errors, exporter) {
        Some(owned) => {
            let previous = builder.config.exporter.take();
            builder.config.exporter = Some(owned.exporter);
            (OtelStatus::Success, previous)
        },
        None => (OtelStatus::InvalidArgument, None),
    }
}

/// Sets the number of records that are buffered before new ones are dropped; zero is the default.
pub fn otel_batch_log_processor_builder_set_max_queue_size<E>(
    errors: &mut ErrorState,
    builder: Option<&mut OtelBatchLogProcessorBuilder<E>>,
    max_queue_size: usize,
) -> (r: OtelStatus)
    ensures
        match builder {
            None => refused_handle(None::<OtelBatchLogProcessorBuilder<E>>, r, *final(errors)),
            Some(b) => if is_valid(*b) {
                &&& r == OtelStatus::Success
                &&& final(errors).is_clear()
                &&& *final(b) == (OtelBatchLogProcessorBuilder {
                    config: BatchLogProcessorConfig {
                        max_queue_size: if max_queue_size == 0 {
                            None
                        } else {
                            Some(max_queue_size)
                        },
                        ..b.config
                    },
                    ..*b
                })
            } else {
                refused_handle(Some(*b), r, *final(errors)) && *final(b) == *b
            },
        },
{
    clear_last_error(errors);
    match checked_mut(errors, builder) {
        Some(builder) => {
            builder.config.max_queue_size = if max_queue_size == 0 {
                None
            } else {
                Some(max_queue_size)
            };
            OtelStatus::Success
        },
        None => OtelStatus::InvalidArgument,
    }
}

/// Sets the number of records exported at a time; zero is the default.
pub fn otel_batch_log_processor_builder_set_max_export_batch_size<E>(
    errors: &mut ErrorState,
    builder: Option<&mut OtelBatchLogProcessorBuilder<E>>,
    max_export_batch_size: usize,
) -> (r: OtelStatus)
    ensures
        match builder {
            None => refused_handle(None::<OtelBatchLogProcessorBuilder<E>>, r, *final(errors)),
            Some(b) => if is_valid(*b) {
                &&& r == OtelStatus::Success
                &&& final(errors).is_clear()
                &&& *final(b) == (OtelBatchLogProcessorBuilder {
                    config: BatchLogProcessorConfig {
                        max_export_batch_size: if max_export_batch_size == 0 {
                            None
                        } else {
                            Some(max_export_batch_size)
                        },
                        ..b.config
                    },
                    ..*b
                })
            } else {
                refused_handle(Some(*b), r, *final(errors)) && *final(b) == *b
            },
        },
{
    clear_last_error(errors);
    match checked_mut(errors, builder) {
        Some(builder) => {
            builder.config.max_export_batch_size = if max_export_batch_size == 0 {
                None
            } else {
                Some(max_export_batch_size)
            };
            OtelStatus::Success
        },
        None => OtelStatus::InvalidArgument,
    }
}

/// Sets the delay between exports in milliseconds; zero is the default.
pub fn otel_batch_log_processor_builder_set_scheduled_delay_millis<E>(
    errors: &mut ErrorState,
    builder: Option<&mut OtelBatchLogProcessorBuilder<E>>,
    scheduled_delay_millis: u64,
) -> (r: OtelStatus)
    ensures
        match builder {
            None => refused_handle(None::<OtelBatchLogProcessorBuilder<E>>, r, *final(errors)),
            Some(b) => if is_valid(*b) {
                &&& r == OtelStatus::Success
                &&& final(errors).is_clear()
                &&& *final(b) == (OtelBatchLogProcessorBuilder {
                    config: BatchLogProcessorConfig {
                        scheduled_delay_millis: if scheduled_delay_millis == 0 {
                            None
                        } else {
                            Some(scheduled_delay_millis)
                        },
                        ..b.config
                    },
                    ..*b
                })
            } else {
                refused_handle(Some(*b), r, *final(errors)) && *final(b) == *b
            },
        },
{
    clear_last_error(errors);
    match checked_mut(errors, builder) {
        Some(builder) => {
            builder.config.scheduled_delay_millis = if scheduled_delay_millis == 0 {
                None
            } else {
                Some(scheduled_delay_millis)
            };
            OtelStatus::Success
        },
        None => OtelStatus::InvalidArgument,
    }
}

/// The batch size exceeds the queue size, both being set.
pub open spec fn batch_exceeds_queue<E>(config: BatchLogProcessorConfig<E>) -> bool {
    config.max_queue_size matches Some(queue) && config.max_export_batch_size matches Some(batch)
        && batch > queue
}

/// The settings that a configuration hands to its processor.
pub open spec fn batch_config<E>(config: BatchLogProcessorConfig<E>) -> BatchConfig {
    BatchConfig {
        max_queue_size: config.max_queue_size,
        max_export_batch_size: config.max_export_batch_size,
        scheduled_delay: match config.scheduled_delay_millis {
            Some(millis) => Some(Duration::of_millis(millis)),
            None => None,
        },
    }
}

/// Why a configuration cannot be built, if it cannot.
pub open spec fn batch_build_refusal<E>(config: BatchLogProcessorConfig<E>) -> Option<Seq<char>> {
    if batch_exceeds_queue(config) {
        Some("batch log processor max_export_batch_size must not exceed max_queue_size"@)
    } else if config.exporter is None {
        Some("batch log processor requires an exporter"@)
    } else {
        None
    }
}

/// The configuration without its exporter, as a build leaves it.
pub open spec fn after_build<E>(config: BatchLogProcessorConfig<E>) -> BatchLogProcessorConfig<E> {
    BatchLogProcessorConfig { exporter: None, ..config }
}

/// Builds a batch processor, which takes the exporter of the builder over. A configuration that
/// is refused leaves the builder as it is.
pub fn otel_batch_log_processor_builder_build<E>(
    errors: &mut ErrorState,
    builder: Option<&mut OtelBatchLogProcessorBuilder<E>>,
    out: Option<&mut Option<OtelLogProcessor<E>>>,
) -> (r: OtelStatus)
    ensures
        match out {
            None => {
                &&& r == OtelStatus::InvalidArgument
                &&& final(errors).holds(
                    OtelStatus::InvalidArgument,
                    "out pointer must not be NULL"@,
                )
                &&& builder matches Some(b) ==> *final(b) == *b
            },
            Some(slot) => match builder {
                None => refused_handle(None::<OtelBatchLogProcessorBuilder<E>>, r, *final(errors))
                    && *final(slot) is None,
                Some(b) => if !is_valid(*b) {
                    &&& refused_handle(Some(*b), r, *final(errors))
                    &&& *final(b) == *b
                    &&& *final(slot) is None
                } else {
                    match batch_build_refusal(b.config) {
                        Some(message) => {
                            &&& r == OtelStatus::InvalidConfig
                            &&& final(errors).holds(OtelStatus::InvalidConfig, message)
                            &&& *final(b) == *b
                            &&& *final(slot) is None
                        },
                        None => {
                            &&& r == OtelStatus::Success
                            &&& final(errors).is_clear()
                            &&& *final(b) == (OtelBatchLogProcessorBuilder {
                                config: after_build(b.config),
                                ..*b
                            })
                            &&& *final(slot) matches Some(handle)
                            &&& is_valid(handle)
                            &&& handle.processor == (LogProcessorImpl::Batch {
                                exporter: b.config.exporter->0,
                                config: batch_config(b.config),
                            })
                        },
                    }
                },
            },
        },
{
    clear_last_error(errors);
    let slot = match out {
        None => return fail(errors, OtelStatus::InvalidArgument, "out pointer must not be NULL"),
        Some(slot) => slot,
    };
    *slot = None;
    let builder = match checked_mut(errors, builder) {
        Some(builder) => builder,
        None => return OtelStatus::InvalidArgument,
    };
    if let (Some(queue), Some(batch)) = (
        builder.config.max_queue_size,
        builder.config.max_export_batch_size,
    ) {
        if batch > queue {
            return fail(
                errors,
                OtelStatus::InvalidConfig,
                "batch log processor max_export_batch_size must not exceed max_queue_size",
            );
        }
    }
    let exporter = match builder.config.exporter.take() {
        Some(exporter) => exporter,
        None => return fail(
            errors,
            OtelStatus::InvalidConfig,
            "batch log processor requires an exporter",
        ),
    };
    let config = BatchConfig {
        max_queue_size: builder.config.max_queue_size,
        max_export_batch_size: builder.config.max_export_batch_size,
        scheduled_delay: match builder.config.scheduled_delay_millis {
            Some(millis) => Some(Duration::from_millis(millis)),
            None => None,
        },
    };
    *slot = Some(OtelLogProcessor::new(LogProcessorImpl::Batch { exporter, config }));
    OtelStatus::Success
}

/// A configuration that was built is built again only with a new exporter, and then with the
/// settings that it had.
pub proof fn second_build_needs_a_new_exporter<E>(
    config: BatchLogProcessorConfig<E>,
    exporter: LogExporterImpl<E>,
)
    requires
        batch_build_refusal(config) is None,
    ensures
        batch_build_refusal(after_build(config)) == Some(
            "batch log processor requires an exporter"@,
        ),
        ({
            let again = BatchLogProcessorConfig {
                exporter: Some(exporter),
                ..after_build(config)
            };
            batch_build_refusal(again) is None && batch_config(again) == batch_config(config)
        }),
{
}

/// Whether a builder, if it is one, holds an exporter.
pub fn builder_has_exporter<E>(
    errors: &mut ErrorState,
    builder: Option<&OtelBatchLogProcessorBuilder<E>>,
) -> (r: bool)
    ensures
        r == (builder matches Some(b) && is_valid(*b) && b.config.exporter is Some),
        handle_checked(
            match builder {
                Some(b) => Some(*b),
                None => None,
            },
            *old(errors),
            *final(errors),
        ),
{
    match checked_ref(errors, builder) {
        Some(builder) => builder.config.exporter.is_some(),
        None => false,
    }
}

} // verus!
