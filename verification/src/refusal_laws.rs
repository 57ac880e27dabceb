//! What a missing or an unusable argument comes to: the call is refused as the caller's mistake, the
//! cause is told, and nothing changes hands.

use vstd::prelude::*;

use crate::abi::{
    OtelArrayView,
    OtelStatus,
    OtelStringView,
};
use crate::custom_log_exporter::{
    otel_custom_log_exporter_new,
    OtelCustomLogExporterCallbacks,
};
use crate::custom_metric_exporter::{
    otel_custom_metric_exporter_new,
    OtelCustomMetricExporterCallbacks,
};
use crate::custom_trace_exporter::{
    otel_custom_trace_exporter_new,
    TraceCallbackLayout,
};
use crate::error::ErrorState;
use crate::features::Features;
use crate::handle::{
    is_valid,
    HasHandleHeader,
};
use crate::log_exporter::{
    LogExporterImpl,
    OtelLogExporter,
};
use crate::log_processor::{
    otel_batch_log_processor_builder_build,
    otel_batch_log_processor_builder_set_exporter,
    otel_batch_log_processor_builder_set_max_export_batch_size,
    otel_batch_log_processor_builder_set_max_queue_size,
    otel_batch_log_processor_builder_set_scheduled_delay_millis,
    otel_log_processor_destroy,
    otel_simple_log_processor_create,
    LogProcessorImpl,
    OtelBatchLogProcessorBuilder,
    OtelLogProcessor,
};
use crate::manual_metric_reader::{
    otel_manual_metric_reader_new,
    OtelManualMetricReader,
};
use crate::metric_exporter::{
    MetricExporterImpl,
    OtelMetricExporter,
};
use crate::metric_view::{
    otel_metric_view_builder_add_allowed_attribute,
    otel_metric_view_builder_build,
    otel_metric_view_builder_set_aggregation,
    otel_metric_view_builder_set_attribute_filter_enabled,
    otel_metric_view_builder_set_cardinality_limit,
    otel_metric_view_builder_set_explicit_histogram,
    otel_metric_view_builder_set_exponential_histogram,
    otel_metric_view_builder_set_instrument_kind,
    otel_metric_view_builder_set_meter_name,
    otel_metric_view_builder_set_name_pattern,
    otel_metric_view_builder_set_output_description,
    otel_metric_view_builder_set_output_name,
    otel_metric_view_builder_set_output_unit,
    otel_metric_view_builder_set_unit,
    OtelMetricView,
    OtelMetricViewBuilder,
};
use crate::otlp_config::OtlpPlan;
use crate::otlp_exporter::{
    otel_otlp_trace_exporter_builder_add_header,
    otel_otlp_trace_exporter_builder_build,
    otel_otlp_trace_exporter_builder_set_compression,
    otel_otlp_trace_exporter_builder_set_endpoint,
    otel_otlp_trace_exporter_builder_set_timeout_millis,
    otel_otlp_trace_exporter_builder_set_transport,
    OtelOtlpTraceExporterBuilder,
};
use crate::otlp_metric_exporter::{
    otel_otlp_metric_exporter_builder_add_header,
    otel_otlp_metric_exporter_builder_build,
    otel_otlp_metric_exporter_builder_set_compression,
    otel_otlp_metric_exporter_builder_set_endpoint,
    otel_otlp_metric_exporter_builder_set_temporality,
    otel_otlp_metric_exporter_builder_set_timeout_millis,
    otel_otlp_metric_exporter_builder_set_transport,
    OtelOtlpMetricExporterBuilder,
};
use crate::periodic_metric_reader::{
    otel_periodic_metric_reader_builder_build,
    otel_periodic_metric_reader_builder_set_exporter,
    otel_periodic_metric_reader_builder_set_interval_millis,
    OtelPeriodicMetricReader,
    OtelPeriodicMetricReaderBuilder,
};
use crate::pipeline_laws::usable;
use crate::trace_exporter::OtelTraceExporter;

verus! {

/// The error slot tells why the handle was refused: it is missing, not live, or of another kind.
pub open spec fn tells_handle_cause<T: HasHandleHeader>(
    handle: Option<T>,
    errors: ErrorState,
) -> bool {
    &&& handle is None ==> errors.message@ == "null handle passed to OpenTelemetry C API"@
    &&& handle matches Some(h) ==> errors.message@ == (if h.spec_header().live() {
        "handle failed validation: wrong OpenTelemetry C handle type"@
    } else {
        "handle failed validation: not a live OpenTelemetry C handle"@
    })
}

/// The error slot tells that there is no place for the result.
pub open spec fn tells_missing_out(errors: ErrorState) -> bool {
    &&& errors.last_status == OtelStatus::InvalidArgument
    &&& errors.message@ == "out pointer must not be NULL"@
}

/// The builder behind the reference, as it is before the call.
pub open spec fn given<T>(builder: Option<&mut T>) -> Option<T> {
    match builder {
        Some(b) => Some(*b),
        None => None,
    }
}

/// `otel_batch_log_processor_builder_set_max_queue_size` refuses a builder that is missing, not live or of another kind, and reports success and
/// failure in the error slot too.
pub proof fn batch_log_processor_set_max_queue_size_needs_a_builder<E>(
    errors: &mut ErrorState,
    builder: Option<&mut OtelBatchLogProcessorBuilder<E>>,
    size: usize,
    r: OtelStatus,
)
    requires
        call_ensures(
            otel_batch_log_processor_builder_set_max_queue_size::<E>,
            (errors, builder, size),
            r,
        ),
    ensures
        !usable(given(builder)) ==> {
            &&& r == OtelStatus::InvalidArgument
            &&& tells_handle_cause(given(builder), *final(errors))
            &&& builder matches Some(b) ==> *final(b) == *b
        },
        usable(given(builder)) ==> final(errors).last_status == r,
        r == OtelStatus::Success ==> final(errors).message@.len() == 0,
{
}

/// `otel_batch_log_processor_builder_set_max_export_batch_size` refuses a builder that is missing, not live or of another kind, and reports success and
/// failure in the error slot too.
pub proof fn batch_log_processor_set_max_export_batch_size_needs_a_builder<E>(
    errors: &mut ErrorState,
    builder: Option<&mut OtelBatchLogProcessorBuilder<E>>,
    size: usize,
    r: OtelStatus,
)
    requires
        call_ensures(
            otel_batch_log_processor_builder_set_max_export_batch_size::<E>,
            (errors, builder, size),
            r,
        ),
    ensures
        !usable(given(builder)) ==> {
            &&& r == OtelStatus::InvalidArgument
            &&& tells_handle_cause(given(builder), *final(errors))
            &&& builder matches Some(b) ==> *final(b) == *b
        },
        usable(given(builder)) ==> final(errors).last_status == r,
        r == OtelStatus::Success ==> final(errors).message@.len() == 0,
{
}

/// `otel_batch_log_processor_builder_set_scheduled_delay_millis` refuses a builder that is missing, not live or of another kind, and reports success and
/// failure in the error slot too.
pub proof fn batch_log_processor_set_scheduled_delay_millis_needs_a_builder<E>(
    errors: &mut ErrorState,
    builder: Option<&mut OtelBatchLogProcessorBuilder<E>>,
    millis: u64,
    r: OtelStatus,
)
    requires
        call_ensures(
            otel_batch_log_processor_builder_set_scheduled_delay_millis::<E>,
            (errors, builder, millis),
            r,
        ),
    ensures
        !usable(given(builder)) ==> {
            &&& r == OtelStatus::InvalidArgument
            &&& tells_handle_cause(given(builder), *final(errors))
            &&& builder matches Some(b) ==> *final(b) == *b
        },
        usable(given(builder)) ==> final(errors).last_status == r,
        r == OtelStatus::Success ==> final(errors).message@.len() == 0,
{
}

/// `otel_periodic_metric_reader_builder_set_interval_millis` refuses a builder that is missing, not live or of another kind, and reports success and
/// failure in the error slot too.
pub proof fn periodic_metric_reader_set_interval_millis_needs_a_builder<E>(
    errors: &mut ErrorState,
    builder: Option<&mut OtelPeriodicMetricReaderBuilder<E>>,
    millis: u64,
    r: OtelStatus,
)
    requires
        call_ensures(
            otel_periodic_metric_reader_builder_set_interval_millis::<E>,
            (errors, builder, millis),
            r,
        ),
    ensures
        !usable(given(builder)) ==> {
            &&& r == OtelStatus::InvalidArgument
            &&& tells_handle_cause(given(builder), *final(errors))
            &&& builder matches Some(b) ==> *final(b) == *b
        },
        usable(given(builder)) ==> final(errors).last_status == r,
        r == OtelStatus::Success ==> final(errors).message@.len() == 0,
{
}

/// `otel_metric_view_builder_set_name_pattern` refuses a builder that is missing, not live or of another kind, and reports success and
/// failure in the error slot too.
pub proof fn metric_view_set_name_pattern_needs_a_builder(
    errors: &mut ErrorState,
    builder: Option<&mut OtelMetricViewBuilder>,
    value: OtelStringView,
    r: OtelStatus,
)
    requires
        call_ensures(
            otel_metric_view_builder_set_name_pattern,
            (errors, builder, value),
            r,
        ),
    ensures
        !usable(given(builder)) ==> {
            &&& r == OtelStatus::InvalidArgument
            &&& tells_handle_cause(given(builder), *final(errors))
            &&& builder matches Some(b) ==> *final(b) == *b
        },
        usable(given(builder)) ==> final(errors).last_status == r,
        r == OtelStatus::Success ==> final(errors).message@.len() == 0,
{
}

/// `otel_metric_view_builder_set_meter_name` refuses a builder that is missing, not live or of another kind, and reports success and
/// failure in the error slot too.
pub proof fn metric_view_set_meter_name_needs_a_builder(
    errors: &mut ErrorState,
    builder: Option<&mut OtelMetricViewBuilder>,
    value: OtelStringView,
    r: OtelStatus,
)
    requires
        call_ensures(
            otel_metric_view_builder_set_meter_name,
            (errors, builder, value),
            r,
        ),
    ensures
        !usable(given(builder)) ==> {
            &&& r == OtelStatus::InvalidArgument
            &&& tells_handle_cause(given(builder), *final(errors))
            &&& builder matches Some(b) ==> *final(b) == *b
        },
        usable(given(builder)) ==> final(errors).last_status == r,
        r == OtelStatus::Success ==> final(errors).message@.len() == 0,
{
}

/// `otel_metric_view_builder_set_unit` refuses a builder that is missing, not live or of another kind, and reports success and
/// failure in the error slot too.
pub proof fn metric_view_set_unit_needs_a_builder(
    errors: &mut ErrorState,
    builder: Option<&mut OtelMetricViewBuilder>,
    value: OtelStringView,
    r: OtelStatus,
)
    requires
        call_ensures(
            otel_metric_view_builder_set_unit,
            (errors, builder, value),
            r,
        ),
    ensures
        !usable(given(builder)) ==> {
            &&& r == OtelStatus::InvalidArgument
            &&& tells_handle_cause(given(builder), *final(errors))
            &&& builder matches Some(b) ==> *final(b) == *b
        },
        usable(given(builder)) ==> final(errors).last_status == r,
        r == OtelStatus::Success ==> final(errors).message@.len() == 0,
{
}

/// `otel_metric_view_builder_set_output_name` refuses a builder that is missing, not live or of another kind, and reports success and
/// failure in the error slot too.
pub proof fn metric_view_set_output_name_needs_a_builder(
    errors: &mut ErrorState,
    builder: Option<&mut OtelMetricViewBuilder>,
    value: OtelStringView,
    r: OtelStatus,
)
    requires
        call_ensures(
            otel_metric_view_builder_set_output_name,
            (errors, builder, value),
            r,
        ),
    ensures
        !usable(given(builder)) ==> {
            &&& r == OtelStatus::InvalidArgument
            &&& tells_handle_cause(given(builder), *final(errors))
            &&& builder matches Some(b) ==> *final(b) == *b
        },
        usable(given(builder)) ==> final(errors).last_status == r,
        r == OtelStatus::Success ==> final(errors).message@.len() == 0,
{
}

/// `otel_metric_view_builder_set_output_description` refuses a builder that is missing, not live or of another kind, and reports success and
/// failure in the error slot too.
pub proof fn metric_view_set_output_description_needs_a_builder(
    errors: &mut ErrorState,
    builder: Option<&mut OtelMetricViewBuilder>,
    value: OtelStringView,
    r: OtelStatus,
)
    requires
        call_ensures(
            otel_metric_view_builder_set_output_description,
            (errors, builder, value),
            r,
        ),
    ensures
        !usable(given(builder)) ==> {
            &&& r == OtelStatus::InvalidArgument
            &&& tells_handle_cause(given(builder), *final(errors))
            &&& builder matches Some(b) ==> *final(b) == *b
        },
        usable(given(builder)) ==> final(errors).last_status == r,
        r == OtelStatus::Success ==> final(errors).message@.len() == 0,
{
}

/// `otel_metric_view_builder_set_output_unit` refuses a builder that is missing, not live or of another kind, and reports success and
/// failure in the error slot too.
pub proof fn metric_view_set_output_unit_needs_a_builder(
    errors: &mut ErrorState,
    builder: Option<&mut OtelMetricViewBuilder>,
    value: OtelStringView,
    r: OtelStatus,
)
    requires
        call_ensures(
            otel_metric_view_builder_set_output_unit,
            (errors, builder, value),
            r,
        ),
    ensures
        !usable(given(builder)) ==> {
            &&& r == OtelStatus::InvalidArgument
            &&& tells_handle_cause(given(builder), *final(errors))
            &&& builder matches Some(b) ==> *final(b) == *b
        },
        usable(given(builder)) ==> final(errors).last_status == r,
        r == OtelStatus::Success ==> final(errors).message@.len() == 0,
{
}

/// `otel_metric_view_builder_set_instrument_kind` refuses a builder that is missing, not live or of another kind, and reports success and
/// failure in the error slot too.
pub proof fn metric_view_set_instrument_kind_needs_a_builder(
    errors: &mut ErrorState,
    builder: Option<&mut OtelMetricViewBuilder>,
    kind: u32,
    r: OtelStatus,
)
    requires
        call_ensures(
            otel_metric_view_builder_set_instrument_kind,
            (errors, builder, kind),
            r,
        ),
    ensures
        !usable(given(builder)) ==> {
            &&& r == OtelStatus::InvalidArgument
            &&& tells_handle_cause(given(builder), *final(errors))
            &&& builder matches Some(b) ==> *final(b) == *b
        },
        usable(given(builder)) ==> final(errors).last_status == r,
        r == OtelStatus::Success ==> final(errors).message@.len() == 0,
{
}

/// `otel_metric_view_builder_add_allowed_attribute` refuses a builder that is missing, not live or of another kind, and reports success and
/// failure in the error slot too.
pub proof fn metric_view_add_allowed_attribute_needs_a_builder(
    errors: &mut ErrorState,
    builder: Option<&mut OtelMetricViewBuilder>,
    key: OtelStringView,
    r: OtelStatus,
)
    requires
        call_ensures(
            otel_metric_view_builder_add_allowed_attribute,
            (errors, builder, key),
            r,
        ),
    ensures
        !usable(given(builder)) ==> {
            &&& r == OtelStatus::InvalidArgument
            &&& tells_handle_cause(given(builder), *final(errors))
            &&& builder matches Some(b) ==> *final(b) == *b
        },
        usable(given(builder)) ==> final(errors).last_status == r,
        r == OtelStatus::Success ==> final(errors).message@.len() == 0,
{
}

/// `otel_metric_view_builder_set_attribute_filter_enabled` refuses a builder that is missing, not live or of another kind, and reports success and
/// failure in the error slot too.
pub proof fn metric_view_set_attribute_filter_enabled_needs_a_builder(
    errors: &mut ErrorState,
    builder: Option<&mut OtelMetricViewBuilder>,
    enabled: u32,
    r: OtelStatus,
)
    requires
        call_ensures(
            otel_metric_view_builder_set_attribute_filter_enabled,
            (errors, builder, enabled),
            r,
        ),
    ensures
        !usable(given(builder)) ==> {
            &&& r == OtelStatus::InvalidArgument
            &&& tells_handle_cause(given(builder), *final(errors))
            &&& builder matches Some(b) ==> *final(b) == *b
        },
        usable(given(builder)) ==> final(errors).last_status == r,
        r == OtelStatus::Success ==> final(errors).message@.len() == 0,
{
}

/// `otel_metric_view_builder_set_cardinality_limit` refuses a builder that is missing, not live or of another kind, and reports success and
/// failure in the error slot too.
pub proof fn metric_view_set_cardinality_limit_needs_a_builder(
    errors: &mut ErrorState,
    builder: Option<&mut OtelMetricViewBuilder>,
    limit: u64,
    r: OtelStatus,
)
    requires
        call_ensures(
            otel_metric_view_builder_set_cardinality_limit,
            (errors, builder, limit),
            r,
        ),
    ensures
        !usable(given(builder)) ==> {
            &&& r == OtelStatus::InvalidArgument
            &&& tells_handle_cause(given(builder), *final(errors))
            &&& builder matches Some(b) ==> *final(b) == *b
        },
        usable(given(builder)) ==> final(errors).last_status == r,
        r == OtelStatus::Success ==> final(errors).message@.len() == 0,
{
}

/// `otel_metric_view_builder_set_aggregation` refuses a builder that is missing, not live or of another kind, and reports success and
/// failure in the error slot too.
pub proof fn metric_view_set_aggregation_needs_a_builder(
    errors: &mut ErrorState,
    builder: Option<&mut OtelMetricViewBuilder>,
    aggregation: u32,
    r: OtelStatus,
)
    requires
        call_ensures(
            otel_metric_view_builder_set_aggregation,
            (errors, builder, aggregation),
            r,
        ),
    ensures
        !usable(given(builder)) ==> {
            &&& r == OtelStatus::InvalidArgument
            &&& tells_handle_cause(given(builder), *final(errors))
            &&& builder matches Some(b) ==> *final(b) == *b
        },
        usable(given(builder)) ==> final(errors).last_status == r,
        r == OtelStatus::Success ==> final(errors).message@.len() == 0,
{
}

/// `otel_metric_view_builder_set_explicit_histogram` refuses a builder that is missing, not live or of another kind, and reports success and
/// failure in the error slot too.
pub proof fn metric_view_set_explicit_histogram_needs_a_builder(
    errors: &mut ErrorState,
    builder: Option<&mut OtelMetricViewBuilder>,
    boundaries: OtelArrayView<u64>,
    record_min_max: u32,
    r: OtelStatus,
)
    requires
        call_ensures(
            otel_metric_view_builder_set_explicit_histogram,
            (errors, builder, boundaries, record_min_max),
            r,
        ),
    ensures
        !usable(given(builder)) ==> {
            &&& r == OtelStatus::InvalidArgument
            &&& tells_handle_cause(given(builder), *final(errors))
            &&& builder matches Some(b) ==> *final(b) == *b
        },
        usable(given(builder)) ==> final(errors).last_status == r,
        r == OtelStatus::Success ==> final(errors).message@.len() == 0,
{
}

/// `otel_metric_view_builder_set_exponential_histogram` refuses a builder that is missing, not live or of another kind, and reports success and
/// failure in the error slot too.
pub proof fn metric_view_set_exponential_histogram_needs_a_builder(
    errors: &mut ErrorState,
    builder: Option<&mut OtelMetricViewBuilder>,
    max_size: u32,
    max_scale: i8,
    record_min_max: u32,
    r: OtelStatus,
)
    requires
        call_ensures(
            otel_metric_view_builder_set_exponential_histogram,
            (errors, builder, max_size, max_scale, record_min_max),
            r,
        ),
    ensures
        !usable(given(builder)) ==> {
            &&& r == OtelStatus::InvalidArgument
            &&& tells_handle_cause(given(builder), *final(errors))
            &&& builder matches Some(b) ==> *final(b) == *b
        },
        usable(given(builder)) ==> final(errors).last_status == r,
        r == OtelStatus::Success ==> final(errors).message@.len() == 0,
{
}

/// `otel_otlp_trace_exporter_builder_set_endpoint` refuses a builder that is missing, not live or of another kind, and reports success and
/// failure in the error slot too.
pub proof fn otlp_trace_exporter_set_endpoint_needs_a_builder(
    errors: &mut ErrorState,
    builder: Option<&mut OtelOtlpTraceExporterBuilder>,
    endpoint: OtelStringView,
    r: OtelStatus,
)
    requires
        call_ensures(
            otel_otlp_trace_exporter_builder_set_endpoint,
            (errors, builder, endpoint),
            r,
        ),
    ensures
        !usable(given(builder)) ==> {
            &&& r == OtelStatus::InvalidArgument
            &&& tells_handle_cause(given(builder), *final(errors))
            &&& builder matches Some(b) ==> *final(b) == *b
        },
        usable(given(builder)) ==> final(errors).last_status == r,
        r == OtelStatus::Success ==> final(errors).message@.len() == 0,
{
}

/// `otel_otlp_trace_exporter_builder_add_header` refuses a builder that is missing, not live or of another kind, and reports success and
/// failure in the error slot too.
pub proof fn otlp_trace_exporter_add_header_needs_a_builder(
    errors: &mut ErrorState,
    builder: Option<&mut OtelOtlpTraceExporterBuilder>,
    key: OtelStringView,
    value: OtelStringView,
    r: OtelStatus,
)
    requires
        call_ensures(
            otel_otlp_trace_exporter_builder_add_header,
            (errors, builder, key, value),
            r,
        ),
    ensures
        !usable(given(builder)) ==> {
            &&& r == OtelStatus::InvalidArgument
            &&& tells_handle_cause(given(builder), *final(errors))
            &&& builder matches Some(b) ==> *final(b) == *b
        },
        usable(given(builder)) ==> final(errors).last_status == r,
        r == OtelStatus::Success ==> final(errors).message@.len() == 0,
{
}

/// `otel_otlp_trace_exporter_builder_set_timeout_millis` refuses a builder that is missing, not live or of another kind, and reports success and
/// failure in the error slot too.
pub proof fn otlp_trace_exporter_set_timeout_millis_needs_a_builder(
    errors: &mut ErrorState,
    builder: Option<&mut OtelOtlpTraceExporterBuilder>,
    millis: u64,
    r: OtelStatus,
)
    requires
        call_ensures(
            otel_otlp_trace_exporter_builder_set_timeout_millis,
            (errors, builder, millis),
            r,
        ),
    ensures
        !usable(given(builder)) ==> {
            &&& r == OtelStatus::InvalidArgument
            &&& tells_handle_cause(given(builder), *final(errors))
            &&& builder matches Some(b) ==> *final(b) == *b
        },
        usable(given(builder)) ==> final(errors).last_status == r,
        r == OtelStatus::Success ==> final(errors).message@.len() == 0,
{
}

/// `otel_otlp_trace_exporter_builder_set_transport` refuses a builder that is missing, not live or of another kind, and reports success and
/// failure in the error slot too.
pub proof fn otlp_trace_exporter_set_transport_needs_a_builder(
    errors: &mut ErrorState,
    builder: Option<&mut OtelOtlpTraceExporterBuilder>,
    transport: u32,
    r: OtelStatus,
)
    requires
        call_ensures(
            otel_otlp_trace_exporter_builder_set_transport,
            (errors, builder, transport),
            r,
        ),
    ensures
        !usable(given(builder)) ==> {
            &&& r == OtelStatus::InvalidArgument
            &&& tells_handle_cause(given(builder), *final(errors))
            &&& builder matches Some(b) ==> *final(b) == *b
        },
        usable(given(builder)) ==> final(errors).last_status == r,
        r == OtelStatus::Success ==> final(errors).message@.len() == 0,
{
}

/// `otel_otlp_trace_exporter_builder_set_compression` refuses a builder that is missing, not live or of another kind, and reports success and
/// failure in the error slot too.
pub proof fn otlp_trace_exporter_set_compression_needs_a_builder(
    errors: &mut ErrorState,
    builder: Option<&mut OtelOtlpTraceExporterBuilder>,
    compression: u32,
    r: OtelStatus,
)
    requires
        call_ensures(
            otel_otlp_trace_exporter_builder_set_compression,
            (errors, builder, compression),
            r,
        ),
    ensures
        !usable(given(builder)) ==> {
            &&& r == OtelStatus::InvalidArgument
            &&& tells_handle_cause(given(builder), *final(errors))
            &&& builder matches Some(b) ==> *final(b) == *b
        },
        usable(given(builder)) ==> final(errors).last_status == r,
        r == OtelStatus::Success ==> final(errors).message@.len() == 0,
{
}

/// `otel_otlp_metric_exporter_builder_set_endpoint` refuses a builder that is missing, not live or of another kind, and reports success and
/// failure in the error slot too.
pub proof fn otlp_metric_exporter_set_endpoint_needs_a_builder(
    errors: &mut ErrorState,
    builder: Option<&mut OtelOtlpMetricExporterBuilder>,
    endpoint: OtelStringView,
    r: OtelStatus,
)
    requires
        call_ensures(
            otel_otlp_metric_exporter_builder_set_endpoint,
            (errors, builder, endpoint),
            r,
        ),
    ensures
        !usable(given(builder)) ==> {
            &&& r == OtelStatus::InvalidArgument
            &&& tells_handle_cause(given(builder), *final(errors))
            &&& builder matches Some(b) ==> *final(b) == *b
        },
        usable(given(builder)) ==> final(errors).last_status == r,
        r == OtelStatus::Success ==> final(errors).message@.len() == 0,
{
}

/// `otel_otlp_metric_exporter_builder_add_header` refuses a builder that is missing, not live or of another kind, and reports success and
/// failure in the error slot too.
pub proof fn otlp_metric_exporter_add_header_needs_a_builder(
    errors: &mut ErrorState,
    builder: Option<&mut OtelOtlpMetricExporterBuilder>,
    key: OtelStringView,
    value: OtelStringView,
    r: OtelStatus,
)
    requires
        call_ensures(
            otel_otlp_metric_exporter_builder_add_header,
            (errors, builder, key, value),
            r,
        ),
    ensures
        !usable(given(builder)) ==> {
            &&& r == OtelStatus::InvalidArgument
            &&& tells_handle_cause(given(builder), *final(errors))
            &&& builder matches Some(b) ==> *final(b) == *b
        },
        usable(given(builder)) ==> final(errors).last_status == r,
        r == OtelStatus::Success ==> final(errors).message@.len() == 0,
{
}

/// `otel_otlp_metric_exporter_builder_set_timeout_millis` refuses a builder that is missing, not live or of another kind, and reports success and
/// failure in the error slot too.
pub proof fn otlp_metric_exporter_set_timeout_millis_needs_a_builder(
    errors: &mut ErrorState,
    builder: Option<&mut OtelOtlpMetricExporterBuilder>,
    millis: u64,
    r: OtelStatus,
)
    requires
        call_ensures(
            otel_otlp_metric_exporter_builder_set_timeout_millis,
            (errors, builder, millis),
            r,
        ),
    ensures
        !usable(given(builder)) ==> {
            &&& r == OtelStatus::InvalidArgument
            &&& tells_handle_cause(given(builder), *final(errors))
            &&& builder matches Some(b) ==> *final(b) == *b
        },
        usable(given(builder)) ==> final(errors).last_status == r,
        r == OtelStatus::Success ==> final(errors).message@.len() == 0,
{
}

/// `otel_otlp_metric_exporter_builder_set_transport` refuses a builder that is missing, not live or of another kind, and reports success and
/// failure in the error slot too.
pub proof fn otlp_metric_exporter_set_transport_needs_a_builder(
    errors: &mut ErrorState,
    builder: Option<&mut OtelOtlpMetricExporterBuilder>,
    transport: u32,
    r: OtelStatus,
)
    requires
        call_ensures(
            otel_otlp_metric_exporter_builder_set_transport,
            (errors, builder, transport),
            r,
        ),
    ensures
        !usable(given(builder)) ==> {
            &&& r == OtelStatus::InvalidArgument
            &&& tells_handle_cause(given(builder), *final(errors))
            &&& builder matches Some(b) ==> *final(b) == *b
        },
        usable(given(builder)) ==> final(errors).last_status == r,
        r == OtelStatus::Success ==> final(errors).message@.len() == 0,
{
}

/// `otel_otlp_metric_exporter_builder_set_compression` refuses a builder that is missing, not live or of another kind, and reports success and
/// failure in the error slot too.
pub proof fn otlp_metric_exporter_set_compression_needs_a_builder(
    errors: &mut ErrorState,
    builder: Option<&mut OtelOtlpMetricExporterBuilder>,
    compression: u32,
    r: OtelStatus,
)
    requires
        call_ensures(
            otel_otlp_metric_exporter_builder_set_compression,
            (errors, builder, compression),
            r,
        ),
    ensures
        !usable(given(builder)) ==> {
            &&& r == OtelStatus::InvalidArgument
            &&& tells_handle_cause(given(builder), *final(errors))
            &&& builder matches Some(b) ==> *final(b) == *b
        },
        usable(given(builder)) ==> final(errors).last_status == r,
        r == OtelStatus::Success ==> final(errors).message@.len() == 0,
{
}

/// `otel_otlp_metric_exporter_builder_set_temporality` refuses a builder that is missing, not live or of another kind, and reports success and
/// failure in the error slot too.
pub proof fn otlp_metric_exporter_set_temporality_needs_a_builder(
    errors: &mut ErrorState,
    builder: Option<&mut OtelOtlpMetricExporterBuilder>,
    temporality: u32,
    r: OtelStatus,
)
    requires
        call_ensures(
            otel_otlp_metric_exporter_builder_set_temporality,
            (errors, builder, temporality),
            r,
        ),
    ensures
        !usable(given(builder)) ==> {
            &&& r == OtelStatus::InvalidArgument
            &&& tells_handle_cause(given(builder), *final(errors))
            &&& builder matches Some(b) ==> *final(b) == *b
        },
        usable(given(builder)) ==> final(errors).last_status == r,
        r == OtelStatus::Success ==> final(errors).message@.len() == 0,
{
}

/// Exporters are not handed to a batch processor builder that is missing, not live or of another
/// kind.
pub proof fn batch_log_processor_set_exporter_needs_a_builder<E>(
    errors: &mut ErrorState,
    builder: Option<&mut OtelBatchLogProcessorBuilder<E>>,
    exporter: &mut Option<OtelLogExporter<E>>,
    r: (OtelStatus, Option<LogExporterImpl<E>>),
)
    requires
        !usable(given(builder)),
        call_ensures(
            otel_batch_log_processor_builder_set_exporter::<E>,
            (errors, builder, exporter),
            r,
        ),
    ensures
        r.0 == OtelStatus::InvalidArgument,
        r.1 is None,
        tells_handle_cause(given(builder), *final(errors)),
        *final(exporter) == *old(exporter),
        builder matches Some(b) ==> *final(b) == *b,
{
}

/// Exporters are not handed to a periodic reader builder that is missing, not live or of another
/// kind.
pub proof fn periodic_metric_reader_set_exporter_needs_a_builder<E>(
    errors: &mut ErrorState,
    builder: Option<&mut OtelPeriodicMetricReaderBuilder<E>>,
    exporter: &mut Option<OtelMetricExporter<E>>,
    r: OtelStatus,
)
    requires
        !usable(given(builder)),
        call_ensures(
            otel_periodic_metric_reader_builder_set_exporter::<E>,
            (errors, builder, exporter),
            r,
        ),
    ensures
        r == OtelStatus::InvalidArgument,
        tells_handle_cause(given(builder), *final(errors)),
        *final(exporter) == *old(exporter),
        builder matches Some(b) ==> *final(b) == *b,
{
}

/// Processors are built only where there is a builder and a place for the result, and everything
/// else changes nothing.
pub proof fn log_processors_need_their_arguments<E>(
    errors: &mut ErrorState,
    builder: Option<&mut OtelBatchLogProcessorBuilder<E>>,
    out: Option<&mut Option<OtelLogProcessor<E>>>,
    r: OtelStatus,
    creating: &mut ErrorState,
    exporter: &mut Option<OtelLogExporter<E>>,
    place: Option<&mut Option<OtelLogProcessor<E>>>,
    created: OtelStatus,
    processor: &mut Option<OtelLogProcessor<E>>,
    owned: Option<LogProcessorImpl<E>>,
)
    requires
        call_ensures(otel_batch_log_processor_builder_build::<E>, (errors, builder, out), r),
        call_ensures(otel_simple_log_processor_create::<E>, (creating, exporter, place), created),
        call_ensures(otel_log_processor_destroy::<E>, (processor,), owned),
    ensures
        out is None ==> r == OtelStatus::InvalidArgument && tells_missing_out(*final(errors)),
        out is None || !usable(given(builder)) ==> r == OtelStatus::InvalidArgument && (
        builder matches Some(b) ==> *final(b) == *b),
        out is Some && !usable(given(builder)) ==> tells_handle_cause(given(builder), *final(errors)),
        out matches Some(slot) ==> (r != OtelStatus::Success ==> *final(slot) is None),
        place is None ==> created == OtelStatus::InvalidArgument && tells_missing_out(
            *final(creating),
        ) && *final(exporter) == *old(exporter),
        place is Some && !usable(*old(exporter)) ==> created == OtelStatus::InvalidArgument
            && tells_handle_cause(*old(exporter), *final(creating)),
        usable(*old(processor)) ==> *final(processor) is None && owned == Some(
            (*old(processor))->0.processor,
        ),
        !usable(*old(processor)) ==> *final(processor) == *old(processor) && owned is None,
{
}

/// Readers are made only where there is what they are made of and a place for the result, and
/// everything else changes nothing.
pub proof fn metric_readers_need_their_arguments<E>(
    errors: &mut ErrorState,
    features: Features,
    builder: Option<&mut OtelPeriodicMetricReaderBuilder<E>>,
    out: Option<&mut Option<OtelPeriodicMetricReader<E>>>,
    r: (OtelStatus, Option<MetricExporterImpl<E>>),
    creating: &mut ErrorState,
    exporter: &mut Option<OtelMetricExporter<E>>,
    place: Option<&mut Option<OtelManualMetricReader<E>>>,
    created: OtelStatus,
)
    requires
        call_ensures(
            otel_periodic_metric_reader_builder_build::<E>,
            (errors, features, builder, out),
            r,
        ),
        call_ensures(otel_manual_metric_reader_new::<E>, (creating, exporter, place), created),
    ensures
        out is None ==> r.0 == OtelStatus::InvalidArgument && tells_missing_out(*final(errors)),
        out is None || !usable(given(builder)) ==> r.0 == OtelStatus::InvalidArgument && r.1 is None
            && (builder matches Some(b) ==> *final(b) == *b),
        out is Some && !usable(given(builder)) ==> tells_handle_cause(given(builder), *final(errors)),
        place is None ==> created == OtelStatus::InvalidArgument && tells_missing_out(
            *final(creating),
        ) && *final(exporter) == *old(exporter),
        place is Some && !usable(*old(exporter)) ==> created == OtelStatus::InvalidArgument
            && tells_handle_cause(*old(exporter), *final(creating)),
{
}

/// Views are built only where there is a builder and a place for the result.
pub proof fn views_need_their_arguments(
    errors: &mut ErrorState,
    builder: Option<&mut OtelMetricViewBuilder>,
    out: Option<&mut Option<OtelMetricView>>,
    r: OtelStatus,
)
    requires
        builder matches Some(b) ==> b.config.wf(),
        call_ensures(otel_metric_view_builder_build, (errors, builder, out), r),
    ensures
        out is None ==> r == OtelStatus::InvalidArgument && tells_missing_out(*final(errors)),
        out is Some && !usable(given(builder)) ==> r == OtelStatus::InvalidArgument
            && tells_handle_cause(given(builder), *final(errors)),
        builder matches Some(b) ==> *final(b) == *b,
        out matches Some(slot) ==> (r != OtelStatus::Success ==> *final(slot) is None),
        out is Some && usable(given(builder)) ==> final(errors).last_status == r,
{
}

/// Exporters are planned only where there is a builder and a place for the result.
pub proof fn otlp_exporters_need_their_arguments<'a, E>(
    errors: &mut ErrorState,
    features: Features,
    builder: Option<&'a OtelOtlpTraceExporterBuilder>,
    specific: Option<String>,
    generic: Option<String>,
    out: Option<&mut Option<OtelTraceExporter<E>>>,
    r: (Result<OtlpPlan<'a>, OtelStatus>, Vec<String>),
    planning: &mut ErrorState,
    metric_builder: Option<&'a OtelOtlpMetricExporterBuilder>,
    place: Option<&mut Option<OtelMetricExporter<E>>>,
    planned: Result<OtlpPlan<'a>, OtelStatus>,
)
    requires
        call_ensures(
            otel_otlp_trace_exporter_builder_build::<E>,
            (errors, features, builder, specific, generic, out),
            r,
        ),
        metric_builder matches Some(b) ==> b.config.wf(),
        call_ensures(
            otel_otlp_metric_exporter_builder_build::<E>,
            (planning, features, metric_builder, place),
            planned,
        ),
    ensures
        out is None ==> r.0 is Err && r.0->Err_0 == OtelStatus::InvalidArgument && tells_missing_out(
            *final(errors),
        ) && r.1@.len() == 0,
        out is Some && !(builder matches Some(b) && is_valid(*b)) ==> r.0 is Err && r.0->Err_0
            == OtelStatus::InvalidArgument && r.1@.len() == 0,
        out matches Some(slot) ==> *final(slot) is None,
        place is None ==> planned is Err && planned->Err_0 == OtelStatus::InvalidArgument
            && tells_missing_out(*final(planning)),
        place is Some && !(metric_builder matches Some(b) && is_valid(*b)) ==> planned is Err
            && planned->Err_0 == OtelStatus::InvalidArgument,
        place matches Some(slot) ==> *final(slot) is None,
{
}

/// Custom exporters need a place for the result.
pub proof fn custom_exporters_need_a_place<E>(
    errors: &mut ErrorState,
    log_callbacks: Option<OtelCustomLogExporterCallbacks>,
    metric_callbacks: Option<OtelCustomMetricExporterCallbacks>,
    trace_callbacks: Option<&[usize]>,
    layout: TraceCallbackLayout,
    table_size: usize,
    user_data: usize,
    temporality: u32,
    log_made: OtelStatus,
    metric_errors: &mut ErrorState,
    metric_made: OtelStatus,
    trace_errors: &mut ErrorState,
    trace_made: OtelStatus,
)
    requires
        call_ensures(
            otel_custom_log_exporter_new::<E>,
            (errors, log_callbacks, table_size, user_data, None),
            log_made,
        ),
        call_ensures(
            otel_custom_metric_exporter_new::<E>,
            (metric_errors, metric_callbacks, table_size, user_data, temporality, None),
            metric_made,
        ),
        call_ensures(
            otel_custom_trace_exporter_new::<E>,
            (trace_errors, trace_callbacks, layout, user_data, None),
            trace_made,
        ),
    ensures
        log_made == OtelStatus::InvalidArgument && tells_missing_out(*final(errors)),
        metric_made == OtelStatus::InvalidArgument && tells_missing_out(*final(metric_errors)),
        trace_made == OtelStatus::InvalidArgument && tells_missing_out(*final(trace_errors)),
{
}

} // verus!
