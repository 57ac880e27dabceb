//! Metrics views: which instruments they select and which stream they select for them.

use vstd::prelude::*;
use vstd::utf8::encode_utf8;

use crate::abi::{text_fault, AbiError, OtelArrayView, OtelStatus, OtelStringView};
use crate::double_bits::{finite, is_finite, less, order_key};
use crate::error::{clear_last_error, fail, fail_abi, fail_owned, ErrorState};
use crate::handle::{
    checked_mut, destroy, is_valid, refused_handle, HasHandleHeader, OtelHandleHeader,
    OTEL_HANDLE_KIND_METRIC_VIEW, OTEL_HANDLE_KIND_METRIC_VIEW_BUILDER,
};
use crate::metric_kind::OtelMetricInstrumentKind;
use crate::text::{lemma_bytes_determine_text, same_text};

verus! {

/// The code that selects instruments of every kind.
pub const ANY_KIND: u32 = 0xFFFF_FFFF;

/// How a stream aggregates. Boundaries are doubles held by their bit patterns.
#[derive(Debug)]
pub enum AggregationConfig {
    Default,
    Drop,
    Sum,
    LastValue,
    ExplicitHistogram { boundaries: Vec<u64>, record_min_max: bool },
    ExponentialHistogram { max_size: u32, max_scale: i8, record_min_max: bool },
}

/// The instruments that a view selects and the stream that it selects for them.
#[derive(Debug)]
pub struct MetricViewConfig {
    pub name_pattern: Option<String>,
    pub meter_name: Option<String>,
    pub unit: Option<String>,
    pub kind: u32,
    pub output_name: Option<String>,
    pub output_description: Option<String>,
    pub output_unit: Option<String>,
    pub attribute_filter_enabled: bool,
    pub allowed_attributes: Vec<String>,
    pub cardinality_limit: Option<usize>,
    pub aggregation: AggregationConfig,
}

/// The boundaries are finite, and each is less than every later one.
pub open spec fn boundaries_acceptable(boundaries: Seq<u64>) -> bool {
    &&& forall|i: int| 0 <= i < boundaries.len() ==> is_finite(#[trigger] boundaries[i])
    &&& forall|i: int, j: int|
        0 <= i < j < boundaries.len() ==> order_key(#[trigger] boundaries[i]) < order_key(
            #[trigger] boundaries[j],
        )
}

/// The parameters of the aggregation are in range.
pub open spec fn aggregation_acceptable(aggregation: AggregationConfig) -> bool {
    match aggregation {
        AggregationConfig::ExplicitHistogram { boundaries, .. } => boundaries_acceptable(
            boundaries@,
        ),
        AggregationConfig::ExponentialHistogram { max_size, max_scale, .. } => max_size > 0 && -10
            <= max_scale <= 20,
        _ => true,
    }
}

impl MetricViewConfig {
    /// What the setters keep: the kind is a known code, the cardinality limit lies in its range,
    /// and so do the parameters of the aggregation.
    pub open spec fn wf(self) -> bool {
        &&& self.kind == ANY_KIND || self.kind <= 6
        &&& self.cardinality_limit matches Some(limit) ==> 0 < limit < usize::MAX
        &&& aggregation_acceptable(self.aggregation)
    }
}

/// A builder of views. Confined to one thread.
#[derive(Debug)]
pub struct OtelMetricViewBuilder {
    pub header: OtelHandleHeader,
    pub config: MetricViewConfig,
}

/// Owns a view until it is transferred or destroyed.
#[derive(Debug)]
pub struct OtelMetricView {
    pub header: OtelHandleHeader,
    pub config: MetricViewConfig,
}

impl HasHandleHeader for OtelMetricViewBuilder {
    open spec fn spec_type_kind() -> u64 {
        OTEL_HANDLE_KIND_METRIC_VIEW_BUILDER
    }

    open spec fn spec_header(&self) -> OtelHandleHeader {
        self.header
    }

    open spec fn with_header(self, header: OtelHandleHeader) -> Self {
        OtelMetricViewBuilder { header, ..self }
    }

    fn type_kind() -> u64 {
        OTEL_HANDLE_KIND_METRIC_VIEW_BUILDER
    }

    fn header(&self) -> OtelHandleHeader {
        self.header
    }

    fn set_header(&mut self, header: OtelHandleHeader) {
        self.header = header;
    }
}

impl HasHandleHeader for OtelMetricView {
    open spec fn spec_type_kind() -> u64 {
        OTEL_HANDLE_KIND_METRIC_VIEW
    }

    open spec fn spec_header(&self) -> OtelHandleHeader {
        self.header
    }

    open spec fn with_header(self, header: OtelHandleHeader) -> Self {
        OtelMetricView { header, ..self }
    }

    fn type_kind() -> u64 {
        OTEL_HANDLE_KIND_METRIC_VIEW
    }

    fn header(&self) -> OtelHandleHeader {
        self.header
    }

    fn set_header(&mut self, header: OtelHandleHeader) {
        self.header = header;
    }
}

/// A view that selects every instrument and changes nothing.
pub open spec fn is_default(config: MetricViewConfig) -> bool {
    &&& config.name_pattern is None
    &&& config.meter_name is None
    &&& config.unit is None
    &&& config.kind == ANY_KIND
    &&& config.output_name is None
    &&& config.output_description is None
    &&& config.output_unit is None
    &&& !config.attribute_filter_enabled
    &&& config.allowed_attributes@.len() == 0
    &&& config.cardinality_limit is None
    &&& config.aggregation is Default
}

fn default_config() -> (r: MetricViewConfig)
    ensures
        is_default(r),
        r.wf(),
{
    MetricViewConfig {
        name_pattern: None,
        meter_name: None,
        unit: None,
        kind: ANY_KIND,
        output_name: None,
        output_description: None,
        output_unit: None,
        attribute_filter_enabled: false,
        allowed_attributes: Vec::new(),
        cardinality_limit: None,
        aggregation: AggregationConfig::Default,
    }
}

/// Creates a builder of the view that selects every instrument and changes nothing.
pub fn otel_metric_view_builder_new(errors: &mut ErrorState) -> (r: OtelMetricViewBuilder)
    ensures
        is_valid(r),
        is_default(r.config),
        r.config.wf(),
        final(errors).is_clear(),
{
    clear_last_error(errors);
    OtelMetricViewBuilder {
        header: OtelHandleHeader::new(OTEL_HANDLE_KIND_METRIC_VIEW_BUILDER),
        config: default_config(),
    }
}

/// Destroys a builder. Anything but a valid handle is left alone.
pub fn otel_metric_view_builder_destroy(builder: &mut Option<OtelMetricViewBuilder>)
    ensures
        *final(builder) == (if *old(builder) matches Some(handle) && is_valid(handle) {
            None
        } else {
            *old(builder)
        }),
{
    destroy(builder);
}

/// The setting holds this text, or nothing where the text is empty.
pub open spec fn optional_text(setting: Option<String>, text: Seq<char>) -> bool {
    if text.len() == 0 {
        setting is None
    } else {
        setting matches Some(s) && s@ == text
    }
}

fn read_optional(errors: &mut ErrorState, value: OtelStringView) -> (r: Result<
    Option<String>,
    OtelStatus,
>)
    ensures
        match value.text() {
            Ok(text) => {
                &&& r matches Ok(setting)
                &&& optional_text(setting, text)
                &&& *final(errors) == *old(errors)
            },
            Err(e) => {
                &&& r matches Err(status)
                &&& status == e.spec_status()
                &&& final(errors).holds(e.spec_status(), e.spec_message())
            },
        },
{
    match value.to_string_strict() {
        Ok(text) => if text.as_str().is_empty() {
            Ok(None)
        } else {
            Ok(Some(text))
        },
        Err(e) => Err(fail_abi(errors, e)),
    }
}

/// Selects instruments by name, with `*` standing for any text. An empty text takes it away.
pub fn otel_metric_view_builder_set_name_pattern(
    errors: &mut ErrorState,
    builder: Option<&mut OtelMetricViewBuilder>,
    value: OtelStringView,
) -> (r: OtelStatus)
    ensures
        match builder {
            None => refused_handle(None::<OtelMetricViewBuilder>, r, *final(errors)),
            Some(b) => if !is_valid(*b) {
                refused_handle(Some(*b), r, *final(errors)) && *final(b) == *b
            } else {
                match text_fault(value.text()) {
                    Some((status, message)) => {
                        &&& r == status
                        &&& final(errors).holds(status, message)
                        &&& *final(b) == *b
                    },
                    None => {
                        &&& r == OtelStatus::Success
                        &&& final(errors).is_clear()
                        &&& optional_text(final(b).config.name_pattern, value.text()->Ok_0)
                        &&& *final(b) == (OtelMetricViewBuilder {
                            config: MetricViewConfig {
                                name_pattern: final(b).config.name_pattern,
                                ..b.config
                            },
                            ..*b
                        })
                    },
                }
            },
        },
        builder matches Some(b) ==> b.config.wf() ==> final(b).config.wf(),
{
    clear_last_error(errors);
    let builder = match checked_mut(errors, builder) {
        Some(builder) => builder,
        None => return OtelStatus::InvalidArgument,
    };
    match read_optional(errors, value) {
        Ok(text) => {
            builder.config.name_pattern = text;
            OtelStatus::Success
        },
        Err(status) => status,
    }
}

/// Selects instruments by the name of their meter. An empty text takes it away.
pub fn otel_metric_view_builder_set_meter_name(
    errors: &mut ErrorState,
    builder: Option<&mut OtelMetricViewBuilder>,
    value: OtelStringView,
) -> (r: OtelStatus)
    ensures
        match builder {
            None => refused_handle(None::<OtelMetricViewBuilder>, r, *final(errors)),
            Some(b) => if !is_valid(*b) {
                refused_handle(Some(*b), r, *final(errors)) && *final(b) == *b
            } else {
                match text_fault(value.text()) {
                    Some((status, message)) => {
                        &&& r == status
                        &&& final(errors).holds(status, message)
                        &&& *final(b) == *b
                    },
                    None => {
                        &&& r == OtelStatus::Success
                        &&& final(errors).is_clear()
                        &&& optional_text(final(b).config.meter_name, value.text()->Ok_0)
                        &&& *final(b) == (OtelMetricViewBuilder {
                            config: MetricViewConfig {
                                meter_name: final(b).config.meter_name,
                                ..b.config
                            },
                            ..*b
                        })
                    },
                }
            },
        },
        builder matches Some(b) ==> b.config.wf() ==> final(b).config.wf(),
{
    clear_last_error(errors);
    let builder = match checked_mut(errors, builder) {
        Some(builder) => builder,
        None => return OtelStatus::InvalidArgument,
    };
    match read_optional(errors, value) {
        Ok(text) => {
            builder.config.meter_name = text;
            OtelStatus::Success
        },
        Err(status) => status,
    }
}

/// Selects instruments by their unit. An empty text takes it away.
pub fn otel_metric_view_builder_set_unit(
    errors: &mut ErrorState,
    builder: Option<&mut OtelMetricViewBuilder>,
    value: OtelStringView,
) -> (r: OtelStatus)
    ensures
        match builder {
            None => refused_handle(None::<OtelMetricViewBuilder>, r, *final(errors)),
            Some(b) => if !is_valid(*b) {
                refused_handle(Some(*b), r, *final(errors)) && *final(b) == *b
            } else {
                match text_fault(value.text()) {
                    Some((status, message)) => {
                        &&& r == status
                        &&& final(errors).holds(status, message)
                        &&& *final(b) == *b
                    },
                    None => {
                        &&& r == OtelStatus::Success
                        &&& final(errors).is_clear()
                        &&& optional_text(final(b).config.unit, value.text()->Ok_0)
                        &&& *final(b) == (OtelMetricViewBuilder {
                            config: MetricViewConfig {
                                unit: final(b).config.unit,
                                ..b.config
                            },
                            ..*b
                        })
                    },
                }
            },
        },
        builder matches Some(b) ==> b.config.wf() ==> final(b).config.wf(),
{
    clear_last_error(errors);
    let builder = match checked_mut(errors, builder) {
        Some(builder) => builder,
        None => return OtelStatus::InvalidArgument,
    };
    match read_optional(errors, value) {
        Ok(text) => {
            builder.config.unit = text;
            OtelStatus::Success
        },
        Err(status) => status,
    }
}

/// Sets the name of the stream. An empty text takes it away.
pub fn otel_metric_view_builder_set_output_name(
    errors: &mut ErrorState,
    builder: Option<&mut OtelMetricViewBuilder>,
    value: OtelStringView,
) -> (r: OtelStatus)
    ensures
        match builder {
            None => refused_handle(None::<OtelMetricViewBuilder>, r, *final(errors)),
            Some(b) => if !is_valid(*b) {
                refused_handle(Some(*b), r, *final(errors)) && *final(b) == *b
            } else {
                match text_fault(value.text()) {
                    Some((status, message)) => {
                        &&& r == status
                        &&& final(errors).holds(status, message)
                        &&& *final(b) == *b
                    },
                    None => {
                        &&& r == OtelStatus::Success
                        &&& final(errors).is_clear()
                        &&& optional_text(final(b).config.output_name, value.text()->Ok_0)
                        &&& *final(b) == (OtelMetricViewBuilder {
                            config: MetricViewConfig {
                                output_name: final(b).config.output_name,
                                ..b.config
                            },
                            ..*b
                        })
                    },
                }
            },
        },
        builder matches Some(b) ==> b.config.wf() ==> final(b).config.wf(),
{
    clear_last_error(errors);
    let builder = match checked_mut(errors, builder) {
        Some(builder) => builder,
        None => return OtelStatus::InvalidArgument,
    };
    match read_optional(errors, value) {
        Ok(text) => {
            builder.config.output_name = text;
            OtelStatus::Success
        },
        Err(status) => status,
    }
}

/// Sets the description of the stream. An empty text takes it away.
pub fn otel_metric_view_builder_set_output_description(
    errors: &mut ErrorState,
    builder: Option<&mut OtelMetricViewBuilder>,
    value: OtelStringView,
) -> (r: OtelStatus)
    ensures
        match builder {
            None => refused_handle(None::<OtelMetricViewBuilder>, r, *final(errors)),
            Some(b) => if !is_valid(*b) {
                refused_handle(Some(*b), r, *final(errors)) && *final(b) == *b
            } else {
                match text_fault(value.text()) {
                    Some((status, message)) => {
                        &&& r == status
                        &&& final(errors).holds(status, message)
                        &&& *final(b) == *b
                    },
                    None => {
                        &&& r == OtelStatus::Success
                        &&& final(errors).is_clear()
                        &&& optional_text(final(b).config.output_description, value.text()->Ok_0)
                        &&& *final(b) == (OtelMetricViewBuilder {
                            config: MetricViewConfig {
                                output_description: final(b).config.output_description,
                                ..b.config
                            },
                            ..*b
                        })
                    },
                }
            },
        },
        builder matches Some(b) ==> b.config.wf() ==> final(b).config.wf(),
{
    clear_last_error(errors);
    let builder = match checked_mut(errors, builder) {
        Some(builder) => builder,
        None => return OtelStatus::InvalidArgument,
    };
    match read_optional(errors, value) {
        Ok(text) => {
            builder.config.output_description = text;
            OtelStatus::Success
        },
        Err(status) => status,
    }
}

/// Sets the unit of the stream. An empty text takes it away.
pub fn otel_metric_view_builder_set_output_unit(
    errors: &mut ErrorState,
    builder: Option<&mut OtelMetricViewBuilder>,
    value: OtelStringView,
) -> (r: OtelStatus)
    ensures
        match builder {
            None => refused_handle(None::<OtelMetricViewBuilder>, r, *final(errors)),
            Some(b) => if !is_valid(*b) {
                refused_handle(Some(*b), r, *final(errors)) && *final(b) == *b
            } else {
                match text_fault(value.text()) {
                    Some((status, message)) => {
                        &&& r == status
                        &&& final(errors).holds(status, message)
                        &&& *final(b) == *b
                    },
                    None => {
                        &&& r == OtelStatus::Success
                        &&& final(errors).is_clear()
                        &&& optional_text(final(b).config.output_unit, value.text()->Ok_0)
                        &&& *final(b) == (OtelMetricViewBuilder {
                            config: MetricViewConfig {
                                output_unit: final(b).config.output_unit,
                                ..b.config
                            },
                            ..*b
                        })
                    },
                }
            },
        },
        builder matches Some(b) ==> b.config.wf() ==> final(b).config.wf(),
{
    clear_last_error(errors);
    let builder = match checked_mut(errors, builder) {
        Some(builder) => builder,
        None => return OtelStatus::InvalidArgument,
    };
    match read_optional(errors, value) {
        Ok(text) => {
            builder.config.output_unit = text;
            OtelStatus::Success
        },
        Err(status) => status,
    }
}

/// Selects instruments by kind.
pub fn otel_metric_view_builder_set_instrument_kind(
    errors: &mut ErrorState,
    builder: Option<&mut OtelMetricViewBuilder>,
    kind: u32,
) -> (r: OtelStatus)
    ensures
        match builder {
            None => refused_handle(None::<OtelMetricViewBuilder>, r, *final(errors)),
            Some(b) => if !is_valid(*b) {
                refused_handle(Some(*b), r, *final(errors)) && *final(b) == *b
            } else {
                match (if kind != ANY_KIND && kind > 6 {
                    Some(
                        (
                            OtelStatus::InvalidArgument,
                            "unknown metric instrument kind"@,
                        ),
                    )
                } else {
                    None
                }) {
                    Some((status, message)) => {
                        &&& r == status
                        &&& final(errors).holds(status, message)
                        &&& *final(b) == *b
                    },
                    None => {
                        &&& r == OtelStatus::Success
                        &&& final(errors).is_clear()
                        &&& *final(b) == (OtelMetricViewBuilder {
                            config: MetricViewConfig {
                                kind,
                                ..b.config
                            },
                            ..*b
                        })
                    },
                }
            },
        },
        builder matches Some(b) ==> b.config.wf() ==> final(b).config.wf(),
{
    clear_last_error(errors);
    let builder = match checked_mut(errors, builder) {
        Some(builder) => builder,
        None => return OtelStatus::InvalidArgument,
    };
    if kind != ANY_KIND && OtelMetricInstrumentKind::from_u32(kind).is_none() {
        return fail(errors, OtelStatus::InvalidArgument, "unknown metric instrument kind");
    }
    builder.config.kind = kind;
    OtelStatus::Success
}

/// Why a key is not added to the allowed ones, if it is not.
pub open spec fn allowed_key_fault(key: Result<Seq<char>, AbiError>) -> Option<
    (OtelStatus, Seq<char>),
> {
    match key {
        Ok(k) => if k.len() == 0 {
            Some((OtelStatus::InvalidArgument, "allowed attribute key must not be empty"@))
        } else {
            None
        },
        Err(e) => Some((e.spec_status(), e.spec_message())),
    }
}

/// The key was appended to the allowed ones, and filtering is on.
pub open spec fn key_allowed(
    before: OtelMetricViewBuilder,
    after: OtelMetricViewBuilder,
    key: Seq<char>,
) -> bool {
    &&& after.config.attribute_filter_enabled
    &&& after.config.allowed_attributes@.len() == before.config.allowed_attributes@.len() + 1
    &&& after.config.allowed_attributes@.drop_last() == before.config.allowed_attributes@
    &&& after.config.allowed_attributes@.last()@ == key
    &&& after == (OtelMetricViewBuilder {
        config: MetricViewConfig {
            attribute_filter_enabled: true,
            allowed_attributes: after.config.allowed_attributes,
            ..before.config
        },
        ..before
    })
}

/// Adds a key to the allowed attributes and turns filtering on.
pub fn otel_metric_view_builder_add_allowed_attribute(
    errors: &mut ErrorState,
    builder: Option<&mut OtelMetricViewBuilder>,
    key: OtelStringView,
) -> (r: OtelStatus)
    ensures
        match builder {
            None => refused_handle(None::<OtelMetricViewBuilder>, r, *final(errors)),
            Some(b) => if !is_valid(*b) {
                refused_handle(Some(*b), r, *final(errors)) && *final(b) == *b
            } else {
                match allowed_key_fault(key.text()) {
                    Some((status, message)) => {
                        &&& r == status
                        &&& final(errors).holds(status, message)
                        &&& *final(b) == *b
                    },
                    None => {
                        &&& r == OtelStatus::Success
                        &&& final(errors).is_clear()
                        &&& key_allowed(*b, *final(b), key.text()->Ok_0)
                    },
                }
            },
        },
        builder matches Some(b) ==> b.config.wf() ==> final(b).config.wf(),
{
    clear_last_error(errors);
    let builder = match checked_mut(errors, builder) {
        Some(builder) => builder,
        None => return OtelStatus::InvalidArgument,
    };
    match key.to_string_strict() {
        Ok(key) => {
            if key.as_str().is_empty() {
                return fail(
                    errors,
                    OtelStatus::InvalidArgument,
                    "allowed attribute key must not be empty",
                );
            }
            let ghost before = builder.config.allowed_attributes@;
            builder.config.attribute_filter_enabled = true;
            builder.config.allowed_attributes.push(key);
            assert(builder.config.allowed_attributes@.drop_last() =~= before);
            OtelStatus::Success
        },
        Err(e) => fail_abi(errors, e),
    }
}

/// Turns attribute filtering on or off. Filtering without allowed keys drops every attribute.
pub fn otel_metric_view_builder_set_attribute_filter_enabled(
    errors: &mut ErrorState,
    builder: Option<&mut OtelMetricViewBuilder>,
    enabled: u32,
) -> (r: OtelStatus)
    ensures
        match builder {
            None => refused_handle(None::<OtelMetricViewBuilder>, r, *final(errors)),
            Some(b) => if is_valid(*b) {
                &&& r == OtelStatus::Success
                &&& final(errors).is_clear()
                &&& *final(b) == (OtelMetricViewBuilder {
                    config: MetricViewConfig {
                        attribute_filter_enabled: enabled != 0,
                        ..b.config
                    },
                    ..*b
                })
            } else {
                refused_handle(Some(*b), r, *final(errors)) && *final(b) == *b
            },
        },
{
    clear_last_error(errors);
    match checked_mut(errors, builder) {
        Some(builder) => {
            builder.config.attribute_filter_enabled = enabled != 0;
            OtelStatus::Success
        },
        None => OtelStatus::InvalidArgument,
    }
}

/// Sets the cardinality limit.
pub fn otel_metric_view_builder_set_cardinality_limit(
    errors: &mut ErrorState,
    builder: Option<&mut OtelMetricViewBuilder>,
    limit: u64,
) -> (r: OtelStatus)
    ensures
        match builder {
            None => refused_handle(None::<OtelMetricViewBuilder>, r, *final(errors)),
            Some(b) => if !is_valid(*b) {
                refused_handle(Some(*b), r, *final(errors)) && *final(b) == *b
            } else {
                match (if !(0 < limit < usize::MAX) {
                    Some(
                        (
                            OtelStatus::InvalidConfig,
                            "cardinality limit must be between 1 and usize::MAX - 1"@,
                        ),
                    )
                } else {
                    None
                }) {
                    Some((status, message)) => {
                        &&& r == status
                        &&& final(errors).holds(status, message)
                        &&& *final(b) == *b
                    },
                    None => {
                        &&& r == OtelStatus::Success
                        &&& final(errors).is_clear()
                        &&& *final(b) == (OtelMetricViewBuilder {
                            config: MetricViewConfig {
                                cardinality_limit: Some(limit as usize),
                                ..b.config
                            },
                            ..*b
                        })
                    },
                }
            },
        },
        builder matches Some(b) ==> b.config.wf() ==> final(b).config.wf(),
{
    clear_last_error(errors);
    let builder = match checked_mut(errors, builder) {
        Some(builder) => builder,
        None => return OtelStatus::InvalidArgument,
    };
    if limit == 0 || limit >= usize::MAX as u64 {
        return fail(
            errors,
            OtelStatus::InvalidConfig,
            "cardinality limit must be between 1 and usize::MAX - 1",
        );
    }
    builder.config.cardinality_limit = Some(limit as usize);
    OtelStatus::Success
}

/// The aggregation without parameters that a code selects.
pub open spec fn plain_aggregation(code: u32) -> Option<AggregationConfig> {
    if code == 0 {
        Some(AggregationConfig::Default)
    } else if code == 1 {
        Some(AggregationConfig::Drop)
    } else if code == 2 {
        Some(AggregationConfig::Sum)
    } else if code == 3 {
        Some(AggregationConfig::LastValue)
    } else {
        None
    }
}

/// Selects an aggregation without parameters.
pub fn otel_metric_view_builder_set_aggregation(
    errors: &mut ErrorState,
    builder: Option<&mut OtelMetricViewBuilder>,
    aggregation: u32,
) -> (r: OtelStatus)
    ensures
        match builder {
            None => refused_handle(None::<OtelMetricViewBuilder>, r, *final(errors)),
            Some(b) => if !is_valid(*b) {
                refused_handle(Some(*b), r, *final(errors)) && *final(b) == *b
            } else {
                match (if plain_aggregation(aggregation) is None {
                    Some(
                        (
                            OtelStatus::InvalidArgument,
                            "aggregation requires explicit histogram configuration or is unknown"@,
                        ),
                    )
                } else {
                    None
                }) {
                    Some((status, message)) => {
                        &&& r == status
                        &&& final(errors).holds(status, message)
                        &&& *final(b) == *b
                    },
                    None => {
                        &&& r == OtelStatus::Success
                        &&& final(errors).is_clear()
                        &&& *final(b) == (OtelMetricViewBuilder {
                            config: MetricViewConfig {
                                aggregation: plain_aggregation(aggregation)->0,
                                ..b.config
                            },
                            ..*b
                        })
                    },
                }
            },
        },
        builder matches Some(b) ==> b.config.wf() ==> final(b).config.wf(),
{
    clear_last_error(errors);
    let builder = match checked_mut(errors, builder) {
        Some(builder) => builder,
        None => return OtelStatus::InvalidArgument,
    };
    let selected = match aggregation {
        0 => AggregationConfig::Default,
        1 => AggregationConfig::Drop,
        2 => AggregationConfig::Sum,
        3 => AggregationConfig::LastValue,
        _ => return fail(
            errors,
            OtelStatus::InvalidArgument,
            "aggregation requires explicit histogram configuration or is unknown",
        ),
    };
    builder.config.aggregation = selected;
    OtelStatus::Success
}

/// Why an array of boundaries is refused, if it is.
pub open spec fn boundaries_fault(boundaries: OtelArrayView<u64>) -> Option<
    (OtelStatus, Seq<char>),
> {
    if boundaries.spec_is_dangling() {
        Some((OtelStatus::InvalidArgument, "invalid explicit histogram boundary array"@))
    } else if !boundaries_acceptable(boundaries.items()) {
        Some(
            (
                OtelStatus::InvalidConfig,
                "explicit histogram boundaries must be finite and strictly increasing"@,
            ),
        )
    } else {
        None
    }
}

fn acceptable(boundaries: &[u64]) -> (r: bool)
    ensures
        r == boundaries_acceptable(boundaries@),
{
    let mut i: usize = 0;
    while i < boundaries.len()
        invariant
            i <= boundaries@.len(),
            forall|k: int| 0 <= k < i ==> is_finite(#[trigger] boundaries@[k]),
            forall|j: int, k: int|
                0 <= j < k < i ==> order_key(#[trigger] boundaries@[j]) < order_key(
                    #[trigger] boundaries@[k],
                ),
        decreases boundaries@.len() - i,
    {
        if !finite(boundaries[i]) {
            assert(!is_finite(boundaries@[i as int]));
            return false;
        }
        if i > 0 && !less(boundaries[i - 1], boundaries[i]) {
            assert(!(order_key(boundaries@[i - 1]) < order_key(boundaries@[i as int])));
            return false;
        }
        i += 1;
    }
    true
}

/// Copies boundaries, unless they are not readable or not acceptable.
pub fn copy_boundaries(errors: &mut ErrorState, boundaries: OtelArrayView<u64>) -> (r: Result<
    Vec<u64>,
    OtelStatus,
>)
    ensures
        match boundaries_fault(boundaries) {
            Some((status, message)) => {
                &&& r matches Err(s)
                &&& s == status
                &&& final(errors).holds(status, message)
            },
            None => {
                &&& r matches Ok(copy)
                &&& copy@ == boundaries.items()
                &&& *final(errors) == *old(errors)
            },
        },
{
    let values = match boundaries {
        OtelArrayView::Null(count) => {
            if count > 0 {
                return Err(
                    fail(
                        errors,
                        OtelStatus::InvalidArgument,
                        "invalid explicit histogram boundary array",
                    ),
                );
            }
            return Ok(Vec::new());
        },
        OtelArrayView::Data(values) => values,
    };
    if !acceptable(values) {
        return Err(
            fail(
                errors,
                OtelStatus::InvalidConfig,
                "explicit histogram boundaries must be finite and strictly increasing",
            ),
        );
    }
    let copy = copy_words(values);
    Ok(copy)
}

fn copy_words(words: &[u64]) -> (r: Vec<u64>)
    ensures
        r@ == words@,
{
    let mut copy: Vec<u64> = Vec::new();
    let mut i: usize = 0;
    while i < words.len()
        invariant
            i <= words@.len(),
            copy@ == words@.take(i as int),
        decreases words@.len() - i,
    {
        copy.push(words[i]);
        assert(words@.take(i + 1) =~= words@.take(i as int).push(words@[i as int]));
        i += 1;
    }
    assert(words@.take(words@.len() as int) =~= words@);
    copy
}

/// The stream aggregates into buckets between these boundaries.
pub open spec fn explicit_set(
    before: OtelMetricViewBuilder,
    after: OtelMetricViewBuilder,
    boundaries: Seq<u64>,
    record: bool,
) -> bool {
    &&& after.config.aggregation matches AggregationConfig::ExplicitHistogram {
        boundaries: b,
        record_min_max,
    }
    &&& b@ == boundaries
    &&& record_min_max == record
    &&& after == (OtelMetricViewBuilder {
        config: MetricViewConfig { aggregation: after.config.aggregation, ..before.config },
        ..before
    })
}

/// Selects a histogram with explicit boundaries.
pub fn otel_metric_view_builder_set_explicit_histogram(
    errors: &mut ErrorState,
    builder: Option<&mut OtelMetricViewBuilder>,
    boundaries: OtelArrayView<u64>,
    record_min_max: u32,
) -> (r: OtelStatus)
    ensures
        match builder {
            None => refused_handle(None::<OtelMetricViewBuilder>, r, *final(errors)),
            Some(b) => if !is_valid(*b) {
                refused_handle(Some(*b), r, *final(errors)) && *final(b) == *b
            } else {
                match boundaries_fault(boundaries) {
                    Some((status, message)) => {
                        &&& r == status
                        &&& final(errors).holds(status, message)
                        &&& *final(b) == *b
                    },
                    None => {
                        &&& r == OtelStatus::Success
                        &&& final(errors).is_clear()
                        &&& explicit_set(*b, *final(b), boundaries.items(), record_min_max != 0)
                    },
                }
            },
        },
        builder matches Some(b) ==> b.config.wf() ==> final(b).config.wf(),
{
    clear_last_error(errors);
    let builder = match checked_mut(errors, builder) {
        Some(builder) => builder,
        None => return OtelStatus::InvalidArgument,
    };
    match copy_boundaries(errors, boundaries) {
        Ok(boundaries) => {
            builder.config.aggregation =
            AggregationConfig::ExplicitHistogram {
                boundaries,
                record_min_max: record_min_max != 0,
            };
            OtelStatus::Success
        },
        Err(status) => status,
    }
}

/// Selects a base-2 exponential histogram.
pub fn otel_metric_view_builder_set_exponential_histogram(
    errors: &mut ErrorState,
    builder: Option<&mut OtelMetricViewBuilder>,
    max_size: u32,
    max_scale: i8,
    record_min_max: u32,
) -> (r: OtelStatus)
    ensures
        match builder {
            None => refused_handle(None::<OtelMetricViewBuilder>, r, *final(errors)),
            Some(b) => if !is_valid(*b) {
                refused_handle(Some(*b), r, *final(errors)) && *final(b) == *b
            } else {
                match (if max_size == 0 || !(-10 <= max_scale <= 20) {
                    Some(
                        (
                            OtelStatus::InvalidConfig,
                            "exponential histogram requires max_size > 0 and max_scale in [-10, 20]"@,
                        ),
                    )
                } else {
                    None
                }) {
                    Some((status, message)) => {
                        &&& r == status
                        &&& final(errors).holds(status, message)
                        &&& *final(b) == *b
                    },
                    None => {
                        &&& r == OtelStatus::Success
                        &&& final(errors).is_clear()
                        &&& *final(b) == (OtelMetricViewBuilder {
                            config: MetricViewConfig {
                                aggregation: AggregationConfig::ExponentialHistogram {
                                    max_size,
                                    max_scale,
                                    record_min_max: record_min_max != 0,
                                },
                                ..b.config
                            },
                            ..*b
                        })
                    },
                }
            },
        },
        builder matches Some(b) ==> b.config.wf() ==> final(b).config.wf(),
{
    clear_last_error(errors);
    let builder = match checked_mut(errors, builder) {
        Some(builder) => builder,
        None => return OtelStatus::InvalidArgument,
    };
    if max_size == 0 || max_scale < -10 || max_scale > 20 {
        return fail(
            errors,
            OtelStatus::InvalidConfig,
            "exponential histogram requires max_size > 0 and max_scale in [-10, 20]",
        );
    }
    builder.config.aggregation =
    AggregationConfig::ExponentialHistogram {
        max_size,
        max_scale,
        record_min_max: record_min_max != 0,
    };
    OtelStatus::Success
}

/// Why a stream cannot have this unit, if it cannot.
pub open spec fn unit_fault(unit: Seq<u8>) -> Option<Seq<char>> {
    if unit.len() > 63 {
        Some("unit must be less than 64 characters"@)
    } else if exists|i: int| 0 <= i < unit.len() && #[trigger] unit[i] >= 128 {
        Some("characters in unit must be ASCII"@)
    } else {
        None
    }
}

/// `opentelemetry_sdk::metrics::StreamBuilder::build` of a stream with this unit: it is refused,
/// in these words, where the unit has more than 63 bytes or a character beyond ASCII.
#[verifier::external_body]
fn stream_with_unit(unit: &str) -> (r: Result<(), String>)
    ensures
        r is Ok <==> unit_fault(encode_utf8(unit@)) is None,
        r matches Err(cause) ==> unit_fault(encode_utf8(unit@)) == Some(cause@),
{
    let builder = opentelemetry_sdk::metrics::Stream::builder().with_unit(unit.to_owned());
    builder.build().map(|_| ()).map_err(|error| error.to_string())
}

/// The stream that a view selects; `None` keeps what the instrument has.
#[derive(Debug)]
pub struct StreamSettings<'a> {
    pub name: Option<&'a String>,
    pub description: Option<&'a String>,
    pub unit: Option<&'a String>,
    /// The only attributes to keep.
    pub allowed_attributes: Option<&'a Vec<String>>,
    pub cardinality_limit: Option<usize>,
    pub aggregation: &'a AggregationConfig,
}

/// The reference is to what the option holds.
pub open spec fn refers<T>(reference: Option<&T>, held: Option<T>) -> bool {
    match held {
        Some(value) => reference matches Some(r) && *r == value,
        None => reference is None,
    }
}

/// The settings of the stream of a view.
pub open spec fn stream_of(config: MetricViewConfig, settings: StreamSettings) -> bool {
    &&& refers(settings.name, config.output_name)
    &&& refers(settings.description, config.output_description)
    &&& refers(settings.unit, config.output_unit)
    &&& match settings.allowed_attributes {
        Some(keys) => config.attribute_filter_enabled && *keys == config.allowed_attributes,
        None => !config.attribute_filter_enabled,
    }
    &&& settings.cardinality_limit == config.cardinality_limit
    &&& *settings.aggregation == config.aggregation
}

/// Why a view has no stream, if it has none: only its unit can be refused.
pub open spec fn stream_fault(config: MetricViewConfig) -> Option<Seq<char>> {
    match config.output_unit {
        Some(unit) => unit_fault(encode_utf8(unit@)),
        None => None,
    }
}

/// The stream of a view.
pub fn stream<'a>(config: &'a MetricViewConfig) -> (r: Result<StreamSettings<'a>, String>)
    requires
        config.wf(),
    ensures
        match stream_fault(*config) {
            None => r matches Ok(settings) && stream_of(*config, settings),
            Some(cause) => r matches Err(c) && c@ == cause,
        },
{
    if let Some(unit) = &config.output_unit {
        match stream_with_unit(unit.as_str()) {
            Ok(_) => {},
            Err(cause) => return Err(cause),
        }
    }
    Ok(
        StreamSettings {
            name: config.output_name.as_ref(),
            description: config.output_description.as_ref(),
            unit: config.output_unit.as_ref(),
            allowed_attributes: if config.attribute_filter_enabled {
                Some(&config.allowed_attributes)
            } else {
                None
            },
            cardinality_limit: config.cardinality_limit,
            aggregation: &config.aggregation,
        },
    )
}

/// A selection by kind admits instruments of that kind, or of every kind.
pub open spec fn kind_admits(config: u32, actual: OtelMetricInstrumentKind) -> bool {
    config == ANY_KIND || config == actual.spec_code()
}

/// Whether a selection by kind admits an instrument.
pub fn kind_matches(config: u32, actual: OtelMetricInstrumentKind) -> (r: bool)
    ensures
        r == kind_admits(config, actual),
{
    if config == ANY_KIND {
        return true;
    }
    match OtelMetricInstrumentKind::from_u32(config) {
        Some(kind) => kind == actual,
        None => false,
    }
}

/// The position of the first `*` from `i` on.
pub open spec fn first_star(pattern: Seq<u8>, i: int) -> Option<int>
    decreases pattern.len() - i,
{
    if i >= pattern.len() {
        None
    } else if pattern[i] == 42 {
        Some(i)
    } else {
        first_star(pattern, i + 1)
    }
}

/// The value has this beginning and this end, which do not overlap.
pub open spec fn encloses(prefix: Seq<u8>, suffix: Seq<u8>, value: Seq<u8>) -> bool {
    exists|middle: Seq<u8>| #[trigger] (prefix + middle + suffix) == value
}

/// The first `*` of a pattern stands for any text, and everything else for itself.
pub open spec fn wildcard(pattern: Seq<u8>, value: Seq<u8>) -> bool {
    match first_star(pattern, 0) {
        Some(star) => encloses(pattern.take(star), pattern.skip(star + 1), value),
        None => pattern == value,
    }
}

fn find_star(pattern: &[u8]) -> (r: Option<usize>)
    ensures
        match r {
            Some(i) => i < pattern@.len() && first_star(pattern@, 0) == Some(i as int),
            None => first_star(pattern@, 0) is None,
        },
{
    let mut i: usize = 0;
    while i < pattern.len()
        invariant
            i <= pattern@.len(),
            first_star(pattern@, 0) == first_star(pattern@, i as int),
        decreases pattern@.len() - i,
    {
        if pattern[i] == 42 {
            return Some(i);
        }
        i += 1;
    }
    None
}

/// Whether `value` holds the bytes `part[from..to]` at position `at`.
fn holds_at(value: &[u8], at: usize, part: &[u8], from: usize, to: usize) -> (r: bool)
    requires
        from <= to <= part@.len(),
        at + (to - from) <= value@.len(),
    ensures
        r == (value@.subrange(at as int, at + (to - from)) == part@.subrange(
            from as int,
            to as int,
        )),
{
    let len: usize = value.len();
    let mut i: usize = from;
    while i < to
        invariant
            from <= i <= to <= part@.len(),
            at + (to - from) <= len == value@.len(),
            forall|k: int| from <= k < i ==> value@[at + (k - from)] == #[trigger] part@[k],
        decreases to - i,
    {
        if value[at + (i - from)] != part[i] {
            proof {
                let a = value@.subrange(at as int, at + (to - from));
                let b = part@.subrange(from as int, to as int);
                assert(a[i - from] != b[i - from]);
            }
            return false;
        }
        i += 1;
    }
    assert(value@.subrange(at as int, at + (to - from)) =~= part@.subrange(from as int, to as int));
    true
}

/// Whether a pattern matches a value: its first `*` stands for any text.
pub fn wildcard_matches(pattern: &str, value: &str) -> (r: bool)
    ensures
        r == wildcard(encode_utf8(pattern@), encode_utf8(value@)),
{
    let p = pattern.as_bytes();
    let v = value.as_bytes();
    let star: usize = match find_star(p) {
        Some(star) => star,
        None => {
            proof {
                lemma_bytes_determine_text(pattern@, value@);
            }
            return same_text(pattern, value);
        },
    };
    let suffix_len: usize = p.len() - star - 1;
    let ghost prefix = p@.take(star as int);
    let ghost suffix = p@.skip(star + 1);
    if v.len() < star || v.len() - star < suffix_len {
        proof {
            if encloses(prefix, suffix, v@) {
                let middle = choose|middle: Seq<u8>| #[trigger] (prefix + middle + suffix) == v@;
                assert(v@.len() == prefix.len() + middle.len() + suffix.len());
            }
        }
        return false;
    }
    let tail: usize = v.len() - suffix_len;
    let starts = holds_at(v, 0, p, 0, star);
    let ends = holds_at(v, tail, p, star + 1, p.len());
    proof {
        assert(p@.subrange(0, star as int) =~= prefix);
        assert(p@.subrange(star + 1, p@.len() as int) =~= suffix);
        if starts && ends {
            let middle = v@.subrange(star as int, tail as int);
            assert(prefix + middle + suffix =~= v@) by {
                assert(v@ =~= v@.subrange(0, star as int) + middle + v@.subrange(
                    tail as int,
                    v@.len() as int,
                ));
            }
        } else if encloses(prefix, suffix, v@) {
            let middle = choose|middle: Seq<u8>| #[trigger] (prefix + middle + suffix) == v@;
            let whole = prefix + middle + suffix;
            assert(whole.subrange(0, star as int) =~= prefix);
            assert(whole.subrange(tail as int, whole.len() as int) =~= suffix);
        }
    }
    starts && ends
}

/// What a view looks at of an instrument.
#[derive(Clone, Copy, Debug)]
pub struct Instrument<'a> {
    pub name: &'a str,
    pub meter_name: &'a str,
    pub unit: &'a str,
    pub kind: OtelMetricInstrumentKind,
}

/// The view selects the instrument: every selection that is set admits it.
pub open spec fn selects(config: MetricViewConfig, instrument: Instrument) -> bool {
    &&& config.name_pattern matches Some(pattern) ==> wildcard(
        encode_utf8(pattern@),
        encode_utf8(instrument.name@),
    )
    &&& config.meter_name matches Some(name) ==> name@ == instrument.meter_name@
    &&& config.unit matches Some(unit) ==> unit@ == instrument.unit@
    &&& kind_admits(config.kind, instrument.kind)
}

impl MetricViewConfig {
    /// The stream that the view selects for an instrument, if it selects the instrument.
    pub fn apply<'a>(&'a self, instrument: &Instrument) -> (r: Option<StreamSettings<'a>>)
        requires
            self.wf(),
        ensures
            r is Some <==> selects(*self, *instrument) && stream_fault(*self) is None,
            r matches Some(settings) ==> stream_of(*self, settings),
    {
        if let Some(pattern) = &self.name_pattern {
            if !wildcard_matches(pattern.as_str(), instrument.name) {
                return None;
            }
        }
        if let Some(name) = &self.meter_name {
            if !same_text(name.as_str(), instrument.meter_name) {
                return None;
            }
        }
        if let Some(unit) = &self.unit {
            if !same_text(unit.as_str(), instrument.unit) {
                return None;
            }
        }
        if !kind_matches(self.kind, instrument.kind) {
            return None;
        }
        match stream(self) {
            Ok(settings) => Some(settings),
            Err(_) => None,
        }
    }
}

/// The two aggregations are the same.
pub open spec fn same_aggregation(a: AggregationConfig, b: AggregationConfig) -> bool {
    match a {
        AggregationConfig::ExplicitHistogram { boundaries, record_min_max } => {
            &&& b matches AggregationConfig::ExplicitHistogram {
                boundaries: other,
                record_min_max: record,
            }
            &&& boundaries@ == other@
            &&& record_min_max == record
        },
        _ => a == b,
    }
}

/// The two configurations are the same.
pub open spec fn same_config(a: MetricViewConfig, b: MetricViewConfig) -> bool {
    &&& a.name_pattern == b.name_pattern
    &&& a.meter_name == b.meter_name
    &&& a.unit == b.unit
    &&& a.kind == b.kind
    &&& a.output_name == b.output_name
    &&& a.output_description == b.output_description
    &&& a.output_unit == b.output_unit
    &&& a.attribute_filter_enabled == b.attribute_filter_enabled
    &&& a.allowed_attributes@ == b.allowed_attributes@
    &&& a.cardinality_limit == b.cardinality_limit
    &&& same_aggregation(a.aggregation, b.aggregation)
}

fn copy_text(text: &Option<String>) -> (r: Option<String>)
    ensures
        r == *text,
{
    match text {
        Some(t) => Some(t.clone()),
        None => None,
    }
}

fn copy_texts(texts: &Vec<String>) -> (r: Vec<String>)
    ensures
        r@ == texts@,
{
    let mut copy: Vec<String> = Vec::new();
    let mut i: usize = 0;
    while i < texts.len()
        invariant
            i <= texts@.len(),
            copy@ == texts@.take(i as int),
        decreases texts@.len() - i,
    {
        copy.push(texts[i].clone());
        assert(texts@.take(i + 1) =~= texts@.take(i as int).push(texts@[i as int]));
        i += 1;
    }
    assert(texts@.take(texts@.len() as int) =~= texts@);
    copy
}

impl MetricViewConfig {
    fn copy(&self) -> (r: MetricViewConfig)
        ensures
            same_config(r, *self),
    {
        MetricViewConfig {
            name_pattern: copy_text(&self.name_pattern),
            meter_name: copy_text(&self.meter_name),
            unit: copy_text(&self.unit),
            kind: self.kind,
            output_name: copy_text(&self.output_name),
            output_description: copy_text(&self.output_description),
            output_unit: copy_text(&self.output_unit),
            attribute_filter_enabled: self.attribute_filter_enabled,
            allowed_attributes: copy_texts(&self.allowed_attributes),
            cardinality_limit: self.cardinality_limit,
            aggregation: match &self.aggregation {
                AggregationConfig::Default => AggregationConfig::Default,
                AggregationConfig::Drop => AggregationConfig::Drop,
                AggregationConfig::Sum => AggregationConfig::Sum,
                AggregationConfig::LastValue => AggregationConfig::LastValue,
                AggregationConfig::ExplicitHistogram { boundaries, record_min_max } => {
                    AggregationConfig::ExplicitHistogram {
                        boundaries: copy_words(boundaries.as_slice()),
                        record_min_max: *record_min_max,
                    }
                },
                AggregationConfig::ExponentialHistogram {
                    max_size,
                    max_scale,
                    record_min_max,
                } => AggregationConfig::ExponentialHistogram {
                    max_size: *max_size,
                    max_scale: *max_scale,
                    record_min_max: *record_min_max,
                },
            },
        }
    }
}

/// Builds a view from a builder, which stays as it is.
pub fn otel_metric_view_builder_build(
    errors: &mut ErrorState,
    builder: Option<&mut OtelMetricViewBuilder>,
    out: Option<&mut Option<OtelMetricView>>,
) -> (r: OtelStatus)
    requires
        builder matches Some(b) ==> b.config.wf(),
    ensures
        builder matches Some(b) ==> *final(b) == *b,
        match out {
            None => {
                &&& r == OtelStatus::InvalidArgument
                &&& final(errors).holds(
                    OtelStatus::InvalidArgument,
                    "out pointer must not be NULL"@,
                )
            },
            Some(slot) => match builder {
                None => refused_handle(None::<OtelMetricViewBuilder>, r, *final(errors))
                    && *final(slot) is None,
                Some(b) => if !is_valid(*b) {
                    refused_handle(Some(*b), r, *final(errors)) && *final(slot) is None
                } else {
                    match stream_fault(b.config) {
                        Some(cause) => {
                            &&& r == OtelStatus::InvalidConfig
                            &&& final(errors).holds(
                                OtelStatus::InvalidConfig,
                                "invalid metric view stream: "@ + cause,
                            )
                            &&& *final(slot) is None
                        },
                        None => {
                            &&& r == OtelStatus::Success
                            &&& final(errors).is_clear()
                            &&& *final(slot) matches Some(view)
                            &&& is_valid(view)
                            &&& same_config(view.config, b.config)
                            &&& view.config.wf()
                        },
                    }
                },
            },
        },
{
    clear_last_error(errors);
    let slot = match out {
        None => return fail(errors, OtelStatus::InvalidArgument, "out pointer must not be NULL"),
        Some(slot) => slot,
    };
    *slot = None;
    let builder = match checked_mut(errors, builder) {
        Some(builder) => builder,
        None => return OtelStatus::InvalidArgument,
    };
    if let Err(cause) = stream(&builder.config) {
        let mut message = "invalid metric view stream: ".to_owned();
        message.append(cause.as_str());
        return fail_owned(errors, OtelStatus::InvalidConfig, message);
    }
    *slot =
    Some(
        OtelMetricView {
            header: OtelHandleHeader::new(OTEL_HANDLE_KIND_METRIC_VIEW),
            config: builder.config.copy(),
        },
    );
    OtelStatus::Success
}

/// Destroys a view. Anything but a valid handle is left alone.
pub fn otel_metric_view_destroy(view: &mut Option<OtelMetricView>)
    ensures
        *final(view) == (if *old(view) matches Some(handle) && is_valid(handle) {
            None
        } else {
            *old(view)
        }),
{
    destroy(view);
}

/// A view that was built behaves as its builder said: it selects the same instruments, and it has
/// a stream for each of them.
pub proof fn built_view_selects_as_configured(
    configured: MetricViewConfig,
    built: MetricViewConfig,
    instrument: Instrument,
)
    requires
        same_config(built, configured),
        stream_fault(configured) is None,
    ensures
        selects(built, instrument) == selects(configured, instrument),
        stream_fault(built) is None,
{
}

/// The pattern `*` matches everything, and a pattern without `*` nothing but itself.
pub proof fn star_matches_everything(pattern: Seq<u8>, value: Seq<u8>)
    ensures
        wildcard(seq![42u8], value),
        (forall|i: int| 0 <= i < pattern.len() ==> #[trigger] pattern[i] != 42) ==> (wildcard(
            pattern,
            value,
        ) <==> pattern == value),
{
    let star = seq![42u8];
    assert(first_star(star, 0) == Some(0int));
    assert(star.take(0) + value + star.skip(1) =~= value);
    if forall|i: int| 0 <= i < pattern.len() ==> #[trigger] pattern[i] != 42 {
        lemma_no_star(pattern, 0);
    }
}

/// What a pattern with a `*` matches: with `prefix` before its first `*` and `suffix` after it, the
/// values that begin with `prefix`, end with `suffix` and have room for both.
pub proof fn star_stands_for_any_text(prefix: Seq<u8>, suffix: Seq<u8>, value: Seq<u8>)
    requires
        forall|i: int| 0 <= i < prefix.len() ==> #[trigger] prefix[i] != 42,
    ensures
        wildcard(prefix + seq![42u8] + suffix, value) <==> {
            &&& value.len() >= prefix.len() + suffix.len()
            &&& forall|i: int| 0 <= i < prefix.len() ==> #[trigger] value[i] == prefix[i]
            &&& forall|i: int|
                0 <= i < suffix.len() ==> value[value.len() - suffix.len() + i]
                    == #[trigger] suffix[i]
        },
{
    let pattern = prefix + seq![42u8] + suffix;
    let n = prefix.len() as int;
    lemma_star_found(pattern, 0, n);
    assert(pattern.take(n) =~= prefix);
    assert(pattern.skip(n + 1) =~= suffix);
    if encloses(prefix, suffix, value) {
        let middle = choose|middle: Seq<u8>| #[trigger] (prefix + middle + suffix) == value;
        let whole = prefix + middle + suffix;
        assert forall|i: int| 0 <= i < suffix.len() implies value[value.len() - suffix.len() + i]
            == #[trigger] suffix[i] by {
            assert(whole[n + middle.len() + i] == suffix[i]);
        }
    }
    if value.len() >= prefix.len() + suffix.len() && (forall|i: int|
        0 <= i < prefix.len() ==> #[trigger] value[i] == prefix[i]) && (forall|i: int|
        0 <= i < suffix.len() ==> value[value.len() - suffix.len() + i] == #[trigger] suffix[i]) {
        let tail = value.len() - suffix.len();
        let middle = value.subrange(n, tail);
        assert forall|i: int| 0 <= i < value.len() implies (prefix + middle + suffix)[i]
            == value[i] by {
            if i >= tail {
                assert(value[tail + (i - tail)] == suffix[i - tail]);
            }
        }
        assert(prefix + middle + suffix =~= value);
    }
}

proof fn lemma_star_found(pattern: Seq<u8>, i: int, star: int)
    requires
        0 <= i <= star < pattern.len(),
        pattern[star] == 42,
        forall|k: int| 0 <= k < star ==> #[trigger] pattern[k] != 42,
    ensures
        first_star(pattern, i) == Some(star),
    decreases star - i,
{
    if i < star {
        assert(pattern[i] != 42);
        lemma_star_found(pattern, i + 1, star);
    }
}

proof fn lemma_no_star(pattern: Seq<u8>, i: int)
    requires
        0 <= i <= pattern.len(),
        forall|k: int| 0 <= k < pattern.len() ==> #[trigger] pattern[k] != 42,
    ensures
        first_star(pattern, i) is None,
    decreases pattern.len() - i,
{
    if i < pattern.len() {
        lemma_no_star(pattern, i + 1);
    }
}

} // verus!
