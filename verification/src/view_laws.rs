//! What the settings of a metric view come to: which instruments it selects and what stream it
//! gives them.

use vstd::prelude::*;
use vstd::utf8::encode_utf8;

use crate::abi::{OtelArrayView, OtelStatus, OtelStringView};
use crate::double_bits::{finite, less};
use crate::error::ErrorState;
use crate::handle::is_valid;
use crate::metric_kind::{number_kind_from_u32, OtelMetricInstrumentKind};
use crate::metric_data::NumberKind;
use crate::metric_view::{
    kind_matches, otel_metric_view_builder_add_allowed_attribute, otel_metric_view_builder_build,
    otel_metric_view_builder_destroy, otel_metric_view_builder_new,
    otel_metric_view_builder_set_aggregation,
    otel_metric_view_builder_set_attribute_filter_enabled,
    otel_metric_view_builder_set_cardinality_limit,
    otel_metric_view_builder_set_explicit_histogram,
    otel_metric_view_builder_set_exponential_histogram,
    otel_metric_view_builder_set_instrument_kind, otel_metric_view_builder_set_meter_name,
    otel_metric_view_builder_set_name_pattern, otel_metric_view_builder_set_output_description,
    otel_metric_view_builder_set_output_name, otel_metric_view_builder_set_output_unit,
    otel_metric_view_builder_set_unit, otel_metric_view_destroy, star_matches_everything,
    star_stands_for_any_text, stream, unit_fault, wildcard_matches, AggregationConfig, Instrument,
    MetricViewConfig, OtelMetricView, OtelMetricViewBuilder, StreamSettings,
};

verus! {

/// The value fits the pattern: its first `*` stands for any text, and everything else for itself.
/// `star` is where that `*` stands.
pub open spec fn fits_around(pattern: Seq<u8>, star: int, value: Seq<u8>) -> bool {
    let behind = pattern.len() - star - 1;
    &&& value.len() >= star + behind
    &&& forall|i: int| 0 <= i < star ==> #[trigger] value[i] == pattern[i]
    &&& forall|i: int|
        0 <= i < behind ==> value[value.len() - behind + i] == #[trigger] pattern[star + 1 + i]
}

/// A match goes by the bytes of the texts: with the first `*` of the pattern at `star`, the value
/// begins with what stands before it, ends with what stands behind it and has room for both.
pub proof fn first_star_matches_any_text(pattern: &str, value: &str, star: int, r: bool)
    requires
        call_ensures(wildcard_matches, (pattern, value), r),
        0 <= star < encode_utf8(pattern@).len(),
        encode_utf8(pattern@)[star] == 42,
        forall|i: int| 0 <= i < star ==> #[trigger] encode_utf8(pattern@)[i] != 42,
    ensures
        r <==> fits_around(encode_utf8(pattern@), star, encode_utf8(value@)),
{
    let p = encode_utf8(pattern@);
    let v = encode_utf8(value@);
    let prefix = p.take(star);
    let suffix = p.skip(star + 1);
    assert(prefix + seq![42u8] + suffix =~= p);
    star_stands_for_any_text(prefix, suffix, v);
    if r {
        assert forall|i: int| 0 <= i < star implies #[trigger] v[i] == p[i] by {
            assert(v[i] == prefix[i]);
        }
        assert forall|i: int| 0 <= i < suffix.len() implies v[v.len() - suffix.len() + i]
            == #[trigger] p[star + 1 + i] by {
            assert(suffix[i] == p[star + 1 + i]);
        }
    } else if fits_around(p, star, v) {
        assert forall|i: int| 0 <= i < prefix.len() implies #[trigger] v[i] == prefix[i] by {
            assert(v[i] == p[i]);
        }
        assert forall|i: int| 0 <= i < suffix.len() implies v[v.len() - suffix.len() + i]
            == #[trigger] suffix[i] by {
            assert(p[star + 1 + i] == suffix[i]);
        }
    }
}

/// A pattern without `*` matches its own text and no other.
pub proof fn plain_patterns_match_themselves(pattern: &str, value: &str, r: bool)
    requires
        call_ensures(wildcard_matches, (pattern, value), r),
        forall|i: int|
            0 <= i < encode_utf8(pattern@).len() ==> #[trigger] encode_utf8(pattern@)[i] != 42,
    ensures
        r <==> pattern@ == value@,
{
    star_matches_everything(encode_utf8(pattern@), encode_utf8(value@));
    crate::text::lemma_bytes_determine_text(pattern@, value@);
}

/// The code of an instrument kind.
pub open spec fn code_of(kind: OtelMetricInstrumentKind) -> u32 {
    match kind {
        OtelMetricInstrumentKind::Counter => 0,
        OtelMetricInstrumentKind::UpDownCounter => 1,
        OtelMetricInstrumentKind::Gauge => 2,
        OtelMetricInstrumentKind::Histogram => 3,
        OtelMetricInstrumentKind::ObservableCounter => 4,
        OtelMetricInstrumentKind::ObservableUpDownCounter => 5,
        OtelMetricInstrumentKind::ObservableGauge => 6,
    }
}

/// A selection by kind admits the instruments of that kind, and the greatest code those of every
/// kind.
pub proof fn kinds_select_their_instruments(
    config: u32,
    actual: OtelMetricInstrumentKind,
    r: bool,
)
    requires
        call_ensures(kind_matches, (config, actual), r),
    ensures
        r <==> config == 0xFFFF_FFFF || config == code_of(actual),
{
}

/// Each instrument kind has its code, and every other code stands for none.
pub proof fn kinds_have_codes(code: u32, r: Option<OtelMetricInstrumentKind>)
    requires
        call_ensures(OtelMetricInstrumentKind::from_u32, (code,), r),
    ensures
        r is Some <==> code <= 6,
        r matches Some(kind) ==> code_of(kind) == code,
{
}

/// Each kind of number has its code, and every other code stands for none.
pub proof fn number_kinds_have_codes(code: u32, r: Option<NumberKind>)
    requires
        call_ensures(number_kind_from_u32, (code,), r),
    ensures
        r == Some(NumberKind::U64) <==> code == 0,
        r == Some(NumberKind::I64) <==> code == 1,
        r == Some(NumberKind::F64) <==> code == 2,
{
}

/// A new view selects every instrument and changes nothing of its stream.
pub proof fn new_view_builder_has_defaults(errors: &mut ErrorState, r: OtelMetricViewBuilder)
    requires
        call_ensures(otel_metric_view_builder_new, (errors,), r),
    ensures
        is_valid(r),
        r.config.name_pattern is None,
        r.config.meter_name is None,
        r.config.unit is None,
        r.config.kind == 0xFFFF_FFFF,
        r.config.output_name is None,
        r.config.output_description is None,
        r.config.output_unit is None,
        !r.config.attribute_filter_enabled,
        r.config.allowed_attributes@.len() == 0,
        r.config.cardinality_limit is None,
        r.config.aggregation is Default,
{
}

/// Setting the name pattern keeps the text, or takes it away where it is empty, and changes nothing else. A
/// text that cannot be read changes nothing.
pub proof fn view_name_pattern_is_kept(
    errors: &mut ErrorState,
    builder: &mut OtelMetricViewBuilder,
    value: OtelStringView,
    r: OtelStatus,
)
    requires
        is_valid(*old(builder)),
        call_ensures(otel_metric_view_builder_set_name_pattern, (errors, Some(builder), value), r),
    ensures
        is_valid(*final(builder)),
        r == OtelStatus::Success <==> value.text() is Ok,
        match value.text() {
            Ok(text) => match final(builder).config.name_pattern {
                Some(kept) => text.len() > 0 && kept@ == text,
                None => text.len() == 0,
            },
            Err(_) => final(builder).config.name_pattern == old(builder).config.name_pattern,
        },
        final(builder).config.meter_name == old(builder).config.meter_name,
        final(builder).config.unit == old(builder).config.unit,
        final(builder).config.kind == old(builder).config.kind,
        final(builder).config.output_name == old(builder).config.output_name,
        final(builder).config.output_description == old(builder).config.output_description,
        final(builder).config.output_unit == old(builder).config.output_unit,
        final(builder).config.attribute_filter_enabled == old(builder).config.attribute_filter_enabled,
        final(builder).config.allowed_attributes == old(builder).config.allowed_attributes,
        final(builder).config.cardinality_limit == old(builder).config.cardinality_limit,
        final(builder).config.aggregation == old(builder).config.aggregation,
{
}

/// Setting the meter name keeps the text, or takes it away where it is empty, and changes nothing else. A
/// text that cannot be read changes nothing.
pub proof fn view_meter_name_is_kept(
    errors: &mut ErrorState,
    builder: &mut OtelMetricViewBuilder,
    value: OtelStringView,
    r: OtelStatus,
)
    requires
        is_valid(*old(builder)),
        call_ensures(otel_metric_view_builder_set_meter_name, (errors, Some(builder), value), r),
    ensures
        is_valid(*final(builder)),
        r == OtelStatus::Success <==> value.text() is Ok,
        match value.text() {
            Ok(text) => match final(builder).config.meter_name {
                Some(kept) => text.len() > 0 && kept@ == text,
                None => text.len() == 0,
            },
            Err(_) => final(builder).config.meter_name == old(builder).config.meter_name,
        },
        final(builder).config.name_pattern == old(builder).config.name_pattern,
        final(builder).config.unit == old(builder).config.unit,
        final(builder).config.kind == old(builder).config.kind,
        final(builder).config.output_name == old(builder).config.output_name,
        final(builder).config.output_description == old(builder).config.output_description,
        final(builder).config.output_unit == old(builder).config.output_unit,
        final(builder).config.attribute_filter_enabled == old(builder).config.attribute_filter_enabled,
        final(builder).config.allowed_attributes == old(builder).config.allowed_attributes,
        final(builder).config.cardinality_limit == old(builder).config.cardinality_limit,
        final(builder).config.aggregation == old(builder).config.aggregation,
{
}

/// Setting the unit of the instruments keeps the text, or takes it away where it is empty, and changes nothing else. A
/// text that cannot be read changes nothing.
pub proof fn view_unit_is_kept(
    errors: &mut ErrorState,
    builder: &mut OtelMetricViewBuilder,
    value: OtelStringView,
    r: OtelStatus,
)
    requires
        is_valid(*old(builder)),
        call_ensures(otel_metric_view_builder_set_unit, (errors, Some(builder), value), r),
    ensures
        is_valid(*final(builder)),
        r == OtelStatus::Success <==> value.text() is Ok,
        match value.text() {
            Ok(text) => match final(builder).config.unit {
                Some(kept) => text.len() > 0 && kept@ == text,
                None => text.len() == 0,
            },
            Err(_) => final(builder).config.unit == old(builder).config.unit,
        },
        final(builder).config.name_pattern == old(builder).config.name_pattern,
        final(builder).config.meter_name == old(builder).config.meter_name,
        final(builder).config.kind == old(builder).config.kind,
        final(builder).config.output_name == old(builder).config.output_name,
        final(builder).config.output_description == old(builder).config.output_description,
        final(builder).config.output_unit == old(builder).config.output_unit,
        final(builder).config.attribute_filter_enabled == old(builder).config.attribute_filter_enabled,
        final(builder).config.allowed_attributes == old(builder).config.allowed_attributes,
        final(builder).config.cardinality_limit == old(builder).config.cardinality_limit,
        final(builder).config.aggregation == old(builder).config.aggregation,
{
}

/// Setting the name of the stream keeps the text, or takes it away where it is empty, and changes nothing else. A
/// text that cannot be read changes nothing.
pub proof fn view_output_name_is_kept(
    errors: &mut ErrorState,
    builder: &mut OtelMetricViewBuilder,
    value: OtelStringView,
    r: OtelStatus,
)
    requires
        is_valid(*old(builder)),
        call_ensures(otel_metric_view_builder_set_output_name, (errors, Some(builder), value), r),
    ensures
        is_valid(*final(builder)),
        r == OtelStatus::Success <==> value.text() is Ok,
        match value.text() {
            Ok(text) => match final(builder).config.output_name {
                Some(kept) => text.len() > 0 && kept@ == text,
                None => text.len() == 0,
            },
            Err(_) => final(builder).config.output_name == old(builder).config.output_name,
        },
        final(builder).config.name_pattern == old(builder).config.name_pattern,
        final(builder).config.meter_name == old(builder).config.meter_name,
        final(builder).config.unit == old(builder).config.unit,
        final(builder).config.kind == old(builder).config.kind,
        final(builder).config.output_description == old(builder).config.output_description,
        final(builder).config.output_unit == old(builder).config.output_unit,
        final(builder).config.attribute_filter_enabled == old(builder).config.attribute_filter_enabled,
        final(builder).config.allowed_attributes == old(builder).config.allowed_attributes,
        final(builder).config.cardinality_limit == old(builder).config.cardinality_limit,
        final(builder).config.aggregation == old(builder).config.aggregation,
{
}

/// Setting the description of the stream keeps the text, or takes it away where it is empty, and changes nothing else. A
/// text that cannot be read changes nothing.
pub proof fn view_output_description_is_kept(
    errors: &mut ErrorState,
    builder: &mut OtelMetricViewBuilder,
    value: OtelStringView,
    r: OtelStatus,
)
    requires
        is_valid(*old(builder)),
        call_ensures(otel_metric_view_builder_set_output_description, (errors, Some(builder), value), r),
    ensures
        is_valid(*final(builder)),
        r == OtelStatus::Success <==> value.text() is Ok,
        match value.text() {
            Ok(text) => match final(builder).config.output_description {
                Some(kept) => text.len() > 0 && kept@ == text,
                None => text.len() == 0,
            },
            Err(_) => final(builder).config.output_description == old(builder).config.output_description,
        },
        final(builder).config.name_pattern == old(builder).config.name_pattern,
        final(builder).config.meter_name == old(builder).config.meter_name,
        final(builder).config.unit == old(builder).config.unit,
        final(builder).config.kind == old(builder).config.kind,
        final(builder).config.output_name == old(builder).config.output_name,
        final(builder).config.output_unit == old(builder).config.output_unit,
        final(builder).config.attribute_filter_enabled == old(builder).config.attribute_filter_enabled,
        final(builder).config.allowed_attributes == old(builder).config.allowed_attributes,
        final(builder).config.cardinality_limit == old(builder).config.cardinality_limit,
        final(builder).config.aggregation == old(builder).config.aggregation,
{
}

/// Setting the unit of the stream keeps the text, or takes it away where it is empty, and changes nothing else. A
/// text that cannot be read changes nothing.
pub proof fn view_output_unit_is_kept(
    errors: &mut ErrorState,
    builder: &mut OtelMetricViewBuilder,
    value: OtelStringView,
    r: OtelStatus,
)
    requires
        is_valid(*old(builder)),
        call_ensures(otel_metric_view_builder_set_output_unit, (errors, Some(builder), value), r),
    ensures
        is_valid(*final(builder)),
        r == OtelStatus::Success <==> value.text() is Ok,
        match value.text() {
            Ok(text) => match final(builder).config.output_unit {
                Some(kept) => text.len() > 0 && kept@ == text,
                None => text.len() == 0,
            },
            Err(_) => final(builder).config.output_unit == old(builder).config.output_unit,
        },
        final(builder).config.name_pattern == old(builder).config.name_pattern,
        final(builder).config.meter_name == old(builder).config.meter_name,
        final(builder).config.unit == old(builder).config.unit,
        final(builder).config.kind == old(builder).config.kind,
        final(builder).config.output_name == old(builder).config.output_name,
        final(builder).config.output_description == old(builder).config.output_description,
        final(builder).config.attribute_filter_enabled == old(builder).config.attribute_filter_enabled,
        final(builder).config.allowed_attributes == old(builder).config.allowed_attributes,
        final(builder).config.cardinality_limit == old(builder).config.cardinality_limit,
        final(builder).config.aggregation == old(builder).config.aggregation,
{
}

/// Selecting by kind keeps a known code or the code of every kind, refuses any other, and changes
/// nothing else.
pub proof fn view_kind_is_kept(
    errors: &mut ErrorState,
    builder: &mut OtelMetricViewBuilder,
    kind: u32,
    r: OtelStatus,
)
    requires
        is_valid(*old(builder)),
        call_ensures(otel_metric_view_builder_set_instrument_kind, (errors, Some(builder), kind), r),
    ensures
        is_valid(*final(builder)),
        r == OtelStatus::Success <==> kind <= 6 || kind == 0xFFFF_FFFF,
        r == OtelStatus::Success || r == OtelStatus::InvalidArgument,
        final(builder).config.kind == (if kind <= 6 || kind == 0xFFFF_FFFF {
            kind
        } else {
            old(builder).config.kind
        }),
        final(builder).config.name_pattern == old(builder).config.name_pattern,
        final(builder).config.meter_name == old(builder).config.meter_name,
        final(builder).config.unit == old(builder).config.unit,
        final(builder).config.output_name == old(builder).config.output_name,
        final(builder).config.output_description == old(builder).config.output_description,
        final(builder).config.output_unit == old(builder).config.output_unit,
        final(builder).config.attribute_filter_enabled == old(builder).config.attribute_filter_enabled,
        final(builder).config.allowed_attributes == old(builder).config.allowed_attributes,
        final(builder).config.cardinality_limit == old(builder).config.cardinality_limit,
        final(builder).config.aggregation == old(builder).config.aggregation,
{
}

/// An allowed key is kept behind the earlier ones and turns filtering on. An empty key is refused
/// and changes nothing, as is one that cannot be read.
pub proof fn allowed_keys_are_kept(
    errors: &mut ErrorState,
    builder: &mut OtelMetricViewBuilder,
    key: OtelStringView,
    r: OtelStatus,
)
    requires
        is_valid(*old(builder)),
        call_ensures(
            otel_metric_view_builder_add_allowed_attribute,
            (errors, Some(builder), key),
            r,
        ),
    ensures
        is_valid(*final(builder)),
        r == OtelStatus::Success <==> (key.text() matches Ok(text) && text.len() > 0),
        r == OtelStatus::Success ==> {
            let before = old(builder).config.allowed_attributes@;
            let after = final(builder).config.allowed_attributes@;
            &&& final(builder).config.attribute_filter_enabled
            &&& after.len() == before.len() + 1
            &&& forall|i: int| 0 <= i < before.len() ==> #[trigger] after[i] == before[i]
            &&& key.text() matches Ok(text) && after[before.len() as int]@ == text
        },
        r != OtelStatus::Success ==> {
            &&& final(builder).config.allowed_attributes == old(builder).config.allowed_attributes
            &&& final(builder).config.attribute_filter_enabled
                == old(builder).config.attribute_filter_enabled
        },
        final(builder).config.name_pattern == old(builder).config.name_pattern,
        final(builder).config.meter_name == old(builder).config.meter_name,
        final(builder).config.unit == old(builder).config.unit,
        final(builder).config.kind == old(builder).config.kind,
        final(builder).config.output_name == old(builder).config.output_name,
        final(builder).config.output_description == old(builder).config.output_description,
        final(builder).config.output_unit == old(builder).config.output_unit,
        final(builder).config.cardinality_limit == old(builder).config.cardinality_limit,
        final(builder).config.aggregation == old(builder).config.aggregation,
{
    if r == OtelStatus::Success {
        let before = old(builder).config.allowed_attributes@;
        let after = final(builder).config.allowed_attributes@;
        assert forall|i: int| 0 <= i < before.len() implies #[trigger] after[i] == before[i] by {
            assert(after.drop_last()[i] == after[i]);
        }
    }
}

/// Filtering is on exactly for a word that is not zero, and nothing else changes.
pub proof fn view_filter_is_kept(
    errors: &mut ErrorState,
    builder: &mut OtelMetricViewBuilder,
    enabled: u32,
    r: OtelStatus,
)
    requires
        is_valid(*old(builder)),
        call_ensures(
            otel_metric_view_builder_set_attribute_filter_enabled,
            (errors, Some(builder), enabled),
            r,
        ),
    ensures
        is_valid(*final(builder)),
        r == OtelStatus::Success,
        final(builder).config.attribute_filter_enabled <==> enabled != 0,
        final(builder).config.name_pattern == old(builder).config.name_pattern,
        final(builder).config.meter_name == old(builder).config.meter_name,
        final(builder).config.unit == old(builder).config.unit,
        final(builder).config.kind == old(builder).config.kind,
        final(builder).config.output_name == old(builder).config.output_name,
        final(builder).config.output_description == old(builder).config.output_description,
        final(builder).config.output_unit == old(builder).config.output_unit,
        final(builder).config.allowed_attributes == old(builder).config.allowed_attributes,
        final(builder).config.cardinality_limit == old(builder).config.cardinality_limit,
        final(builder).config.aggregation == old(builder).config.aggregation,
{
}

/// A cardinality limit from one to below the greatest `usize` is kept, any other is refused, and
/// nothing else changes.
pub proof fn view_cardinality_is_kept(
    errors: &mut ErrorState,
    builder: &mut OtelMetricViewBuilder,
    limit: u64,
    r: OtelStatus,
)
    requires
        is_valid(*old(builder)),
        call_ensures(
            otel_metric_view_builder_set_cardinality_limit,
            (errors, Some(builder), limit),
            r,
        ),
    ensures
        is_valid(*final(builder)),
        r == OtelStatus::Success <==> 1 <= limit && limit <= usize::MAX - 1,
        r == OtelStatus::Success || r == OtelStatus::InvalidConfig,
        r == OtelStatus::Success ==> (final(builder).config.cardinality_limit matches Some(kept)
            && kept == limit),
        r != OtelStatus::Success ==> final(builder).config.cardinality_limit
            == old(builder).config.cardinality_limit,
        final(builder).config.name_pattern == old(builder).config.name_pattern,
        final(builder).config.meter_name == old(builder).config.meter_name,
        final(builder).config.unit == old(builder).config.unit,
        final(builder).config.kind == old(builder).config.kind,
        final(builder).config.output_name == old(builder).config.output_name,
        final(builder).config.output_description == old(builder).config.output_description,
        final(builder).config.output_unit == old(builder).config.output_unit,
        final(builder).config.attribute_filter_enabled == old(builder).config.attribute_filter_enabled,
        final(builder).config.allowed_attributes == old(builder).config.allowed_attributes,
        final(builder).config.aggregation == old(builder).config.aggregation,
{
}

/// The aggregations without parameters have the codes zero to three; any other is refused, and
/// nothing else changes.
pub proof fn view_aggregation_is_kept(
    errors: &mut ErrorState,
    builder: &mut OtelMetricViewBuilder,
    aggregation: u32,
    r: OtelStatus,
)
    requires
        is_valid(*old(builder)),
        call_ensures(
            otel_metric_view_builder_set_aggregation,
            (errors, Some(builder), aggregation),
            r,
        ),
    ensures
        is_valid(*final(builder)),
        r == OtelStatus::Success <==> aggregation <= 3,
        r == OtelStatus::Success || r == OtelStatus::InvalidArgument,
        aggregation == 0 ==> final(builder).config.aggregation is Default,
        aggregation == 1 ==> final(builder).config.aggregation is Drop,
        aggregation == 2 ==> final(builder).config.aggregation is Sum,
        aggregation == 3 ==> final(builder).config.aggregation is LastValue,
        aggregation > 3 ==> final(builder).config.aggregation == old(builder).config.aggregation,
        final(builder).config.name_pattern == old(builder).config.name_pattern,
        final(builder).config.meter_name == old(builder).config.meter_name,
        final(builder).config.unit == old(builder).config.unit,
        final(builder).config.kind == old(builder).config.kind,
        final(builder).config.output_name == old(builder).config.output_name,
        final(builder).config.output_description == old(builder).config.output_description,
        final(builder).config.output_unit == old(builder).config.output_unit,
        final(builder).config.attribute_filter_enabled == old(builder).config.attribute_filter_enabled,
        final(builder).config.allowed_attributes == old(builder).config.allowed_attributes,
        final(builder).config.cardinality_limit == old(builder).config.cardinality_limit,
{
}

/// The bits are those of a double that is neither infinite nor no number.
pub open spec fn is_number(bits: u64) -> bool {
    bits % 0x8000_0000_0000_0000 < 0x7FF0_0000_0000_0000
}

/// The first double is less than the second, both being numbers: by sign, and then by magnitude,
/// where the two zeros are equal.
pub open spec fn is_below(a: u64, b: u64) -> bool {
    let x = a % 0x8000_0000_0000_0000;
    let y = b % 0x8000_0000_0000_0000;
    let a_negative = a >= 0x8000_0000_0000_0000;
    let b_negative = b >= 0x8000_0000_0000_0000;
    if a_negative && b_negative {
        x > y
    } else if a_negative {
        x > 0 || y > 0
    } else if b_negative {
        false
    } else {
        x < y
    }
}

/// Finiteness goes by the bits of the double.
pub proof fn finiteness_goes_by_bits(bits: u64, r: bool)
    requires
        call_ensures(finite, (bits,), r),
    ensures
        r <==> is_number(bits),
{
}

/// The order of numbers goes by sign and magnitude.
pub proof fn order_goes_by_bits(a: u64, b: u64, r: bool)
    requires
        is_number(a),
        is_number(b),
        call_ensures(less, (a, b), r),
    ensures
        r <==> is_below(a, b),
{
}

/// A histogram with explicit boundaries is kept with these boundaries exactly when they are
/// readable, finite and strictly increasing, and records the extremes exactly for a word that is
/// not zero. Nothing else changes.
pub proof fn view_boundaries_are_kept(
    errors: &mut ErrorState,
    builder: &mut OtelMetricViewBuilder,
    boundaries: &[u64],
    record_min_max: u32,
    r: OtelStatus,
)
    requires
        is_valid(*old(builder)),
        call_ensures(
            otel_metric_view_builder_set_explicit_histogram,
            (errors, Some(builder), OtelArrayView::Data(boundaries), record_min_max),
            r,
        ),
    ensures
        is_valid(*final(builder)),
        r == OtelStatus::Success <==> {
            &&& forall|i: int| 0 <= i < boundaries@.len() ==> is_number(#[trigger] boundaries@[i])
            &&& forall|i: int, j: int|
                0 <= i < j < boundaries@.len() ==> is_below(
                    #[trigger] boundaries@[i],
                    #[trigger] boundaries@[j],
                )
        },
        r == OtelStatus::Success || r == OtelStatus::InvalidConfig,
        r == OtelStatus::Success ==> (final(builder).config.aggregation
            matches AggregationConfig::ExplicitHistogram { boundaries: kept, record_min_max: record }
            && kept@ == boundaries@ && (record <==> record_min_max != 0)),
        r != OtelStatus::Success ==> final(builder).config.aggregation
            == old(builder).config.aggregation,
        final(builder).config.name_pattern == old(builder).config.name_pattern,
        final(builder).config.meter_name == old(builder).config.meter_name,
        final(builder).config.unit == old(builder).config.unit,
        final(builder).config.kind == old(builder).config.kind,
        final(builder).config.output_name == old(builder).config.output_name,
        final(builder).config.output_description == old(builder).config.output_description,
        final(builder).config.output_unit == old(builder).config.output_unit,
        final(builder).config.attribute_filter_enabled == old(builder).config.attribute_filter_enabled,
        final(builder).config.allowed_attributes == old(builder).config.allowed_attributes,
        final(builder).config.cardinality_limit == old(builder).config.cardinality_limit,
{
    lemma_boundaries(boundaries@);
}

proof fn lemma_boundaries(boundaries: Seq<u64>)
    ensures
        crate::metric_view::boundaries_acceptable(boundaries) <==> {
            &&& forall|i: int| 0 <= i < boundaries.len() ==> is_number(#[trigger] boundaries[i])
            &&& forall|i: int, j: int|
                0 <= i < j < boundaries.len() ==> is_below(
                    #[trigger] boundaries[i],
                    #[trigger] boundaries[j],
                )
        },
{
    assert forall|i: int| 0 <= i < boundaries.len() implies is_number(#[trigger] boundaries[i])
        == crate::double_bits::is_finite(boundaries[i]) by {}
    if forall|i: int| 0 <= i < boundaries.len() ==> is_number(#[trigger] boundaries[i]) {
        assert forall|i: int, j: int| 0 <= i < j < boundaries.len() implies is_below(
            #[trigger] boundaries[i],
            #[trigger] boundaries[j],
        ) == (crate::double_bits::order_key(boundaries[i]) < crate::double_bits::order_key(
            boundaries[j],
        )) by {
            assert(is_number(boundaries[i]));
            assert(is_number(boundaries[j]));
        }
    }
}

/// A missing array of boundaries is an empty one where its count is zero, and the caller's mistake
/// otherwise.
pub proof fn missing_boundaries(
    errors: &mut ErrorState,
    builder: &mut OtelMetricViewBuilder,
    count: usize,
    record_min_max: u32,
    r: OtelStatus,
)
    requires
        is_valid(*old(builder)),
        call_ensures(
            otel_metric_view_builder_set_explicit_histogram,
            (errors, Some(builder), OtelArrayView::Null(count), record_min_max),
            r,
        ),
    ensures
        count == 0 ==> r == OtelStatus::Success && (final(builder).config.aggregation
            matches AggregationConfig::ExplicitHistogram { boundaries, .. } && boundaries@.len() == 0),
        count > 0 ==> r == OtelStatus::InvalidArgument && *final(builder) == *old(builder),
{
}

/// An exponential histogram is kept with its size, its scale and whether it records the extremes,
/// exactly when the size is not zero and the scale lies from -10 to 20. Nothing else changes.
pub proof fn view_exponential_is_kept(
    errors: &mut ErrorState,
    builder: &mut OtelMetricViewBuilder,
    max_size: u32,
    max_scale: i8,
    record_min_max: u32,
    r: OtelStatus,
)
    requires
        is_valid(*old(builder)),
        call_ensures(
            otel_metric_view_builder_set_exponential_histogram,
            (errors, Some(builder), max_size, max_scale, record_min_max),
            r,
        ),
    ensures
        is_valid(*final(builder)),
        r == OtelStatus::Success <==> max_size >= 1 && -10 <= max_scale && max_scale <= 20,
        r == OtelStatus::Success || r == OtelStatus::InvalidConfig,
        r == OtelStatus::Success ==> (final(builder).config.aggregation
            matches AggregationConfig::ExponentialHistogram {
            max_size: size,
            max_scale: scale,
            record_min_max: record,
        } && size == max_size && scale == max_scale && (record <==> record_min_max != 0)),
        r != OtelStatus::Success ==> final(builder).config.aggregation
            == old(builder).config.aggregation,
        final(builder).config.name_pattern == old(builder).config.name_pattern,
        final(builder).config.meter_name == old(builder).config.meter_name,
        final(builder).config.unit == old(builder).config.unit,
        final(builder).config.kind == old(builder).config.kind,
        final(builder).config.output_name == old(builder).config.output_name,
        final(builder).config.output_description == old(builder).config.output_description,
        final(builder).config.output_unit == old(builder).config.output_unit,
        final(builder).config.attribute_filter_enabled == old(builder).config.attribute_filter_enabled,
        final(builder).config.allowed_attributes == old(builder).config.allowed_attributes,
        final(builder).config.cardinality_limit == old(builder).config.cardinality_limit,
{
}

/// The reference is to this text, or to none where there is none.
pub open spec fn refers_to(reference: Option<&String>, text: Option<String>) -> bool {
    match text {
        Some(t) => reference matches Some(r) && r@ == t@,
        None => reference is None,
    }
}

/// A stream has the name, the description, the unit, the limit and the aggregation of its view, and
/// filters by the allowed keys exactly where filtering is on. It is refused only for a unit of more
/// than 63 bytes or with a byte beyond ASCII.
pub proof fn streams_have_the_settings_of_their_view<'a>(
    config: &'a MetricViewConfig,
    r: Result<StreamSettings<'a>, String>,
)
    requires
        config.wf(),
        call_ensures(stream, (config,), r),
    ensures
        r is Ok <==> (config.output_unit matches Some(unit) ==> encode_utf8(unit@).len() <= 63 && (
        forall|i: int|
            0 <= i < encode_utf8(unit@).len() ==> #[trigger] encode_utf8(unit@)[i] < 128)),
        r matches Ok(settings) ==> has_stream(*config, settings),
{
    if let Some(unit) = config.output_unit {
        let bytes = encode_utf8(unit@);
        if unit_fault(bytes) is None {
            assert forall|i: int| 0 <= i < bytes.len() implies #[trigger] bytes[i] < 128 by {}
        }
    }
}

/// The stream has the settings of the view.
pub open spec fn has_stream(config: MetricViewConfig, settings: StreamSettings) -> bool {
    &&& refers_to(settings.name, config.output_name)
    &&& refers_to(settings.description, config.output_description)
    &&& refers_to(settings.unit, config.output_unit)
    &&& settings.allowed_attributes is Some <==> config.attribute_filter_enabled
    &&& settings.allowed_attributes matches Some(keys) ==> keys@ == config.allowed_attributes@
    &&& settings.cardinality_limit == config.cardinality_limit
    &&& *settings.aggregation == config.aggregation
}

/// A view gives its stream to an instrument exactly when every selection that is set admits it: the
/// name pattern its name, the meter name that of its meter, the unit its own, and the kind its
/// kind, and when the stream can be had.
pub proof fn views_select_by_every_setting<'a>(
    config: &'a MetricViewConfig,
    instrument: &Instrument,
    r: Option<StreamSettings<'a>>,
    named: bool,
    streamed: Result<StreamSettings<'a>, String>,
)
    requires
        config.wf(),
        call_ensures(MetricViewConfig::apply, (config, instrument), r),
        call_ensures(stream, (config,), streamed),
        config.name_pattern matches Some(pattern) ==> exists|text: &str| #[trigger]
            text@ == pattern@ && call_ensures(wildcard_matches, (text, instrument.name), named),
    ensures
        r is Some <==> {
            &&& config.name_pattern is Some ==> named
            &&& config.meter_name matches Some(name) ==> name@ == instrument.meter_name@
            &&& config.unit matches Some(unit) ==> unit@ == instrument.unit@
            &&& config.kind == 0xFFFF_FFFF || config.kind == code_of(instrument.kind)
            &&& streamed is Ok
        },
        r matches Some(settings) ==> has_stream(*config, settings),
{
}

/// A view that is built has every setting of its builder, which stays as it is.
pub proof fn built_views_have_every_setting(
    errors: &mut ErrorState,
    builder: &mut OtelMetricViewBuilder,
    out: &mut Option<OtelMetricView>,
    r: OtelStatus,
)
    requires
        is_valid(*old(builder)),
        old(builder).config.wf(),
        call_ensures(otel_metric_view_builder_build, (errors, Some(builder), Some(out)), r),
    ensures
        *final(builder) == *old(builder),
        r == OtelStatus::Success <==> (old(builder).config.output_unit matches Some(unit)
            ==> encode_utf8(unit@).len() <= 63 && (forall|i: int|
            0 <= i < encode_utf8(unit@).len() ==> #[trigger] encode_utf8(unit@)[i] < 128)),
        r == OtelStatus::Success || r == OtelStatus::InvalidConfig,
        r != OtelStatus::Success ==> *final(out) is None,
        r == OtelStatus::Success ==> {
            let asked = old(builder).config;
            &&& *final(out) matches Some(view)
            &&& is_valid(view)
            &&& view.config.name_pattern == asked.name_pattern
            &&& view.config.meter_name == asked.meter_name
            &&& view.config.unit == asked.unit
            &&& view.config.kind == asked.kind
            &&& view.config.output_name == asked.output_name
            &&& view.config.output_description == asked.output_description
            &&& view.config.output_unit == asked.output_unit
            &&& view.config.attribute_filter_enabled == asked.attribute_filter_enabled
            &&& view.config.allowed_attributes@ == asked.allowed_attributes@
            &&& view.config.cardinality_limit == asked.cardinality_limit
            &&& same_choice(view.config.aggregation, asked.aggregation)
        },
{
    if let Some(unit) = old(builder).config.output_unit {
        let bytes = encode_utf8(unit@);
        if unit_fault(bytes) is None {
            assert forall|i: int| 0 <= i < bytes.len() implies #[trigger] bytes[i] < 128 by {}
        }
    }
}

/// The two aggregations have the same kind and the same parameters.
pub open spec fn same_choice(a: AggregationConfig, b: AggregationConfig) -> bool {
    match (a, b) {
        (AggregationConfig::Default, AggregationConfig::Default) => true,
        (AggregationConfig::Drop, AggregationConfig::Drop) => true,
        (AggregationConfig::Sum, AggregationConfig::Sum) => true,
        (AggregationConfig::LastValue, AggregationConfig::LastValue) => true,
        (
            AggregationConfig::ExplicitHistogram { boundaries: x, record_min_max: p },
            AggregationConfig::ExplicitHistogram { boundaries: y, record_min_max: q },
        ) => x@ == y@ && p == q,
        (
            AggregationConfig::ExponentialHistogram {
                max_size: x,
                max_scale: s,
                record_min_max: p,
            },
            AggregationConfig::ExponentialHistogram {
                max_size: y,
                max_scale: t,
                record_min_max: q,
            },
        ) => x == y && s == t && p == q,
        _ => false,
    }
}

/// Builders and views are destroyed once, and anything but a live one of its kind is left alone.
pub proof fn views_are_destroyed_once(
    builder: &mut Option<OtelMetricViewBuilder>,
    view: &mut Option<OtelMetricView>,
)
    requires
        call_ensures(otel_metric_view_builder_destroy, (builder,), ()),
        call_ensures(otel_metric_view_destroy, (view,), ()),
    ensures
        *old(builder) matches Some(handle) && is_valid(handle) ==> *final(builder) is None,
        !(*old(builder) matches Some(handle) && is_valid(handle)) ==> *final(builder) == *old(builder),
        *old(view) matches Some(handle) && is_valid(handle) ==> *final(view) is None,
        !(*old(view) matches Some(handle) && is_valid(handle)) ==> *final(view) == *old(view),
{
}

} // verus!
