//! Traversal of a batch of collected metrics by C callbacks.
//!
//! The traversal is planned first: the callbacks in order, each with its arguments, up to the
//! first value that cannot be presented. The plan is then worked off as long as every callback
//! succeeds.

use vstd::prelude::*;

use crate::abi::{AbiError, OtelStatus, OtelStringView};
use crate::error::{clear_last_error, fail, fail_owned, ErrorState};
use crate::handle::caught_panic;
use crate::log_export::InstrumentationScope;
use crate::log_flatten::{Array, Value};
use crate::log_value::ValueTree;
use crate::metric_data::{
    Exemplar, ExponentialPoint, HistogramPoint, Metric, MetricData, NumberKind, NumberPoint,
    OtelMetricNumber, ResourceMetrics, ScopeMetrics, Temporality,
};
use crate::time::SystemTime;

verus! {

pub const OTEL_METRIC_NUMBER_U64: u32 = 0;

pub const OTEL_METRIC_NUMBER_I64: u32 = 1;

pub const OTEL_METRIC_NUMBER_F64: u32 = 2;

pub const OTEL_METRIC_DATA_GAUGE: u32 = 0;

pub const OTEL_METRIC_DATA_SUM: u32 = 1;

pub const OTEL_METRIC_DATA_HISTOGRAM: u32 = 2;

pub const OTEL_METRIC_DATA_EXPONENTIAL_HISTOGRAM: u32 = 3;

pub const OTEL_METRIC_TEMPORALITY_CUMULATIVE: u32 = 1;

pub const OTEL_METRIC_TEMPORALITY_DELTA: u32 = 2;

pub const OTEL_METRIC_TEMPORALITY_LOW_MEMORY: u32 = 3;

pub const OTEL_METRIC_ATTRIBUTE_STRING: u32 = 0;

pub const OTEL_METRIC_ATTRIBUTE_BOOL: u32 = 1;

pub const OTEL_METRIC_ATTRIBUTE_INT64: u32 = 2;

pub const OTEL_METRIC_ATTRIBUTE_DOUBLE: u32 = 3;

pub const OTEL_METRIC_ATTRIBUTE_STRING_ARRAY: u32 = 4;

pub const OTEL_METRIC_ATTRIBUTE_BOOL_ARRAY: u32 = 5;

pub const OTEL_METRIC_ATTRIBUTE_INT64_ARRAY: u32 = 6;

pub const OTEL_METRIC_ATTRIBUTE_DOUBLE_ARRAY: u32 = 7;

/// A scalar attribute value. A double is held by its bit pattern.
#[derive(Clone, Copy, Debug)]
pub enum OtelAttributeValue<'a> {
    Text(OtelStringView<'a>),
    Bool(u32),
    Int64(i64),
    Double(u64),
}

/// An array attribute value. Doubles are held by their bit patterns.
#[derive(Debug)]
pub enum OtelMetricArrayView<'a> {
    Texts(Vec<OtelStringView<'a>>),
    Bools(Vec<u32>),
    Int64s(&'a [i64]),
    Doubles(&'a [u64]),
}

/// An attribute value.
#[derive(Debug)]
pub enum OtelMetricAttributeValue<'a> {
    Scalar(OtelAttributeValue<'a>),
    Array(OtelMetricArrayView<'a>),
}

/// An attribute as it is handed to C.
#[derive(Debug)]
pub struct OtelMetricAttribute<'a> {
    pub key: OtelStringView<'a>,
    pub value_type: u32,
    pub value: OtelMetricAttributeValue<'a>,
}

/// The identity of a metric.
#[derive(Clone, Copy, Debug)]
pub struct OtelMetricMetadata<'a> {
    pub name: OtelStringView<'a>,
    pub description: OtelStringView<'a>,
    pub unit: OtelStringView<'a>,
    pub data_kind: u32,
    pub number_kind: u32,
}

/// The numbers of one point.
#[derive(Clone, Copy, Debug, PartialEq, Eq, Structural)]
pub struct OtelMetricPoint {
    pub point_index: usize,
    pub start_time_unix_nanos: u64,
    pub time_unix_nanos: u64,
    pub temporality: u32,
    pub is_monotonic: u32,
    pub value: OtelMetricNumber,
    pub count: u64,
    pub sum: OtelMetricNumber,
    pub min: OtelMetricNumber,
    pub max: OtelMetricNumber,
    pub has_min: u32,
    pub has_max: u32,
    pub scale: i8,
    pub zero_count: u64,
    /// The bit pattern of a double.
    pub zero_threshold: u64,
    pub positive_bucket_offset: i32,
    pub negative_bucket_offset: i32,
}

/// The numbers of one exemplar.
#[derive(Clone, Copy, Debug)]
pub struct OtelMetricExemplar {
    pub point_index: usize,
    pub exemplar_index: usize,
    pub time_unix_nanos: u64,
    pub value: OtelMetricNumber,
    pub span_id: [u8; 8],
    pub trace_id: [u8; 16],
}

/// The visitor's callbacks, known by their addresses.
#[derive(Clone, Copy, Debug)]
pub struct OtelMetricVisitor {
    pub struct_size: usize,
    pub resource: Option<usize>,
    pub scope: Option<usize>,
    pub metric: Option<usize>,
    pub point: Option<usize>,
    pub exemplar: Option<usize>,
}

/// One callback invocation.
#[derive(Debug)]
pub enum VisitEvent<'a> {
    Resource { attributes: Vec<OtelMetricAttribute<'a>> },
    Scope {
        name: OtelStringView<'a>,
        version: OtelStringView<'a>,
        schema_url: OtelStringView<'a>,
        attributes: Vec<OtelMetricAttribute<'a>>,
    },
    Metric { metadata: OtelMetricMetadata<'a> },
    Point {
        point: OtelMetricPoint,
        attributes: Vec<OtelMetricAttribute<'a>>,
        explicit_bounds: &'a [u64],
        explicit_bucket_counts: &'a [u64],
        positive_bucket_counts: &'a [u64],
        negative_bucket_counts: &'a [u64],
    },
    Exemplar { exemplar: OtelMetricExemplar, attributes: Vec<OtelMetricAttribute<'a>> },
}

/// How a plan ends once every callback succeeded.
#[derive(Clone, Copy, Debug, PartialEq, Eq, Structural)]
pub enum VisitEnd {
    Complete,
    /// A timestamp lies before the Unix epoch.
    PredatesEpoch,
    /// A timestamp does not fit in nanoseconds.
    TimeRange,
    /// An attribute has a kind of value that has no form here.
    UnknownAttribute,
}

/// A planned traversal.
#[derive(Debug)]
pub struct VisitPlan<'a> {
    pub events: Vec<VisitEvent<'a>>,
    pub end: VisitEnd,
}

/// A text as a visitor reads it, or why it cannot.
pub type TextModel = Result<Seq<char>, AbiError>;

/// An attribute as data: key, type code and value.
pub type AttributeModel = (TextModel, u32, ValueTree);

/// A callback invocation as data.
pub enum EventModel {
    Resource(Seq<AttributeModel>),
    Scope(TextModel, TextModel, TextModel, Seq<AttributeModel>),
    Metric(TextModel, TextModel, TextModel, u32, u32),
    Point(OtelMetricPoint, Seq<AttributeModel>, Seq<u64>, Seq<u64>, Seq<u64>, Seq<u64>),
    Exemplar(OtelMetricExemplar, Seq<AttributeModel>),
}

/// The type code of an attribute value.
pub open spec fn type_code(value: Value) -> u32 {
    match value {
        Value::String(_) => OTEL_METRIC_ATTRIBUTE_STRING,
        Value::Bool(_) => OTEL_METRIC_ATTRIBUTE_BOOL,
        Value::I64(_) => OTEL_METRIC_ATTRIBUTE_INT64,
        Value::F64(_) => OTEL_METRIC_ATTRIBUTE_DOUBLE,
        Value::Array(Array::String(_)) => OTEL_METRIC_ATTRIBUTE_STRING_ARRAY,
        Value::Array(Array::Bool(_)) => OTEL_METRIC_ATTRIBUTE_BOOL_ARRAY,
        Value::Array(Array::I64(_)) => OTEL_METRIC_ATTRIBUTE_INT64_ARRAY,
        Value::Array(Array::F64(_)) => OTEL_METRIC_ATTRIBUTE_DOUBLE_ARRAY,
        _ => u32::MAX,
    }
}

/// Whether a value has a form here.
pub open spec fn is_known(value: Value) -> bool {
    value.tree() !is Invalid
}

/// Every attribute has a form here.
pub open spec fn all_known(attributes: Seq<(String, Value)>) -> bool {
    forall|i: int| 0 <= i < attributes.len() ==> is_known((#[trigger] attributes[i]).1)
}

/// The attributes as data.
pub open spec fn attribute_models(attributes: Seq<(String, Value)>) -> Seq<AttributeModel> {
    Seq::new(
        attributes.len(),
        |i: int| (Ok(attributes[i].0@), type_code(attributes[i].1), attributes[i].1.tree()),
    )
}

/// The tree of a text; one that cannot be read has none.
pub open spec fn shown_text(view: OtelStringView) -> ValueTree {
    match view.text() {
        Ok(text) => ValueTree::Str(text),
        Err(_) => ValueTree::Invalid,
    }
}

/// The tree of a truth word, which is zero or one; no other word has one.
pub open spec fn shown_truth(word: u32) -> ValueTree {
    if word <= 1 {
        ValueTree::Boolean(word == 1)
    } else {
        ValueTree::Invalid
    }
}

/// The tree of a converted value.
pub open spec fn shown_value(value: OtelMetricAttributeValue) -> ValueTree {
    match value {
        OtelMetricAttributeValue::Scalar(OtelAttributeValue::Text(v)) => shown_text(v),
        OtelMetricAttributeValue::Scalar(OtelAttributeValue::Bool(v)) => shown_truth(v),
        OtelMetricAttributeValue::Scalar(OtelAttributeValue::Int64(v)) => ValueTree::Int(v),
        OtelMetricAttributeValue::Scalar(OtelAttributeValue::Double(v)) => ValueTree::Double(v),
        OtelMetricAttributeValue::Array(OtelMetricArrayView::Texts(v)) => ValueTree::List(
            Seq::new(v@.len(), |i: int| shown_text(v@[i])),
        ),
        OtelMetricAttributeValue::Array(OtelMetricArrayView::Bools(v)) => ValueTree::List(
            Seq::new(v@.len(), |i: int| shown_truth(v@[i])),
        ),
        OtelMetricAttributeValue::Array(OtelMetricArrayView::Int64s(v)) => ValueTree::List(
            Seq::new(v@.len(), |i: int| ValueTree::Int(v@[i])),
        ),
        OtelMetricAttributeValue::Array(OtelMetricArrayView::Doubles(v)) => ValueTree::List(
            Seq::new(v@.len(), |i: int| ValueTree::Double(v@[i])),
        ),
    }
}

/// A converted attribute as data.
pub open spec fn shown_attribute(attribute: OtelMetricAttribute) -> AttributeModel {
    (attribute.key.text(), attribute.value_type, shown_value(attribute.value))
}

/// Converted attributes as data.
pub open spec fn shown_attributes(attributes: Seq<OtelMetricAttribute>) -> Seq<AttributeModel> {
    Seq::new(attributes.len(), |i: int| shown_attribute(attributes[i]))
}

/// A callback invocation as data.
pub open spec fn shown_event(event: VisitEvent) -> EventModel {
    match event {
        VisitEvent::Resource { attributes } => EventModel::Resource(shown_attributes(attributes@)),
        VisitEvent::Scope { name, version, schema_url, attributes } => EventModel::Scope(
            name.text(),
            version.text(),
            schema_url.text(),
            shown_attributes(attributes@),
        ),
        VisitEvent::Metric { metadata } => EventModel::Metric(
            metadata.name.text(),
            metadata.description.text(),
            metadata.unit.text(),
            metadata.data_kind,
            metadata.number_kind,
        ),
        VisitEvent::Point {
            point,
            attributes,
            explicit_bounds,
            explicit_bucket_counts,
            positive_bucket_counts,
            negative_bucket_counts,
        } => EventModel::Point(
            point,
            shown_attributes(attributes@),
            explicit_bounds@,
            explicit_bucket_counts@,
            positive_bucket_counts@,
            negative_bucket_counts@,
        ),
        VisitEvent::Exemplar { exemplar, attributes } => EventModel::Exemplar(
            exemplar,
            shown_attributes(attributes@),
        ),
    }
}

/// Callback invocations as data.
pub open spec fn shown_events(events: Seq<VisitEvent>) -> Seq<EventModel> {
    Seq::new(events.len(), |i: int| shown_event(events[i]))
}

/// A traversal as data.
pub struct Plan {
    pub events: Seq<EventModel>,
    pub end: VisitEnd,
}

/// A traversal that only ends.
pub open spec fn ends(end: VisitEnd) -> Plan {
    Plan { events: Seq::empty(), end }
}

/// One traversal, and the other where the first one completes.
pub open spec fn followed_by(first: Plan, second: Plan) -> Plan {
    if first.end == VisitEnd::Complete {
        Plan { events: first.events + second.events, end: second.end }
    } else {
        first
    }
}

/// One invocation with these attributes, unless one of them has no form.
pub open spec fn invocation(attributes: Seq<(String, Value)>, event: EventModel) -> Plan {
    if all_known(attributes) {
        Plan { events: seq![event], end: VisitEnd::Complete }
    } else {
        ends(VisitEnd::UnknownAttribute)
    }
}

/// Why a time cannot be presented.
pub open spec fn time_end(time: SystemTime) -> VisitEnd {
    if time.nanos_since_epoch < 0 {
        VisitEnd::PredatesEpoch
    } else if time.nanos_since_epoch > u64::MAX {
        VisitEnd::TimeRange
    } else {
        VisitEnd::Complete
    }
}

/// Why an optional time cannot be presented.
pub open spec fn optional_time_end(time: Option<SystemTime>) -> VisitEnd {
    match time {
        Some(t) => time_end(t),
        None => VisitEnd::Complete,
    }
}

/// The nanoseconds of a time that can be presented; zero where there is none.
pub open spec fn time_nanos(time: Option<SystemTime>) -> u64 {
    match time {
        Some(t) => t.nanos_since_epoch as u64,
        None => 0,
    }
}

/// The code of a temporality.
pub open spec fn temporality_code(value: Temporality) -> u32 {
    match value {
        Temporality::Cumulative => OTEL_METRIC_TEMPORALITY_CUMULATIVE,
        Temporality::Delta => OTEL_METRIC_TEMPORALITY_DELTA,
        Temporality::LowMemory => OTEL_METRIC_TEMPORALITY_LOW_MEMORY,
    }
}

/// The code of a numeric type.
pub open spec fn number_code(kind: NumberKind) -> u32 {
    match kind {
        NumberKind::U64 => OTEL_METRIC_NUMBER_U64,
        NumberKind::I64 => OTEL_METRIC_NUMBER_I64,
        NumberKind::F64 => OTEL_METRIC_NUMBER_F64,
    }
}

/// The number, or zero where there is none.
pub open spec fn or_zero(number: Option<OtelMetricNumber>) -> OtelMetricNumber {
    match number {
        Some(n) => n,
        None => OtelMetricNumber::U64(0),
    }
}

/// One where the number is there, zero where it is not.
pub open spec fn presence(number: Option<OtelMetricNumber>) -> u32 {
    if number is Some {
        1
    } else {
        0
    }
}

/// A point without numbers.
pub open spec fn blank_point(index: usize, start: u64, time: u64) -> OtelMetricPoint {
    OtelMetricPoint {
        point_index: index,
        start_time_unix_nanos: start,
        time_unix_nanos: time,
        temporality: 0,
        is_monotonic: 0,
        value: OtelMetricNumber::U64(0),
        count: 0,
        sum: OtelMetricNumber::U64(0),
        min: OtelMetricNumber::U64(0),
        max: OtelMetricNumber::U64(0),
        has_min: 0,
        has_max: 0,
        scale: 0,
        zero_count: 0,
        zero_threshold: 0,
        positive_bucket_offset: 0,
        negative_bucket_offset: 0,
    }
}

/// The visits of the exemplars from `i` on of one point.
pub open spec fn exemplars_plan(
    visitor: OtelMetricVisitor,
    point_index: usize,
    exemplars: Seq<Exemplar>,
    i: int,
) -> Plan
    decreases exemplars.len() - i,
{
    if visitor.exemplar is None || i >= exemplars.len() {
        ends(VisitEnd::Complete)
    } else {
        let e = exemplars[i];
        followed_by(
            ends(time_end(e.time)),
            followed_by(
                invocation(
                    e.filtered_attributes@,
                    EventModel::Exemplar(
                        OtelMetricExemplar {
                            point_index,
                            exemplar_index: i as usize,
                            time_unix_nanos: time_nanos(Some(e.time)),
                            value: e.value,
                            span_id: e.span_id,
                            trace_id: e.trace_id,
                        },
                        attribute_models(e.filtered_attributes@),
                    ),
                ),
                exemplars_plan(visitor, point_index, exemplars, i + 1),
            ),
        )
    }
}

/// The visit of one point: its times, the point itself, its exemplars.
pub open spec fn point_plan(
    visitor: OtelMetricVisitor,
    start: Option<SystemTime>,
    time: SystemTime,
    point: OtelMetricPoint,
    attributes: Seq<(String, Value)>,
    bounds: Seq<u64>,
    counts: Seq<u64>,
    positive: Seq<u64>,
    negative: Seq<u64>,
    exemplars: Seq<Exemplar>,
) -> Plan {
    followed_by(
        ends(optional_time_end(start)),
        followed_by(
            ends(time_end(time)),
            followed_by(
                if visitor.point is Some {
                    invocation(
                        attributes,
                        EventModel::Point(
                            point,
                            attribute_models(attributes),
                            bounds,
                            counts,
                            positive,
                            negative,
                        ),
                    )
                } else {
                    ends(VisitEnd::Complete)
                },
                exemplars_plan(visitor, point.point_index, exemplars, 0),
            ),
        ),
    )
}

/// The numbers of a gauge or sum point.
pub open spec fn number_summary(
    index: usize,
    start: Option<SystemTime>,
    time: SystemTime,
    temporality: u32,
    is_monotonic: bool,
    point: NumberPoint,
) -> OtelMetricPoint {
    OtelMetricPoint {
        temporality,
        is_monotonic: if is_monotonic {
            1
        } else {
            0
        },
        value: point.value,
        ..blank_point(index, time_nanos(start), time_nanos(Some(time)))
    }
}

/// The visits of the points from `i` on of a gauge or a sum.
pub open spec fn numbers_plan(
    visitor: OtelMetricVisitor,
    start: Option<SystemTime>,
    time: SystemTime,
    temporality: u32,
    is_monotonic: bool,
    points: Seq<NumberPoint>,
    i: int,
) -> Plan
    decreases points.len() - i,
{
    if i >= points.len() {
        ends(VisitEnd::Complete)
    } else {
        followed_by(
            point_plan(
                visitor,
                start,
                time,
                number_summary(i as usize, start, time, temporality, is_monotonic, points[i]),
                points[i].attributes@,
                Seq::empty(),
                Seq::empty(),
                Seq::empty(),
                Seq::empty(),
                points[i].exemplars@,
            ),
            numbers_plan(visitor, start, time, temporality, is_monotonic, points, i + 1),
        )
    }
}

/// The numbers of a histogram point.
pub open spec fn histogram_summary(
    index: usize,
    start: SystemTime,
    time: SystemTime,
    temporality: Temporality,
    point: HistogramPoint,
) -> OtelMetricPoint {
    OtelMetricPoint {
        temporality: temporality_code(temporality),
        count: point.count,
        sum: point.sum,
        min: or_zero(point.min),
        max: or_zero(point.max),
        has_min: presence(point.min),
        has_max: presence(point.max),
        ..blank_point(index, time_nanos(Some(start)), time_nanos(Some(time)))
    }
}

/// The visits of the points from `i` on of a histogram.
pub open spec fn histogram_plan(
    visitor: OtelMetricVisitor,
    start: SystemTime,
    time: SystemTime,
    temporality: Temporality,
    points: Seq<HistogramPoint>,
    i: int,
) -> Plan
    decreases points.len() - i,
{
    if i >= points.len() {
        ends(VisitEnd::Complete)
    } else {
        followed_by(
            point_plan(
                visitor,
                Some(start),
                time,
                histogram_summary(i as usize, start, time, temporality, points[i]),
                points[i].attributes@,
                points[i].bounds@,
                points[i].bucket_counts@,
                Seq::empty(),
                Seq::empty(),
                points[i].exemplars@,
            ),
            histogram_plan(visitor, start, time, temporality, points, i + 1),
        )
    }
}

/// The numbers of an exponential histogram point.
pub open spec fn exponential_summary(
    index: usize,
    start: SystemTime,
    time: SystemTime,
    temporality: Temporality,
    point: ExponentialPoint,
) -> OtelMetricPoint {
    OtelMetricPoint {
        temporality: temporality_code(temporality),
        count: point.count as u64,
        sum: point.sum,
        min: or_zero(point.min),
        max: or_zero(point.max),
        has_min: presence(point.min),
        has_max: presence(point.max),
        scale: point.scale,
        zero_count: point.zero_count,
        zero_threshold: point.zero_threshold,
        positive_bucket_offset: point.positive.offset,
        negative_bucket_offset: point.negative.offset,
        ..blank_point(index, time_nanos(Some(start)), time_nanos(Some(time)))
    }
}

/// The visits of the points from `i` on of an exponential histogram.
pub open spec fn exponential_plan(
    visitor: OtelMetricVisitor,
    start: SystemTime,
    time: SystemTime,
    temporality: Temporality,
    points: Seq<ExponentialPoint>,
    i: int,
) -> Plan
    decreases points.len() - i,
{
    if i >= points.len() {
        ends(VisitEnd::Complete)
    } else {
        followed_by(
            point_plan(
                visitor,
                Some(start),
                time,
                exponential_summary(i as usize, start, time, temporality, points[i]),
                points[i].attributes@,
                Seq::empty(),
                Seq::empty(),
                points[i].positive.counts@,
                points[i].negative.counts@,
                points[i].exemplars@,
            ),
            exponential_plan(visitor, start, time, temporality, points, i + 1),
        )
    }
}

/// The code of a metric's data.
pub open spec fn data_code(data: MetricData) -> u32 {
    match data {
        MetricData::Gauge { .. } => OTEL_METRIC_DATA_GAUGE,
        MetricData::Sum { .. } => OTEL_METRIC_DATA_SUM,
        MetricData::Histogram { .. } => OTEL_METRIC_DATA_HISTOGRAM,
        MetricData::ExponentialHistogram { .. } => OTEL_METRIC_DATA_EXPONENTIAL_HISTOGRAM,
    }
}

/// The announcement of one metric.
pub open spec fn announcement(
    visitor: OtelMetricVisitor,
    metric: Metric,
    data_kind: u32,
    number_kind: u32,
) -> Plan {
    if visitor.metric is Some {
        Plan {
            events: seq![
                EventModel::Metric(
                    Ok(metric.name@),
                    Ok(metric.description@),
                    Ok(metric.unit@),
                    data_kind,
                    number_kind,
                ),
            ],
            end: VisitEnd::Complete,
        }
    } else {
        ends(VisitEnd::Complete)
    }
}

/// The visits of the points of one metric.
pub open spec fn data_plan(visitor: OtelMetricVisitor, data: MetricData) -> Plan {
    match data {
        MetricData::Gauge { start_time, time, points } => numbers_plan(
            visitor,
            start_time,
            time,
            0,
            false,
            points@,
            0,
        ),
        MetricData::Sum { start_time, time, temporality, is_monotonic, points } => numbers_plan(
            visitor,
            Some(start_time),
            time,
            temporality_code(temporality),
            is_monotonic,
            points@,
            0,
        ),
        MetricData::Histogram { start_time, time, temporality, points } => histogram_plan(
            visitor,
            start_time,
            time,
            temporality,
            points@,
            0,
        ),
        MetricData::ExponentialHistogram {
            start_time,
            time,
            temporality,
            points,
        } => exponential_plan(visitor, start_time, time, temporality, points@, 0),
    }
}

/// The visits of one metric: its announcement and its points.
pub open spec fn metric_plan(visitor: OtelMetricVisitor, metric: Metric) -> Plan {
    followed_by(
        announcement(visitor, metric, data_code(metric.data), number_code(metric.number)),
        data_plan(visitor, metric.data),
    )
}

/// The visits of the metrics from `i` on of one scope.
pub open spec fn metrics_plan(visitor: OtelMetricVisitor, metrics: Seq<Metric>, i: int) -> Plan
    decreases metrics.len() - i,
{
    if i >= metrics.len() {
        ends(VisitEnd::Complete)
    } else {
        followed_by(
            metric_plan(visitor, metrics[i]),
            metrics_plan(visitor, metrics, i + 1),
        )
    }
}

/// The text, or nothing where there is none.
pub open spec fn or_empty(text: Option<String>) -> TextModel {
    match text {
        Some(t) => Ok(t@),
        None => Ok(Seq::empty()),
    }
}

/// The visit of a scope itself.
pub open spec fn scope_plan(visitor: OtelMetricVisitor, scope: InstrumentationScope) -> Plan {
    if visitor.scope is Some {
        invocation(
            scope.attributes@,
            EventModel::Scope(
                Ok(scope.name@),
                or_empty(scope.version),
                or_empty(scope.schema_url),
                attribute_models(scope.attributes@),
            ),
        )
    } else {
        ends(VisitEnd::Complete)
    }
}

/// The visits of the scopes from `i` on.
pub open spec fn scopes_plan(visitor: OtelMetricVisitor, scopes: Seq<ScopeMetrics>, i: int) -> Plan
    decreases scopes.len() - i,
{
    if i >= scopes.len() {
        ends(VisitEnd::Complete)
    } else {
        followed_by(
            followed_by(
                scope_plan(visitor, scopes[i].scope),
                metrics_plan(visitor, scopes[i].metrics@, 0),
            ),
            scopes_plan(visitor, scopes, i + 1),
        )
    }
}

/// The visits of a whole batch.
pub open spec fn batch_plan(visitor: OtelMetricVisitor, metrics: ResourceMetrics) -> Plan {
    followed_by(
        if visitor.resource is Some {
            invocation(
                metrics.resource@,
                EventModel::Resource(attribute_models(metrics.resource@)),
            )
        } else {
            ends(VisitEnd::Complete)
        },
        scopes_plan(visitor, metrics.scope_metrics@, 0),
    )
}

/// The traversal that follows the events already planned.
pub open spec fn continued(events: Seq<VisitEvent>, plan: Plan) -> Plan {
    Plan { events: shown_events(events) + plan.events, end: plan.end }
}

/// What is planned when planning stopped with this result.
pub open spec fn planned(events: Seq<VisitEvent>, r: Result<(), VisitEnd>) -> Plan {
    Plan {
        events: shown_events(events),
        end: match r {
            Ok(_) => VisitEnd::Complete,
            Err(end) => end,
        },
    }
}

/// After a first part that completed, planning goes on with the second part; after one that did
/// not, planning is over.
proof fn lemma_continue(
    before: Seq<VisitEvent>,
    after: Seq<VisitEvent>,
    r: Result<(), VisitEnd>,
    first: Plan,
    second: Plan,
)
    requires
        continued(before, first) == planned(after, r),
        r matches Err(end) ==> end != VisitEnd::Complete,
    ensures
        r is Ok ==> continued(before, followed_by(first, second)) == continued(after, second),
        r is Err ==> continued(before, followed_by(first, second)) == planned(after, r),
{
    if r is Ok {
        assert(shown_events(before) + (first.events + second.events) =~= (shown_events(before)
            + first.events) + second.events);
        assert(followed_by(first, second).events == first.events + second.events);
    }
}

/// Completing adds nothing.
proof fn lemma_complete(events: Seq<VisitEvent>)
    ensures
        continued(events, ends(VisitEnd::Complete)) == planned(events, Ok(())),
{
    assert(shown_events(events) + Seq::<EventModel>::empty() =~= shown_events(events));
}

/// Ending adds nothing.
proof fn lemma_end(events: Seq<VisitEvent>, end: VisitEnd)
    ensures
        continued(events, ends(end)) == planned(events, Err(end)),
{
    assert(shown_events(events) + Seq::<EventModel>::empty() =~= shown_events(events));
}

proof fn lemma_push(before: Seq<VisitEvent>, event: VisitEvent)
    ensures
        shown_events(before.push(event)) == shown_events(before) + seq![shown_event(event)],
{
    assert(shown_events(before.push(event)) =~= shown_events(before) + seq![shown_event(event)]);
}

/// Converts one attribute, unless its value has no form.
pub fn convert_attribute_parts<'a>(key: &'a str, value: &'a Value) -> (r: Option<
    OtelMetricAttribute<'a>,
>)
    ensures
        r is Some <==> is_known(*value),
        r matches Some(attribute) ==> {
            &&& attribute.key.text() == Ok::<Seq<char>, AbiError>(key@)
            &&& attribute.value_type == type_code(*value)
            &&& shown_value(attribute.value) == value.tree()
        },
{
    let (value_type, converted) = match value {
        Value::String(v) => (
            OTEL_METRIC_ATTRIBUTE_STRING,
            OtelMetricAttributeValue::Scalar(
                OtelAttributeValue::Text(OtelStringView::of(v.as_str())),
            ),
        ),
        Value::Bool(v) => (
            OTEL_METRIC_ATTRIBUTE_BOOL,
            OtelMetricAttributeValue::Scalar(OtelAttributeValue::Bool(bool_word(*v))),
        ),
        Value::I64(v) => (
            OTEL_METRIC_ATTRIBUTE_INT64,
            OtelMetricAttributeValue::Scalar(OtelAttributeValue::Int64(*v)),
        ),
        Value::F64(v) => (
            OTEL_METRIC_ATTRIBUTE_DOUBLE,
            OtelMetricAttributeValue::Scalar(OtelAttributeValue::Double(*v)),
        ),
        Value::Array(Array::String(v)) => (
            OTEL_METRIC_ATTRIBUTE_STRING_ARRAY,
            OtelMetricAttributeValue::Array(text_array(v)),
        ),
        Value::Array(Array::Bool(v)) => (
            OTEL_METRIC_ATTRIBUTE_BOOL_ARRAY,
            OtelMetricAttributeValue::Array(bool_array(v)),
        ),
        Value::Array(Array::I64(v)) => (
            OTEL_METRIC_ATTRIBUTE_INT64_ARRAY,
            OtelMetricAttributeValue::Array(OtelMetricArrayView::Int64s(v.as_slice())),
        ),
        Value::Array(Array::F64(v)) => (
            OTEL_METRIC_ATTRIBUTE_DOUBLE_ARRAY,
            OtelMetricAttributeValue::Array(OtelMetricArrayView::Doubles(v.as_slice())),
        ),
        Value::Array(Array::Unknown) => return None,
        Value::Unknown => return None,
    };
    proof {
        if value.tree() is List {
            assert(shown_value(converted)->List_0 =~= value.tree()->List_0);
        }
    }
    Some(OtelMetricAttribute { key: OtelStringView::of(key), value_type, value: converted })
}

fn bool_word(value: bool) -> (r: u32)
    ensures
        r == (if value {
            1u32
        } else {
            0u32
        }),
{
    if value {
        1
    } else {
        0
    }
}

fn bool_array<'a>(values: &Vec<bool>) -> (r: OtelMetricArrayView<'a>)
    ensures
        r matches OtelMetricArrayView::Bools(words) && words@.len() == values@.len() && forall|i: int|
            0 <= i < values@.len() ==> #[trigger] words@[i] == (if values@[i] {
                1u32
            } else {
                0u32
            }),
{
    let mut words: Vec<u32> = Vec::new();
    let mut i: usize = 0;
    while i < values.len()
        invariant
            i <= values@.len(),
            words@.len() == i,
            forall|j: int|
                0 <= j < i ==> #[trigger] words@[j] == (if values@[j] {
                    1u32
                } else {
                    0u32
                }),
        decreases values@.len() - i,
    {
        words.push(bool_word(values[i]));
        i += 1;
    }
    OtelMetricArrayView::Bools(words)
}

fn text_array<'a>(values: &'a Vec<String>) -> (r: OtelMetricArrayView<'a>)
    ensures
        r matches OtelMetricArrayView::Texts(views) && views@.len() == values@.len() && forall|i: int|
            0 <= i < values@.len() ==> (#[trigger] views@[i]).text() == Ok::<Seq<char>, AbiError>(
                values@[i]@,
            ),
{
    let mut views: Vec<OtelStringView<'a>> = Vec::new();
    let mut i: usize = 0;
    while i < values.len()
        invariant
            i <= values@.len(),
            views@.len() == i,
            forall|j: int|
                0 <= j < i ==> (#[trigger] views@[j]).text() == Ok::<Seq<char>, AbiError>(
                    values@[j]@,
                ),
        decreases values@.len() - i,
    {
        views.push(OtelStringView::of(values[i].as_str()));
        i += 1;
    }
    OtelMetricArrayView::Texts(views)
}

/// Converts attributes, unless one of them has no form.
pub fn convert_attributes<'a>(attributes: &'a Vec<(String, Value)>) -> (r: Result<
    Vec<OtelMetricAttribute<'a>>,
    VisitEnd,
>)
    ensures
        r is Ok <==> all_known(attributes@),
        r matches Ok(converted) ==> shown_attributes(converted@) == attribute_models(attributes@),
        r matches Err(end) ==> end == VisitEnd::UnknownAttribute,
{
    let mut converted: Vec<OtelMetricAttribute<'a>> = Vec::new();
    let mut i: usize = 0;
    while i < attributes.len()
        invariant
            i <= attributes@.len(),
            converted@.len() == i,
            forall|j: int| 0 <= j < i ==> is_known((#[trigger] attributes@[j]).1),
            forall|j: int|
                0 <= j < i ==> shown_attribute(#[trigger] converted@[j]) == attribute_models(
                    attributes@,
                )[j],
        decreases attributes@.len() - i,
    {
        match convert_attribute_parts(attributes[i].0.as_str(), &attributes[i].1) {
            Some(attribute) => {
                converted.push(attribute);
            },
            None => {
                assert(!is_known(attributes@[i as int].1));
                return Err(VisitEnd::UnknownAttribute);
            },
        }
        i += 1;
    }
    assert(shown_attributes(converted@) =~= attribute_models(attributes@));
    Ok(converted)
}

/// Nanoseconds since the Unix epoch, unless the time cannot be presented.
pub fn timestamp(value: SystemTime) -> (r: Result<u64, VisitEnd>)
    ensures
        r matches Ok(nanos) ==> time_end(value) == VisitEnd::Complete && nanos == time_nanos(
            Some(value),
        ) && nanos == value.nanos_since_epoch,
        r matches Err(end) ==> time_end(value) == end && end != VisitEnd::Complete,
{
    if value.nanos_since_epoch < 0 {
        return Err(VisitEnd::PredatesEpoch);
    }
    if value.nanos_since_epoch > u64::MAX as i128 {
        return Err(VisitEnd::TimeRange);
    }
    Ok(value.nanos_since_epoch as u64)
}

/// Nanoseconds since the Unix epoch, zero where there is no time.
pub fn optional_timestamp(value: Option<SystemTime>) -> (r: Result<u64, VisitEnd>)
    ensures
        r matches Ok(nanos) ==> optional_time_end(value) == VisitEnd::Complete && nanos
            == time_nanos(value),
        r matches Err(end) ==> optional_time_end(value) == end && end != VisitEnd::Complete,
{
    match value {
        Some(time) => timestamp(time),
        None => Ok(0),
    }
}

/// The code of a temporality.
pub fn temporality(value: Temporality) -> (r: u32)
    ensures
        r == temporality_code(value),
{
    match value {
        Temporality::Cumulative => OTEL_METRIC_TEMPORALITY_CUMULATIVE,
        Temporality::Delta => OTEL_METRIC_TEMPORALITY_DELTA,
        Temporality::LowMemory => OTEL_METRIC_TEMPORALITY_LOW_MEMORY,
    }
}

fn number_or_zero(number: Option<OtelMetricNumber>) -> (r: OtelMetricNumber)
    ensures
        r == or_zero(number),
{
    match number {
        Some(n) => n,
        None => OtelMetricNumber::U64(0),
    }
}

fn presence_word(number: Option<OtelMetricNumber>) -> (r: u32)
    ensures
        r == presence(number),
{
    match number {
        Some(_) => 1,
        None => 0,
    }
}

fn number_word(kind: NumberKind) -> (r: u32)
    ensures
        r == number_code(kind),
{
    match kind {
        NumberKind::U64 => OTEL_METRIC_NUMBER_U64,
        NumberKind::I64 => OTEL_METRIC_NUMBER_I64,
        NumberKind::F64 => OTEL_METRIC_NUMBER_F64,
    }
}

fn text_or_empty<'a>(text: &'a Option<String>) -> (r: OtelStringView<'a>)
    ensures
        r.text() == or_empty(*text),
{
    match text {
        Some(t) => OtelStringView::of(t.as_str()),
        None => OtelStringView::empty(),
    }
}

fn empty_point(index: usize, start: u64, time: u64) -> (r: OtelMetricPoint)
    ensures
        r == blank_point(index, start, time),
{
    OtelMetricPoint {
        point_index: index,
        start_time_unix_nanos: start,
        time_unix_nanos: time,
        temporality: 0,
        is_monotonic: 0,
        value: OtelMetricNumber::U64(0),
        count: 0,
        sum: OtelMetricNumber::U64(0),
        min: OtelMetricNumber::U64(0),
        max: OtelMetricNumber::U64(0),
        has_min: 0,
        has_max: 0,
        scale: 0,
        zero_count: 0,
        zero_threshold: 0,
        positive_bucket_offset: 0,
        negative_bucket_offset: 0,
    }
}

/// The times of a point, the start first.
fn visit_times(start: Option<SystemTime>, time: SystemTime) -> (r: Result<(u64, u64), VisitEnd>)
    ensures
        match r {
            Ok((start_nanos, nanos)) => {
                &&& optional_time_end(start) == VisitEnd::Complete
                &&& time_end(time) == VisitEnd::Complete
                &&& start_nanos == time_nanos(start)
                &&& nanos == time_nanos(Some(time))
            },
            Err(end) => {
                &&& end != VisitEnd::Complete
                &&& end == (if optional_time_end(start) != VisitEnd::Complete {
                    optional_time_end(start)
                } else {
                    time_end(time)
                })
            },
        },
{
    let start_nanos: u64 = optional_timestamp(start)?;
    let nanos: u64 = timestamp(time)?;
    Ok((start_nanos, nanos))
}

/// A traversal being planned.
pub struct Visitor<'a> {
    pub callbacks: OtelMetricVisitor,
    pub events: Vec<VisitEvent<'a>>,
}

impl<'a> Visitor<'a> {
    /// Checks the status of a callback.
    pub fn check(errors: &mut ErrorState, status: OtelStatus, operation: &str) -> (r: Result<
        (),
        OtelStatus,
    >)
        ensures
            status == OtelStatus::Success ==> r is Ok && *final(errors) == *old(errors),
            status != OtelStatus::Success ==> r == Err::<(), OtelStatus>(status) && final(errors).holds(
                status,
                "custom metric visitor "@ + operation@ + " callback failed"@,
            ),
    {
        if status == OtelStatus::Success {
            return Ok(());
        }
        let mut message = "custom metric visitor ".to_owned();
        message.append(operation);
        message.append(" callback failed");
        Err(fail_owned(errors, status, message))
    }

    /// Plans the visits of the exemplars of one point.
    pub fn visit_exemplars(&mut self, point_index: usize, exemplars: &'a Vec<Exemplar>) -> (r: Result<
        (),
        VisitEnd,
    >)
        ensures
            final(self).callbacks == old(self).callbacks,
            continued(
                old(self).events@,
                exemplars_plan(old(self).callbacks, point_index, exemplars@, 0),
            ) == planned(final(self).events@, r),
            r matches Err(end) ==> end != VisitEnd::Complete,
    {
        proof {
            lemma_complete(self.events@);
        }
        if self.callbacks.exemplar.is_none() {
            return Ok(());
        }
        let ghost whole = continued(
            self.events@,
            exemplars_plan(self.callbacks, point_index, exemplars@, 0),
        );
        let mut i: usize = 0;
        while i < exemplars.len()
            invariant
                i <= exemplars@.len(),
                self.callbacks == old(self).callbacks,
                self.callbacks.exemplar is Some,
                whole == continued(
                    old(self).events@,
                    exemplars_plan(old(self).callbacks, point_index, exemplars@, 0),
                ),
                whole == continued(
                    self.events@,
                    exemplars_plan(self.callbacks, point_index, exemplars@, i as int),
                ),
            decreases exemplars@.len() - i,
        {
            let ghost before = self.events@;
            let exemplar = &exemplars[i];
            let ghost summary = OtelMetricExemplar {
                point_index,
                exemplar_index: i,
                time_unix_nanos: time_nanos(Some(exemplar.time)),
                value: exemplar.value,
                span_id: exemplar.span_id,
                trace_id: exemplar.trace_id,
            };
            let ghost event = EventModel::Exemplar(
                summary,
                attribute_models(exemplar.filtered_attributes@),
            );
            let ghost call = invocation(exemplar.filtered_attributes@, event);
            let ghost rest = exemplars_plan(self.callbacks, point_index, exemplars@, i + 1);
            proof {
                lemma_complete(before);
                lemma_end(before, time_end(exemplar.time));
                lemma_end(before, VisitEnd::UnknownAttribute);
            }
            let nanos: u64 = match timestamp(exemplar.time) {
                Ok(nanos) => nanos,
                Err(end) => {
                    proof {
                        lemma_continue(
                            before,
                            before,
                            Err(end),
                            ends(end),
                            followed_by(call, rest),
                        );
                    }
                    return Err(end);
                },
            };
            proof {
                lemma_continue(
                    before,
                    before,
                    Ok(()),
                    ends(VisitEnd::Complete),
                    followed_by(call, rest),
                );
            }
            let attributes = match convert_attributes(&exemplar.filtered_attributes) {
                Ok(attributes) => attributes,
                Err(end) => {
                    proof {
                        lemma_continue(before, before, Err(end), call, rest);
                    }
                    return Err(end);
                },
            };
            let event = VisitEvent::Exemplar {
                exemplar: OtelMetricExemplar {
                    point_index,
                    exemplar_index: i,
                    time_unix_nanos: nanos,
                    value: exemplar.value,
                    span_id: exemplar.span_id,
                    trace_id: exemplar.trace_id,
                },
                attributes,
            };
            proof {
                lemma_push(before, event);
            }
            self.events.push(event);
            proof {
                lemma_continue(before, self.events@, Ok(()), call, rest);
            }
            i += 1;
        }
        proof {
            lemma_complete(self.events@);
        }
        Ok(())
    }

    /// Plans the visit of one point.
    fn visit_point(
        &mut self,
        start: Option<SystemTime>,
        time: SystemTime,
        point: OtelMetricPoint,
        attributes: &'a Vec<(String, Value)>,
        bounds: &'a [u64],
        counts: &'a [u64],
        positive: &'a [u64],
        negative: &'a [u64],
        exemplars: &'a Vec<Exemplar>,
    ) -> (r: Result<(), VisitEnd>)
        requires
            optional_time_end(start) == VisitEnd::Complete,
            time_end(time) == VisitEnd::Complete,
        ensures
            final(self).callbacks == old(self).callbacks,
            continued(
                old(self).events@,
                point_plan(
                    old(self).callbacks,
                    start,
                    time,
                    point,
                    attributes@,
                    bounds@,
                    counts@,
                    positive@,
                    negative@,
                    exemplars@,
                ),
            ) == planned(final(self).events@, r),
            r matches Err(end) ==> end != VisitEnd::Complete,
    {
        let ghost before = self.events@;
        let ghost model = EventModel::Point(
            point,
            attribute_models(attributes@),
            bounds@,
            counts@,
            positive@,
            negative@,
        );
        let ghost call = if self.callbacks.point is Some {
            invocation(attributes@, model)
        } else {
            ends(VisitEnd::Complete)
        };
        let ghost rest = exemplars_plan(self.callbacks, point.point_index, exemplars@, 0);
        proof {
            lemma_complete(before);
            lemma_end(before, VisitEnd::UnknownAttribute);
            let tail = followed_by(call, rest);
            lemma_continue(
                before,
                before,
                Ok(()),
                ends(VisitEnd::Complete),
                followed_by(ends(VisitEnd::Complete), tail),
            );
            lemma_continue(before, before, Ok(()), ends(VisitEnd::Complete), tail);
        }
        if self.callbacks.point.is_some() {
            let converted = match convert_attributes(attributes) {
                Ok(converted) => converted,
                Err(end) => {
                    proof {
                        lemma_continue(before, before, Err(end), call, rest);
                    }
                    return Err(end);
                },
            };
            let event = VisitEvent::Point {
                point,
                attributes: converted,
                explicit_bounds: bounds,
                explicit_bucket_counts: counts,
                positive_bucket_counts: positive,
                negative_bucket_counts: negative,
            };
            proof {
                lemma_push(before, event);
            }
            self.events.push(event);
        }
        proof {
            lemma_continue(before, self.events@, Ok(()), call, rest);
        }
        self.visit_exemplars(point.point_index, exemplars)
    }

    /// Plans the visits of the points of a gauge.
    pub fn visit_gauge(
        &mut self,
        start_time: Option<SystemTime>,
        time: SystemTime,
        points: &'a Vec<NumberPoint>,
    ) -> (r: Result<(), VisitEnd>)
        ensures
            final(self).callbacks == old(self).callbacks,
            continued(
                old(self).events@,
                numbers_plan(old(self).callbacks, start_time, time, 0, false, points@, 0),
            ) == planned(final(self).events@, r),
            r matches Err(end) ==> end != VisitEnd::Complete,
    {
        self.visit_numbers(start_time, time, 0, false, points)
    }

    /// Plans the visits of the points of a sum.
    pub fn visit_sum(
        &mut self,
        start_time: SystemTime,
        time: SystemTime,
        temporality: Temporality,
        is_monotonic: bool,
        points: &'a Vec<NumberPoint>,
    ) -> (r: Result<(), VisitEnd>)
        ensures
            final(self).callbacks == old(self).callbacks,
            continued(
                old(self).events@,
                numbers_plan(
                    old(self).callbacks,
                    Some(start_time),
                    time,
                    temporality_code(temporality),
                    is_monotonic,
                    points@,
                    0,
                ),
            ) == planned(final(self).events@, r),
            r matches Err(end) ==> end != VisitEnd::Complete,
    {
        self.visit_numbers(
            Some(start_time),
            time,
            self::temporality(temporality),
            is_monotonic,
            points,
        )
    }

    /// Plans the visits of the points of a gauge or a sum.
    fn visit_numbers(
        &mut self,
        start_time: Option<SystemTime>,
        time: SystemTime,
        temporality: u32,
        is_monotonic: bool,
        points: &'a Vec<NumberPoint>,
    ) -> (r: Result<(), VisitEnd>)
        ensures
            final(self).callbacks == old(self).callbacks,
            continued(
                old(self).events@,
                numbers_plan(old(self).callbacks, start_time, time, temporality, is_monotonic, points@, 0),
            ) == planned(final(self).events@, r),
            r matches Err(end) ==> end != VisitEnd::Complete,
    {
        let ghost whole = continued(
            self.events@,
            numbers_plan(self.callbacks, start_time, time, temporality, is_monotonic, points@, 0),
        );
        let mut i: usize = 0;
        while i < points.len()
            invariant
                i <= points@.len(),
                self.callbacks == old(self).callbacks,
                whole == continued(
                    old(self).events@,
                    numbers_plan(old(self).callbacks, start_time, time, temporality, is_monotonic, points@, 0),
                ),
                whole == continued(
                    self.events@,
                    numbers_plan(self.callbacks, start_time, time, temporality, is_monotonic, points@, i as int),
                ),
            decreases points@.len() - i,
        {
            let ghost before = self.events@;
            let point = &points[i];
            let ghost rest = numbers_plan(
                self.callbacks,
                start_time,
                time,
                temporality,
                is_monotonic,
                points@,
                i + 1,
            );
            let ghost this = point_plan(
                self.callbacks,
                start_time,
                time,
                number_summary(i, start_time, time, temporality, is_monotonic, *point),
                point.attributes@,
                Seq::empty(),
                Seq::empty(),
                Seq::empty(),
                Seq::empty(),
                point.exemplars@,
            );
            let (start_nanos, time_nanos) = match visit_times(start_time, time) {
                Ok(times) => times,
                Err(end) => {
                    proof {
                        lemma_end(before, end);
                        lemma_continue(before, before, Err(end), this, rest);
                    }
                    return Err(end);
                },
            };
            let none: &'a [u64] = &[];
            assert(none@ =~= Seq::<u64>::empty());
            let r = self.visit_point(
                start_time,
                time,
                OtelMetricPoint {
                    temporality,
                    is_monotonic: bool_word(is_monotonic),
                    value: point.value,
                    ..empty_point(i, start_nanos, time_nanos)
                },
                &point.attributes,
                none,
                none,
                none,
                none,
                &point.exemplars,
            );
            proof {
                lemma_continue(before, self.events@, r, this, rest);
            }
            match r {
                Ok(_) => {},
                Err(end) => return Err(end),
            }
            i += 1;
        }
        proof {
            lemma_complete(self.events@);
        }
        Ok(())
    }

    /// Plans the visits of the points of a histogram.
    pub fn visit_histogram(
        &mut self,
        start_time: SystemTime,
        time: SystemTime,
        temporality: Temporality,
        points: &'a Vec<HistogramPoint>,
    ) -> (r: Result<(), VisitEnd>)
        ensures
            final(self).callbacks == old(self).callbacks,
            continued(
                old(self).events@,
                histogram_plan(old(self).callbacks, start_time, time, temporality, points@, 0),
            ) == planned(final(self).events@, r),
            r matches Err(end) ==> end != VisitEnd::Complete,
    {
        let ghost whole = continued(
            self.events@,
            histogram_plan(self.callbacks, start_time, time, temporality, points@, 0),
        );
        let mut i: usize = 0;
        while i < points.len()
            invariant
                i <= points@.len(),
                self.callbacks == old(self).callbacks,
                whole == continued(
                    old(self).events@,
                    histogram_plan(old(self).callbacks, start_time, time, temporality, points@, 0),
                ),
                whole == continued(
                    self.events@,
                    histogram_plan(self.callbacks, start_time, time, temporality, points@, i as int),
                ),
            decreases points@.len() - i,
        {
            let ghost before = self.events@;
            let point = &points[i];
            let ghost rest = histogram_plan(self.callbacks, start_time, time, temporality, points@, i + 1);
            let ghost this = point_plan(
                self.callbacks,
                Some(start_time),
                time,
                histogram_summary(i, start_time, time, temporality, *point),
                point.attributes@,
                point.bounds@,
                point.bucket_counts@,
                Seq::empty(),
                Seq::empty(),
                point.exemplars@,
            );
            let (start_nanos, time_nanos) = match visit_times(Some(start_time), time) {
                Ok(times) => times,
                Err(end) => {
                    proof {
                        lemma_end(before, end);
                        lemma_continue(before, before, Err(end), this, rest);
                    }
                    return Err(end);
                },
            };
            let none: &'a [u64] = &[];
            assert(none@ =~= Seq::<u64>::empty());
            let r = self.visit_point(
                Some(start_time),
                time,
                OtelMetricPoint {
                    temporality: self::temporality(temporality),
                    count: point.count,
                    sum: point.sum,
                    min: number_or_zero(point.min),
                    max: number_or_zero(point.max),
                    has_min: presence_word(point.min),
                    has_max: presence_word(point.max),
                    ..empty_point(i, start_nanos, time_nanos)
                },
                &point.attributes,
                point.bounds.as_slice(),
                point.bucket_counts.as_slice(),
                none,
                none,
                &point.exemplars,
            );
            proof {
                lemma_continue(before, self.events@, r, this, rest);
            }
            match r {
                Ok(_) => {},
                Err(end) => return Err(end),
            }
            i += 1;
        }
        proof {
            lemma_complete(self.events@);
        }
        Ok(())
    }

    /// Plans the visits of the points of an exponential histogram.
    pub fn visit_exponential_histogram(
        &mut self,
        start_time: SystemTime,
        time: SystemTime,
        temporality: Temporality,
        points: &'a Vec<ExponentialPoint>,
    ) -> (r: Result<(), VisitEnd>)
        ensures
            final(self).callbacks == old(self).callbacks,
            continued(
                old(self).events@,
                exponential_plan(old(self).callbacks, start_time, time, temporality, points@, 0),
            ) == planned(final(self).events@, r),
            r matches Err(end) ==> end != VisitEnd::Complete,
    {
        let ghost whole = continued(
            self.events@,
            exponential_plan(self.callbacks, start_time, time, temporality, points@, 0),
        );
        let mut i: usize = 0;
        while i < points.len()
            invariant
                i <= points@.len(),
                self.callbacks == old(self).callbacks,
                whole == continued(
                    old(self).events@,
                    exponential_plan(old(self).callbacks, start_time, time, temporality, points@, 0),
                ),
                whole == continued(
                    self.events@,
                    exponential_plan(self.callbacks, start_time, time, temporality, points@, i as int),
                ),
            decreases points@.len() - i,
        {
            let ghost before = self.events@;
            let point = &points[i];
            let ghost rest = exponential_plan(self.callbacks, start_time, time, temporality, points@, i + 1);
            let ghost this = point_plan(
                self.callbacks,
                Some(start_time),
                time,
                exponential_summary(i, start_time, time, temporality, *point),
                point.attributes@,
                Seq::empty(),
                Seq::empty(),
                point.positive.counts@,
                point.negative.counts@,
                point.exemplars@,
            );
            let (start_nanos, time_nanos) = match visit_times(Some(start_time), time) {
                Ok(times) => times,
                Err(end) => {
                    proof {
                        lemma_end(before, end);
                        lemma_continue(before, before, Err(end), this, rest);
                    }
                    return Err(end);
                },
            };
            let none: &'a [u64] = &[];
            assert(none@ =~= Seq::<u64>::empty());
            let r = self.visit_point(
                Some(start_time),
                time,
                OtelMetricPoint {
                    temporality: self::temporality(temporality),
                    count: point.count as u64,
                    sum: point.sum,
                    min: number_or_zero(point.min),
                    max: number_or_zero(point.max),
                    has_min: presence_word(point.min),
                    has_max: presence_word(point.max),
                    scale: point.scale,
                    zero_count: point.zero_count,
                    zero_threshold: point.zero_threshold,
                    positive_bucket_offset: point.positive.offset,
                    negative_bucket_offset: point.negative.offset,
                    ..empty_point(i, start_nanos, time_nanos)
                },
                &point.attributes,
                none,
                none,
                point.positive.counts.as_slice(),
                point.negative.counts.as_slice(),
                &point.exemplars,
            );
            proof {
                lemma_continue(before, self.events@, r, this, rest);
            }
            match r {
                Ok(_) => {},
                Err(end) => return Err(end),
            }
            i += 1;
        }
        proof {
            lemma_complete(self.events@);
        }
        Ok(())
    }

    /// Plans the announcement of a metric.
    pub fn announce_metric(&mut self, metric: &'a Metric, data_kind: u32, number_kind: u32)
        ensures
            final(self).callbacks == old(self).callbacks,
            continued(
                old(self).events@,
                announcement(old(self).callbacks, *metric, data_kind, number_kind),
            ) == planned(final(self).events@, Ok(())),
    {
        proof {
            lemma_complete(self.events@);
        }
        if self.callbacks.metric.is_some() {
            let event = VisitEvent::Metric {
                metadata: OtelMetricMetadata {
                    name: OtelStringView::of(metric.name.as_str()),
                    description: OtelStringView::of(metric.description.as_str()),
                    unit: OtelStringView::of(metric.unit.as_str()),
                    data_kind,
                    number_kind,
                },
            };
            proof {
                lemma_push(self.events@, event);
            }
            self.events.push(event);
        }
    }

    /// Plans the visits of one metric: its announcement and its points.
    pub fn visit_metric(&mut self, metric: &'a Metric) -> (r: Result<(), VisitEnd>)
        ensures
            final(self).callbacks == old(self).callbacks,
            continued(old(self).events@, metric_plan(old(self).callbacks, *metric)) == planned(
                final(self).events@,
                r,
            ),
            r matches Err(end) ==> end != VisitEnd::Complete,
    {
        let ghost before = self.events@;
        let number_kind: u32 = number_word(metric.number);
        let data_kind: u32 = match &metric.data {
            MetricData::Gauge { .. } => OTEL_METRIC_DATA_GAUGE,
            MetricData::Sum { .. } => OTEL_METRIC_DATA_SUM,
            MetricData::Histogram { .. } => OTEL_METRIC_DATA_HISTOGRAM,
            MetricData::ExponentialHistogram { .. } => OTEL_METRIC_DATA_EXPONENTIAL_HISTOGRAM,
        };
        self.announce_metric(metric, data_kind, number_kind);
        proof {
            lemma_continue(
                before,
                self.events@,
                Ok(()),
                announcement(self.callbacks, *metric, data_kind, number_kind),
                data_plan(self.callbacks, metric.data),
            );
        }
        match &metric.data {
            MetricData::Gauge { start_time, time, points } => self.visit_gauge(
                *start_time,
                *time,
                points,
            ),
            MetricData::Sum { start_time, time, temporality, is_monotonic, points } => {
                self.visit_sum(*start_time, *time, *temporality, *is_monotonic, points)
            },
            MetricData::Histogram { start_time, time, temporality, points } => {
                self.visit_histogram(*start_time, *time, *temporality, points)
            },
            MetricData::ExponentialHistogram { start_time, time, temporality, points } => {
                self.visit_exponential_histogram(*start_time, *time, *temporality, points)
            },
        }
    }

    /// Plans the visits of the metrics of one scope.
    fn visit_metrics(&mut self, metrics: &'a Vec<Metric>) -> (r: Result<(), VisitEnd>)
        ensures
            final(self).callbacks == old(self).callbacks,
            continued(old(self).events@, metrics_plan(old(self).callbacks, metrics@, 0)) == planned(
                final(self).events@,
                r,
            ),
            r matches Err(end) ==> end != VisitEnd::Complete,
    {
        let ghost whole = continued(self.events@, metrics_plan(self.callbacks, metrics@, 0));
        let mut i: usize = 0;
        while i < metrics.len()
            invariant
                i <= metrics@.len(),
                self.callbacks == old(self).callbacks,
                whole == continued(
                    old(self).events@,
                    metrics_plan(old(self).callbacks, metrics@, 0),
                ),
                whole == continued(
                    self.events@,
                    metrics_plan(self.callbacks, metrics@, i as int),
                ),
            decreases metrics@.len() - i,
        {
            let ghost before = self.events@;
            let metric = &metrics[i];
            let r = self.visit_metric(metric);
            proof {
                lemma_continue(
                    before,
                    self.events@,
                    r,
                    metric_plan(self.callbacks, *metric),
                    metrics_plan(self.callbacks, metrics@, i + 1),
                );
            }
            match r {
                Ok(_) => {},
                Err(end) => return Err(end),
            }
            i += 1;
        }
        proof {
            lemma_complete(self.events@);
        }
        Ok(())
    }

    /// Plans the visit of a scope itself.
    fn visit_scope(&mut self, scope: &'a InstrumentationScope) -> (r: Result<(), VisitEnd>)
        ensures
            final(self).callbacks == old(self).callbacks,
            continued(old(self).events@, scope_plan(old(self).callbacks, *scope)) == planned(
                final(self).events@,
                r,
            ),
            r matches Err(end) ==> end != VisitEnd::Complete,
    {
        proof {
            lemma_complete(self.events@);
            lemma_end(self.events@, VisitEnd::UnknownAttribute);
        }
        if self.callbacks.scope.is_none() {
            return Ok(());
        }
        let attributes = convert_attributes(&scope.attributes)?;
        let event = VisitEvent::Scope {
            name: OtelStringView::of(scope.name.as_str()),
            version: text_or_empty(&scope.version),
            schema_url: text_or_empty(&scope.schema_url),
            attributes,
        };
        proof {
            lemma_push(self.events@, event);
        }
        self.events.push(event);
        Ok(())
    }

    /// Plans the visits of the scopes with their metrics.
    fn visit_scopes(&mut self, scopes: &'a Vec<ScopeMetrics>) -> (r: Result<(), VisitEnd>)
        ensures
            final(self).callbacks == old(self).callbacks,
            continued(old(self).events@, scopes_plan(old(self).callbacks, scopes@, 0)) == planned(
                final(self).events@,
                r,
            ),
            r matches Err(end) ==> end != VisitEnd::Complete,
    {
        let ghost whole = continued(self.events@, scopes_plan(self.callbacks, scopes@, 0));
        let mut i: usize = 0;
        while i < scopes.len()
            invariant
                i <= scopes@.len(),
                self.callbacks == old(self).callbacks,
                whole == continued(
                    old(self).events@,
                    scopes_plan(old(self).callbacks, scopes@, 0),
                ),
                whole == continued(self.events@, scopes_plan(self.callbacks, scopes@, i as int)),
            decreases scopes@.len() - i,
        {
            let ghost before = self.events@;
            let scope = &scopes[i];
            let ghost head = scope_plan(self.callbacks, scope.scope);
            let ghost body = metrics_plan(self.callbacks, scope.metrics@, 0);
            let ghost rest = scopes_plan(self.callbacks, scopes@, i + 1);
            let announced = self.visit_scope(&scope.scope);
            proof {
                lemma_continue(before, self.events@, announced, head, body);
            }
            let r = match announced {
                Ok(_) => self.visit_metrics(&scope.metrics),
                Err(end) => Err(end),
            };
            proof {
                lemma_continue(before, self.events@, r, followed_by(head, body), rest);
            }
            match r {
                Ok(_) => {},
                Err(end) => return Err(end),
            }
            i += 1;
        }
        proof {
            lemma_complete(self.events@);
        }
        Ok(())
    }

    /// Plans the visits of a whole batch.
    fn visit_batch(&mut self, metrics: &'a ResourceMetrics) -> (r: Result<(), VisitEnd>)
        ensures
            final(self).callbacks == old(self).callbacks,
            continued(old(self).events@, batch_plan(old(self).callbacks, *metrics)) == planned(
                final(self).events@,
                r,
            ),
            r matches Err(end) ==> end != VisitEnd::Complete,
    {
        let ghost before = self.events@;
        let ghost model = EventModel::Resource(attribute_models(metrics.resource@));
        let ghost head = if self.callbacks.resource is Some {
            invocation(metrics.resource@, model)
        } else {
            ends(VisitEnd::Complete)
        };
        let ghost rest = scopes_plan(self.callbacks, metrics.scope_metrics@, 0);
        proof {
            lemma_complete(before);
            lemma_end(before, VisitEnd::UnknownAttribute);
        }
        if self.callbacks.resource.is_some() {
            let attributes = match convert_attributes(&metrics.resource) {
                Ok(attributes) => attributes,
                Err(end) => {
                    proof {
                        lemma_continue(before, before, Err(end), head, rest);
                    }
                    return Err(end);
                },
            };
            let event = VisitEvent::Resource { attributes };
            proof {
                lemma_push(before, event);
            }
            self.events.push(event);
        }
        proof {
            lemma_continue(before, self.events@, Ok(()), head, rest);
        }
        self.visit_scopes(&metrics.scope_metrics)
    }
}

/// The operation that an event belongs to.
pub open spec fn operation_of(event: EventModel) -> Seq<char> {
    match event {
        EventModel::Resource(_) => "resource"@,
        EventModel::Scope(_, _, _, _) => "scope"@,
        EventModel::Metric(_, _, _, _, _) => "metric"@,
        EventModel::Point(_, _, _, _, _, _) => "point"@,
        EventModel::Exemplar(_, _) => "exemplar"@,
    }
}

fn operation_name(event: &VisitEvent) -> (r: &'static str)
    ensures
        r@ == operation_of(shown_event(*event)),
{
    match event {
        VisitEvent::Resource { .. } => "resource",
        VisitEvent::Scope { .. } => "scope",
        VisitEvent::Metric { .. } => "metric",
        VisitEvent::Point { .. } => "point",
        VisitEvent::Exemplar { .. } => "exemplar",
    }
}

/// Why a visit is refused before it starts, if it is: the batch is not active, the visitor is
/// missing or its structure is smaller than `visitor_size`.
pub open spec fn visit_refusal(
    active: bool,
    visitor: Option<OtelMetricVisitor>,
    visitor_size: usize,
) -> Option<(OtelStatus, Seq<char>)> {
    if !active {
        Some(
            (
                OtelStatus::InvalidArgument,
                "metric batch is not active for this exporter callback thread"@,
            ),
        )
    } else {
        match visitor {
            None => Some((OtelStatus::InvalidArgument, "metric visitor must not be NULL"@)),
            Some(v) => if v.struct_size < visitor_size {
                Some(
                    (
                        OtelStatus::InvalidConfig,
                        "metric visitor structure is smaller than the required ABI size"@,
                    ),
                )
            } else {
                None
            },
        }
    }
}

/// Starts the visit of a batch, `None` where its token stands for none: plans the whole
/// traversal, of which no callback has run yet. `visitor_size` is the size of the visitor structure
/// on this platform.
pub fn otel_metric_batch_visit<'a>(
    errors: &mut ErrorState,
    metrics: Option<&'a ResourceMetrics>,
    visitor: Option<&OtelMetricVisitor>,
    visitor_size: usize,
) -> (r: Result<VisitPlan<'a>, OtelStatus>)
    ensures
        match visit_refusal(
            metrics is Some,
            match visitor {
                Some(v) => Some(*v),
                None => None,
            },
            visitor_size,
        ) {
            Some((status, message)) => r == Err::<VisitPlan<'a>, OtelStatus>(status) && final(errors).holds(
                status,
                message,
            ),
            None => {
                &&& final(errors).is_clear()
                &&& r matches Ok(plan)
                &&& shown_events(plan.events@) == batch_plan(*visitor->0, *metrics->0).events
                &&& plan.end == batch_plan(*visitor->0, *metrics->0).end
            },
        },
{
    clear_last_error(errors);
    let metrics = match metrics {
        Some(metrics) => metrics,
        None => return Err(
            fail(
                errors,
                OtelStatus::InvalidArgument,
                "metric batch is not active for this exporter callback thread",
            ),
        ),
    };
    let visitor = match visitor {
        Some(visitor) => *visitor,
        None => return Err(
            fail(errors, OtelStatus::InvalidArgument, "metric visitor must not be NULL"),
        ),
    };
    if visitor.struct_size < visitor_size {
        return Err(
            fail(
                errors,
                OtelStatus::InvalidConfig,
                "metric visitor structure is smaller than the required ABI size",
            ),
        );
    }
    let mut planner = Visitor { callbacks: visitor, events: Vec::new() };
    let end = match planner.visit_batch(metrics) {
        Ok(_) => VisitEnd::Complete,
        Err(end) => end,
    };
    proof {
        let plan = batch_plan(visitor, *metrics);
        assert(shown_events(Seq::<VisitEvent>::empty()) + plan.events =~= plan.events);
    }
    Ok(VisitPlan { events: planner.events, end })
}

/// What a traversal does next.
pub enum VisitStep {
    /// The planned event with this index is to be handed to its callback.
    Invoke(usize),
    /// The traversal is over.
    Done(OtelStatus),
}

/// The end of a traversal whose callbacks all succeeded: its status and what it leaves in the
/// error slot.
pub open spec fn concludes(
    end: VisitEnd,
    status: OtelStatus,
    before: ErrorState,
    after: ErrorState,
) -> bool {
    match end {
        VisitEnd::Complete => status == OtelStatus::Success && after == before,
        VisitEnd::PredatesEpoch => status == OtelStatus::InternalError && after.holds(
            OtelStatus::InternalError,
            "metric timestamp predates Unix epoch"@,
        ),
        VisitEnd::TimeRange => status == OtelStatus::InternalError && after.holds(
            OtelStatus::InternalError,
            "metric timestamp exceeds the C nanosecond range"@,
        ),
        VisitEnd::UnknownAttribute => status == OtelStatus::InternalError && after.holds(
            before.last_status,
            "caught panic at FFI boundary"@,
        ),
    }
}

/// A traversal of `len` events goes on after the first `done` of them, the last of which returned
/// `status`.
pub open spec fn goes_on(len: nat, done: int, status: OtelStatus) -> bool {
    done < len && (done > 0 ==> status == OtelStatus::Success)
}

impl<'a> VisitPlan<'a> {
    /// Decides what follows the first `done` events, the last of which returned `status`. A
    /// traversal that starts has none done, and the status is not looked at.
    pub fn next(&self, errors: &mut ErrorState, done: usize, status: OtelStatus) -> (r: VisitStep)
        requires
            done <= self.events@.len(),
        ensures
            if goes_on(self.events@.len(), done as int, status) {
                r == VisitStep::Invoke(done) && *final(errors) == *old(errors)
            } else if done > 0 && status != OtelStatus::Success {
                &&& r == VisitStep::Done(status)
                &&& final(errors).holds(
                    status,
                    "custom metric visitor "@ + operation_of(shown_event(self.events@[done - 1]))
                        + " callback failed"@,
                )
            } else {
                r matches VisitStep::Done(end) && concludes(
                    self.end,
                    end,
                    *old(errors),
                    *final(errors),
                )
            },
    {
        if done > 0 {
            let operation = operation_name(&self.events[done - 1]);
            if let Err(failed) = Visitor::check(errors, status, operation) {
                return VisitStep::Done(failed);
            }
        }
        if done < self.events.len() {
            return VisitStep::Invoke(done);
        }
        VisitStep::Done(
            match self.end {
                VisitEnd::Complete => OtelStatus::Success,
                VisitEnd::PredatesEpoch => fail(
                    errors,
                    OtelStatus::InternalError,
                    "metric timestamp predates Unix epoch",
                ),
                VisitEnd::TimeRange => fail(
                    errors,
                    OtelStatus::InternalError,
                    "metric timestamp exceeds the C nanosecond range",
                ),
                VisitEnd::UnknownAttribute => caught_panic(errors),
            },
        )
    }
}

/// How many callbacks of a traversal run when `done` have run and the callback of event `i`
/// returns `statuses[i]`.
pub open spec fn callbacks_run(statuses: Seq<OtelStatus>, done: int) -> int
    decreases statuses.len() - done,
{
    if goes_on(statuses.len(), done, statuses[done - 1]) {
        callbacks_run(statuses, done + 1)
    } else {
        done
    }
}

/// A traversal stops at the first callback that fails: every callback before the last one that
/// ran succeeded, and where one was left out the last one that ran failed.
pub proof fn traversal_stops_at_first_failure(statuses: Seq<OtelStatus>)
    ensures
        0 <= callbacks_run(statuses, 0) <= statuses.len(),
        forall|i: int|
            0 <= i < callbacks_run(statuses, 0) - 1 ==> #[trigger] statuses[i]
                == OtelStatus::Success,
        callbacks_run(statuses, 0) < statuses.len() ==> callbacks_run(statuses, 0) > 0
            && statuses[callbacks_run(statuses, 0) - 1] != OtelStatus::Success,
{
    lemma_callbacks_run(statuses, 0);
}

proof fn lemma_callbacks_run(statuses: Seq<OtelStatus>, done: int)
    requires
        0 <= done <= statuses.len(),
    ensures
        done <= callbacks_run(statuses, done) <= statuses.len(),
        forall|i: int|
            0 <= done - 1 <= i < callbacks_run(statuses, done) - 1 ==> #[trigger] statuses[i]
                == OtelStatus::Success,
        forall|i: int|
            done <= i < callbacks_run(statuses, done) - 1 ==> #[trigger] statuses[i]
                == OtelStatus::Success,
        callbacks_run(statuses, done) < statuses.len() ==> callbacks_run(statuses, done) > 0
            && statuses[callbacks_run(statuses, done) - 1] != OtelStatus::Success,
    decreases statuses.len() - done,
{
    if goes_on(statuses.len(), done, statuses[done - 1]) {
        lemma_callbacks_run(statuses, done + 1);
    }
}

} // verus!
