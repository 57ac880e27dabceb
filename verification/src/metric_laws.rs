//! What a traversal of collected metrics shows: every event stands where the order of the batch
//! puts it, and its fields are those of what was collected.

use vstd::prelude::*;

use crate::abi::{OtelStatus, OtelStringView};
use crate::error::ErrorState;
use crate::log_export::InstrumentationScope;
use crate::log_flatten::{Array, Value};
use crate::log_value::ValueTree;
use crate::metric_data::{
    Exemplar, Metric, MetricData, NumberKind, OtelMetricNumber, ResourceMetrics, ScopeMetrics,
    Temporality,
};
use crate::metric_visit::{
    announcement, attribute_models, batch_plan, data_code, data_plan, ends, exemplars_plan,
    exponential_plan, exponential_summary, followed_by, histogram_plan, histogram_summary,
    invocation, is_known, metric_plan, metrics_plan, number_code, number_summary, numbers_plan,
    optional_timestamp, or_empty, otel_metric_batch_visit, point_plan, scope_plan, scopes_plan, shown_attributes,
    shown_event, shown_events, shown_text, shown_truth, shown_value, temporality, temporality_code, time_nanos, timestamp,
    type_code, EventModel, OtelAttributeValue,
    OtelMetricArrayView, OtelMetricAttribute, OtelMetricAttributeValue, OtelMetricExemplar,
    OtelMetricPoint, OtelMetricVisitor, Plan, VisitEnd, VisitEvent, VisitPlan, VisitStep,
};
use crate::time::SystemTime;

verus! {

/// The view reads as this text.
pub open spec fn reads(view: OtelStringView, text: Seq<char>) -> bool {
    view.text() matches Ok(t) && t == text
}

/// The view reads as this text, or as no text where there is none.
pub open spec fn reads_optional(view: OtelStringView, text: Option<String>) -> bool {
    match text {
        Some(t) => reads(view, t@),
        None => reads(view, Seq::empty()),
    }
}

/// The word is the truth value: one or zero.
pub open spec fn word_is(word: u32, truth: bool) -> bool {
    word == (if truth {
        1u32
    } else {
        0u32
    })
}

/// The attribute shows this value under the type code of its kind.
pub open spec fn shows_value(attribute: OtelMetricAttribute, value: Value) -> bool {
    match value {
        Value::String(text) => {
            &&& attribute.value_type == 0
            &&& attribute.value matches OtelMetricAttributeValue::Scalar(
                OtelAttributeValue::Text(view),
            )
            &&& reads(view, text@)
        },
        Value::Bool(truth) => {
            &&& attribute.value_type == 1
            &&& attribute.value matches OtelMetricAttributeValue::Scalar(
                OtelAttributeValue::Bool(word),
            )
            &&& word_is(word, truth)
        },
        Value::I64(number) => {
            &&& attribute.value_type == 2
            &&& attribute.value == OtelMetricAttributeValue::Scalar(
                OtelAttributeValue::Int64(number),
            )
        },
        Value::F64(bits) => {
            &&& attribute.value_type == 3
            &&& attribute.value == OtelMetricAttributeValue::Scalar(OtelAttributeValue::Double(bits))
        },
        Value::Array(Array::String(texts)) => {
            &&& attribute.value_type == 4
            &&& texts@.len() > 0 ==> {
                &&& attribute.value matches OtelMetricAttributeValue::Array(
                    OtelMetricArrayView::Texts(views),
                )
                &&& views@.len() == texts@.len()
                &&& forall|i: int| 0 <= i < texts@.len() ==> reads(#[trigger] views@[i], texts@[i]@)
            }
        },
        Value::Array(Array::Bool(truths)) => {
            &&& attribute.value_type == 5
            &&& truths@.len() > 0 ==> {
                &&& attribute.value matches OtelMetricAttributeValue::Array(
                    OtelMetricArrayView::Bools(words),
                )
                &&& words@.len() == truths@.len()
                &&& forall|i: int|
                    0 <= i < truths@.len() ==> word_is(#[trigger] words@[i], truths@[i])
            }
        },
        Value::Array(Array::I64(numbers)) => {
            &&& attribute.value_type == 6
            &&& numbers@.len() > 0 ==> {
                &&& attribute.value matches OtelMetricAttributeValue::Array(
                    OtelMetricArrayView::Int64s(shown),
                )
                &&& shown@ == numbers@
            }
        },
        Value::Array(Array::F64(bits)) => {
            &&& attribute.value_type == 7
            &&& bits@.len() > 0 ==> {
                &&& attribute.value matches OtelMetricAttributeValue::Array(
                    OtelMetricArrayView::Doubles(shown),
                )
                &&& shown@ == bits@
            }
        },
        _ => false,
    }
}

/// The attributes are shown one for one, in their order, under their keys.
pub open spec fn shows_attributes(
    shown: Seq<OtelMetricAttribute>,
    attributes: Seq<(String, Value)>,
) -> bool {
    &&& shown.len() == attributes.len()
    &&& forall|i: int|
        0 <= i < attributes.len() ==> reads((#[trigger] shown[i]).key, attributes[i].0@)
            && shows_value(shown[i], attributes[i].1)
}

/// A value of a kind that can be shown.
pub open spec fn showable(value: Value) -> bool {
    !(value is Unknown) && value != Value::Array(Array::Unknown)
}

/// Every attribute has a value of a kind that can be shown.
pub open spec fn all_showable(attributes: Seq<(String, Value)>) -> bool {
    forall|i: int| 0 <= i < attributes.len() ==> showable((#[trigger] attributes[i]).1)
}

/// A time that a count of nanoseconds since the Unix epoch can hold.
pub open spec fn countable(time: SystemTime) -> bool {
    0 <= time.nanos_since_epoch <= u64::MAX
}

/// The number of points of a metric.
pub open spec fn point_count(data: MetricData) -> nat {
    match data {
        MetricData::Gauge { points, .. } => points@.len(),
        MetricData::Sum { points, .. } => points@.len(),
        MetricData::Histogram { points, .. } => points@.len(),
        MetricData::ExponentialHistogram { points, .. } => points@.len(),
    }
}

/// The exemplars of a point.
pub open spec fn exemplars_of(data: MetricData, p: int) -> Seq<Exemplar> {
    match data {
        MetricData::Gauge { points, .. } => points@[p].exemplars@,
        MetricData::Sum { points, .. } => points@[p].exemplars@,
        MetricData::Histogram { points, .. } => points@[p].exemplars@,
        MetricData::ExponentialHistogram { points, .. } => points@[p].exemplars@,
    }
}

/// The attributes of a point.
pub open spec fn attributes_of(data: MetricData, p: int) -> Seq<(String, Value)> {
    match data {
        MetricData::Gauge { points, .. } => points@[p].attributes@,
        MetricData::Sum { points, .. } => points@[p].attributes@,
        MetricData::Histogram { points, .. } => points@[p].attributes@,
        MetricData::ExponentialHistogram { points, .. } => points@[p].attributes@,
    }
}

/// The times of a metric can be counted.
pub open spec fn times_countable(data: MetricData) -> bool {
    match data {
        MetricData::Gauge { start_time, time, .. } => (start_time matches Some(start) ==> countable(
            start,
        )) && countable(time),
        MetricData::Sum { start_time, time, .. } => countable(start_time) && countable(time),
        MetricData::Histogram { start_time, time, .. } => countable(start_time) && countable(time),
        MetricData::ExponentialHistogram { start_time, time, .. } => countable(start_time)
            && countable(time),
    }
}

/// One where the callback is set.
pub open spec fn once(callback: Option<usize>) -> nat {
    if callback is Some {
        1
    } else {
        0
    }
}

/// How many events a point takes: itself and its exemplars, as far as there are callbacks.
pub open spec fn point_events(visitor: OtelMetricVisitor, data: MetricData, p: int) -> nat {
    once(visitor.point) + (if visitor.exemplar is Some {
        exemplars_of(data, p).len()
    } else {
        0
    })
}

/// How many events the first `p` points of a metric take.
pub open spec fn points_events(visitor: OtelMetricVisitor, data: MetricData, p: int) -> nat
    decreases p,
{
    if p <= 0 {
        0
    } else {
        points_events(visitor, data, p - 1) + point_events(visitor, data, p - 1)
    }
}

/// How many events the first `m` metrics of a scope take.
pub open spec fn metrics_events(visitor: OtelMetricVisitor, metrics: Seq<Metric>, m: int) -> nat
    decreases m,
{
    if m <= 0 {
        0
    } else {
        metrics_events(visitor, metrics, m - 1) + once(visitor.metric) + points_events(
            visitor,
            metrics[m - 1].data,
            point_count(metrics[m - 1].data) as int,
        )
    }
}

/// How many events the first `s` scopes take.
pub open spec fn scopes_events(visitor: OtelMetricVisitor, scopes: Seq<ScopeMetrics>, s: int) -> nat
    decreases s,
{
    if s <= 0 {
        0
    } else {
        scopes_events(visitor, scopes, s - 1) + once(visitor.scope) + metrics_events(
            visitor,
            scopes[s - 1].metrics@,
            scopes[s - 1].metrics@.len() as int,
        )
    }
}

/// How many events a batch takes.
pub open spec fn batch_events(visitor: OtelMetricVisitor, metrics: ResourceMetrics) -> nat {
    once(visitor.resource) + scopes_events(
        visitor,
        metrics.scope_metrics@,
        metrics.scope_metrics@.len() as int,
    )
}

/// Where the events of scope `s` start: after the resource and the scopes before it.
pub open spec fn scope_place(visitor: OtelMetricVisitor, metrics: ResourceMetrics, s: int) -> int {
    (once(visitor.resource) + scopes_events(visitor, metrics.scope_metrics@, s)) as int
}

/// Where the events of metric `m` of scope `s` start: after the scope and its metrics before it.
pub open spec fn metric_place(
    visitor: OtelMetricVisitor,
    metrics: ResourceMetrics,
    s: int,
    m: int,
) -> int {
    scope_place(visitor, metrics, s) + once(visitor.scope) + metrics_events(
        visitor,
        metrics.scope_metrics@[s].metrics@,
        m,
    )
}

/// Where the events of point `p` of that metric start: after the announcement of the metric and
/// the points before it, each with its exemplars.
pub open spec fn point_place(
    visitor: OtelMetricVisitor,
    metrics: ResourceMetrics,
    s: int,
    m: int,
    p: int,
) -> int {
    metric_place(visitor, metrics, s, m) + once(visitor.metric) + points_events(
        visitor,
        metrics.scope_metrics@[s].metrics@[m].data,
        p,
    )
}

/// The code is that of the temporality.
pub open spec fn is_temporality(code: u32, temporality: Temporality) -> bool {
    match temporality {
        Temporality::Cumulative => code == 1,
        Temporality::Delta => code == 2,
        Temporality::LowMemory => code == 3,
    }
}

/// The word says whether there is a number, and the number is that one.
pub open spec fn shows_optional(
    word: u32,
    shown: OtelMetricNumber,
    number: Option<OtelMetricNumber>,
) -> bool {
    match number {
        Some(n) => word == 1 && shown == n,
        None => word == 0,
    }
}

/// The numbers of point `p` are shown.
pub open spec fn shows_numbers(
    point: OtelMetricPoint,
    explicit_bounds: Seq<u64>,
    explicit_bucket_counts: Seq<u64>,
    positive_bucket_counts: Seq<u64>,
    negative_bucket_counts: Seq<u64>,
    data: MetricData,
    p: int,
) -> bool {
    &&& point.point_index == p
    &&& match data {
        MetricData::Gauge { start_time, time, points } => {
            &&& start_time matches Some(start) ==> point.start_time_unix_nanos
                == start.nanos_since_epoch
            &&& start_time is None ==> point.start_time_unix_nanos == 0
            &&& point.time_unix_nanos == time.nanos_since_epoch
            &&& point.temporality == 0
            &&& point.is_monotonic == 0
            &&& point.value == points@[p].value
        },
        MetricData::Sum { start_time, time, temporality, is_monotonic, points } => {
            &&& point.start_time_unix_nanos == start_time.nanos_since_epoch
            &&& point.time_unix_nanos == time.nanos_since_epoch
            &&& is_temporality(point.temporality, temporality)
            &&& word_is(point.is_monotonic, is_monotonic)
            &&& point.value == points@[p].value
        },
        MetricData::Histogram { start_time, time, temporality, points } => {
            &&& point.start_time_unix_nanos == start_time.nanos_since_epoch
            &&& point.time_unix_nanos == time.nanos_since_epoch
            &&& is_temporality(point.temporality, temporality)
            &&& point.count == points@[p].count
            &&& point.sum == points@[p].sum
            &&& shows_optional(point.has_min, point.min, points@[p].min)
            &&& shows_optional(point.has_max, point.max, points@[p].max)
            &&& explicit_bounds == points@[p].bounds@
            &&& explicit_bucket_counts == points@[p].bucket_counts@
        },
        MetricData::ExponentialHistogram { start_time, time, temporality, points } => {
            &&& point.start_time_unix_nanos == start_time.nanos_since_epoch
            &&& point.time_unix_nanos == time.nanos_since_epoch
            &&& is_temporality(point.temporality, temporality)
            &&& point.count == points@[p].count
            &&& point.sum == points@[p].sum
            &&& shows_optional(point.has_min, point.min, points@[p].min)
            &&& shows_optional(point.has_max, point.max, points@[p].max)
            &&& point.scale == points@[p].scale
            &&& point.zero_count == points@[p].zero_count
            &&& point.zero_threshold == points@[p].zero_threshold
            &&& point.positive_bucket_offset == points@[p].positive.offset
            &&& point.negative_bucket_offset == points@[p].negative.offset
            &&& positive_bucket_counts == points@[p].positive.counts@
            &&& negative_bucket_counts == points@[p].negative.counts@
        },
    }
    &&& !(data is Histogram) ==> explicit_bounds.len() == 0 && explicit_bucket_counts.len() == 0
    &&& !(data is ExponentialHistogram) ==> positive_bucket_counts.len() == 0
        && negative_bucket_counts.len() == 0
}

/// The event shows point `p`.
pub open spec fn shows_point(event: VisitEvent, data: MetricData, p: int) -> bool {
    &&& event matches VisitEvent::Point {
        point,
        attributes,
        explicit_bounds,
        explicit_bucket_counts,
        positive_bucket_counts,
        negative_bucket_counts,
    }
    &&& shows_numbers(
        point,
        explicit_bounds@,
        explicit_bucket_counts@,
        positive_bucket_counts@,
        negative_bucket_counts@,
        data,
        p,
    )
    &&& shows_attributes(attributes@, attributes_of(data, p))
}

/// The event shows exemplar `e` of point `p`.
pub open spec fn shows_exemplar(event: VisitEvent, data: MetricData, p: int, e: int) -> bool {
    &&& event matches VisitEvent::Exemplar { exemplar, attributes }
    &&& exemplar.point_index == p
    &&& exemplar.exemplar_index == e
    &&& exemplar.time_unix_nanos == exemplars_of(data, p)[e].time.nanos_since_epoch
    &&& exemplar.value == exemplars_of(data, p)[e].value
    &&& exemplar.span_id == exemplars_of(data, p)[e].span_id
    &&& exemplar.trace_id == exemplars_of(data, p)[e].trace_id
    &&& shows_attributes(attributes@, exemplars_of(data, p)[e].filtered_attributes@)
}

/// The event announces the metric.
pub open spec fn announces(event: VisitEvent, metric: Metric) -> bool {
    &&& event matches VisitEvent::Metric { metadata }
    &&& reads(metadata.name, metric.name@)
    &&& reads(metadata.description, metric.description@)
    &&& reads(metadata.unit, metric.unit@)
    &&& match metric.data {
        MetricData::Gauge { .. } => metadata.data_kind == 0,
        MetricData::Sum { .. } => metadata.data_kind == 1,
        MetricData::Histogram { .. } => metadata.data_kind == 2,
        MetricData::ExponentialHistogram { .. } => metadata.data_kind == 3,
    }
    &&& match metric.number {
        NumberKind::U64 => metadata.number_kind == 0,
        NumberKind::I64 => metadata.number_kind == 1,
        NumberKind::F64 => metadata.number_kind == 2,
    }
}

/// The event shows the scope.
pub open spec fn shows_scope(event: VisitEvent, scope: InstrumentationScope) -> bool {
    &&& event matches VisitEvent::Scope { name, version, schema_url, attributes }
    &&& reads(name, scope.name@)
    &&& reads_optional(version, scope.version)
    &&& reads_optional(schema_url, scope.schema_url)
    &&& shows_attributes(attributes@, scope.attributes@)
}

/// The parts one after the other from `i` on, up to the first that does not complete.
spec fn chain(parts: Seq<Plan>, i: int) -> Plan
    decreases parts.len() - i,
{
    if i >= parts.len() {
        ends(VisitEnd::Complete)
    } else {
        followed_by(parts[i], chain(parts, i + 1))
    }
}

/// The parts one after the other from `i` on.
spec fn flat(parts: Seq<Seq<EventModel>>, i: int) -> Seq<EventModel>
    decreases parts.len() - i,
{
    if i >= parts.len() {
        Seq::empty()
    } else {
        parts[i] + flat(parts, i + 1)
    }
}

/// The length of the first `n` parts together.
spec fn length(parts: Seq<Seq<EventModel>>, n: int) -> nat
    decreases n,
{
    if n <= 0 {
        0
    } else {
        length(parts, n - 1) + parts[n - 1].len()
    }
}

/// The plan shows the beginning of these events, and all of them where it completes.
spec fn fits(plan: Plan, events: Seq<EventModel>) -> bool {
    &&& plan.events.len() <= events.len()
    &&& forall|k: int| 0 <= k < plan.events.len() ==> #[trigger] plan.events[k] == events[k]
    &&& plan.end == VisitEnd::Complete ==> plan.events == events
}

proof fn lemma_followed(a: Plan, b: Plan, x: Seq<EventModel>, y: Seq<EventModel>)
    requires
        fits(a, x),
        fits(b, y),
    ensures
        fits(followed_by(a, b), x + y),
        followed_by(a, b).end == VisitEnd::Complete <==> a.end == VisitEnd::Complete && b.end
            == VisitEnd::Complete,
{
}

proof fn lemma_chain(plans: Seq<Plan>, parts: Seq<Seq<EventModel>>, i: int)
    requires
        0 <= i <= plans.len(),
        plans.len() == parts.len(),
        forall|k: int| 0 <= k < plans.len() ==> fits(#[trigger] plans[k], parts[k]),
    ensures
        fits(chain(plans, i), flat(parts, i)),
        chain(plans, i).end == VisitEnd::Complete <==> forall|k: int|
            i <= k < plans.len() ==> (#[trigger] plans[k]).end == VisitEnd::Complete,
    decreases plans.len() - i,
{
    if i < plans.len() {
        lemma_chain(plans, parts, i + 1);
        lemma_followed(plans[i], chain(plans, i + 1), parts[i], flat(parts, i + 1));
    }
}

proof fn lemma_flat(parts: Seq<Seq<EventModel>>, i: int, n: int)
    requires
        0 <= i <= n <= parts.len(),
    ensures
        length(parts, i) <= length(parts, n),
        flat(parts, i).len() == length(parts, parts.len() as int) - length(parts, i),
        n < parts.len() ==> length(parts, n) - length(parts, i) + parts[n].len() <= flat(
            parts,
            i,
        ).len(),
        n < parts.len() ==> forall|k: int|
            0 <= k < parts[n].len() ==> flat(parts, i)[length(parts, n) - length(parts, i) + k]
                == #[trigger] parts[n][k],
    decreases parts.len() - i,
{
    if i < parts.len() {
        if i < n {
            lemma_flat(parts, i + 1, n);
        } else {
            lemma_flat(parts, i + 1, parts.len() as int);
        }
        assert(length(parts, i + 1) == length(parts, i) + parts[i].len());
    }
}

/// The events of the exemplars of a point.
spec fn exemplar_models(
    visitor: OtelMetricVisitor,
    point_index: usize,
    exemplars: Seq<Exemplar>,
) -> Seq<EventModel> {
    if visitor.exemplar is Some {
        Seq::new(exemplars.len(), |i: int| exemplar_model(point_index, exemplars, i))
    } else {
        Seq::empty()
    }
}

spec fn exemplar_model(point_index: usize, exemplars: Seq<Exemplar>, i: int) -> EventModel {
    EventModel::Exemplar(
        OtelMetricExemplar {
            point_index,
            exemplar_index: i as usize,
            time_unix_nanos: time_nanos(Some(exemplars[i].time)),
            value: exemplars[i].value,
            span_id: exemplars[i].span_id,
            trace_id: exemplars[i].trace_id,
        },
        attribute_models(exemplars[i].filtered_attributes@),
    )
}

/// The exemplar can be shown.
pub open spec fn exemplar_showable(exemplar: Exemplar) -> bool {
    countable(exemplar.time) && all_showable(exemplar.filtered_attributes@)
}

proof fn lemma_known(attributes: Seq<(String, Value)>)
    ensures
        crate::metric_visit::all_known(attributes) == all_showable(attributes),
{
    assert forall|i: int| 0 <= i < attributes.len() implies is_known((#[trigger] attributes[i]).1)
        == showable(attributes[i].1) by {}
    if crate::metric_visit::all_known(attributes) {
        assert forall|i: int| 0 <= i < attributes.len() implies showable(
            (#[trigger] attributes[i]).1,
        ) by {
            assert(is_known(attributes[i].1));
        }
    }
}

proof fn lemma_exemplars(
    visitor: OtelMetricVisitor,
    point_index: usize,
    exemplars: Seq<Exemplar>,
    i: int,
)
    requires
        0 <= i <= exemplars.len(),
        visitor.exemplar is Some,
    ensures
        fits(
            exemplars_plan(visitor, point_index, exemplars, i),
            exemplar_models(visitor, point_index, exemplars).skip(i),
        ),
        exemplars_plan(visitor, point_index, exemplars, i).end == VisitEnd::Complete <==> forall|
            k: int,
        |
            i <= k < exemplars.len() ==> exemplar_showable(#[trigger] exemplars[k]),
    decreases exemplars.len() - i,
{
    let models = exemplar_models(visitor, point_index, exemplars);
    if i < exemplars.len() {
        let e = exemplars[i];
        lemma_exemplars(visitor, point_index, exemplars, i + 1);
        lemma_known(e.filtered_attributes@);
        let call = invocation(
            e.filtered_attributes@,
            exemplar_model(point_index, exemplars, i),
        );
        let rest = exemplars_plan(visitor, point_index, exemplars, i + 1);
        let timed = ends(crate::metric_visit::time_end(e.time));
        assert(models.skip(i) =~= seq![models[i]] + models.skip(i + 1));
        lemma_followed(call, rest, seq![models[i]], models.skip(i + 1));
        lemma_followed(timed, followed_by(call, rest), Seq::empty(), models.skip(i));
        assert(Seq::<EventModel>::empty() + models.skip(i) =~= models.skip(i));
    } else {
        assert(models.skip(i) =~= Seq::empty());
    }
}

/// The point can be shown with the callbacks there are.
pub open spec fn point_showable(visitor: OtelMetricVisitor, data: MetricData, p: int) -> bool {
    &&& times_countable(data)
    &&& visitor.point is Some ==> all_showable(attributes_of(data, p))
    &&& visitor.exemplar is Some ==> forall|e: int|
        0 <= e < exemplars_of(data, p).len() ==> exemplar_showable(
            #[trigger] exemplars_of(data, p)[e],
        )
}

/// The numbers of point `p` as they are planned.
spec fn summary_of(data: MetricData, p: int) -> OtelMetricPoint {
    match data {
        MetricData::Gauge { start_time, time, points } => number_summary(
            p as usize,
            start_time,
            time,
            0,
            false,
            points@[p],
        ),
        MetricData::Sum { start_time, time, temporality, is_monotonic, points } => number_summary(
            p as usize,
            Some(start_time),
            time,
            temporality_code(temporality),
            is_monotonic,
            points@[p],
        ),
        MetricData::Histogram { start_time, time, temporality, points } => histogram_summary(
            p as usize,
            start_time,
            time,
            temporality,
            points@[p],
        ),
        MetricData::ExponentialHistogram {
            start_time,
            time,
            temporality,
            points,
        } => exponential_summary(p as usize, start_time, time, temporality, points@[p]),
    }
}

spec fn start_of(data: MetricData) -> Option<SystemTime> {
    match data {
        MetricData::Gauge { start_time, .. } => start_time,
        MetricData::Sum { start_time, .. } => Some(start_time),
        MetricData::Histogram { start_time, .. } => Some(start_time),
        MetricData::ExponentialHistogram { start_time, .. } => Some(start_time),
    }
}

spec fn time_of(data: MetricData) -> SystemTime {
    match data {
        MetricData::Gauge { time, .. } => time,
        MetricData::Sum { time, .. } => time,
        MetricData::Histogram { time, .. } => time,
        MetricData::ExponentialHistogram { time, .. } => time,
    }
}

spec fn bounds_of(data: MetricData, p: int) -> (Seq<u64>, Seq<u64>, Seq<u64>, Seq<u64>) {
    match data {
        MetricData::Histogram { points, .. } => (
            points@[p].bounds@,
            points@[p].bucket_counts@,
            Seq::empty(),
            Seq::empty(),
        ),
        MetricData::ExponentialHistogram { points, .. } => (
            Seq::empty(),
            Seq::empty(),
            points@[p].positive.counts@,
            points@[p].negative.counts@,
        ),
        _ => (Seq::empty(), Seq::empty(), Seq::empty(), Seq::empty()),
    }
}

/// The visit of point `p`.
spec fn point_part(visitor: OtelMetricVisitor, data: MetricData, p: int) -> Plan {
    let buckets = bounds_of(data, p);
    point_plan(
        visitor,
        start_of(data),
        time_of(data),
        summary_of(data, p),
        attributes_of(data, p),
        buckets.0,
        buckets.1,
        buckets.2,
        buckets.3,
        exemplars_of(data, p),
    )
}

spec fn point_model(data: MetricData, p: int) -> EventModel {
    let buckets = bounds_of(data, p);
    EventModel::Point(
        summary_of(data, p),
        attribute_models(attributes_of(data, p)),
        buckets.0,
        buckets.1,
        buckets.2,
        buckets.3,
    )
}

/// The events of point `p`.
spec fn point_models(visitor: OtelMetricVisitor, data: MetricData, p: int) -> Seq<EventModel> {
    (if visitor.point is Some {
        seq![point_model(data, p)]
    } else {
        Seq::empty()
    }) + exemplar_models(visitor, p as usize, exemplars_of(data, p))
}

spec fn point_parts(visitor: OtelMetricVisitor, data: MetricData) -> Seq<Plan> {
    Seq::new(point_count(data), |p: int| point_part(visitor, data, p))
}

spec fn data_models(visitor: OtelMetricVisitor, data: MetricData) -> Seq<Seq<EventModel>> {
    Seq::new(point_count(data), |p: int| point_models(visitor, data, p))
}

proof fn lemma_point(visitor: OtelMetricVisitor, data: MetricData, p: int)
    requires
        0 <= p < point_count(data),
    ensures
        fits(point_part(visitor, data, p), point_models(visitor, data, p)),
        point_part(visitor, data, p).end == VisitEnd::Complete <==> point_showable(
            visitor,
            data,
            p,
        ),
        point_models(visitor, data, p).len() == point_events(visitor, data, p),
{
    let exemplars = exemplars_of(data, p);
    let shown = exemplar_models(visitor, p as usize, exemplars);
    let own = if visitor.point is Some {
        seq![point_model(data, p)]
    } else {
        Seq::empty()
    };
    let call = if visitor.point is Some {
        invocation(attributes_of(data, p), point_model(data, p))
    } else {
        ends(VisitEnd::Complete)
    };
    let rest = exemplars_plan(visitor, p as usize, exemplars, 0);
    let started = ends(crate::metric_visit::optional_time_end(start_of(data)));
    let timed = ends(crate::metric_visit::time_end(time_of(data)));
    lemma_known(attributes_of(data, p));
    if visitor.exemplar is Some {
        lemma_exemplars(visitor, p as usize, exemplars, 0);
        assert(shown.skip(0) =~= shown);
    }
    let none = Seq::<EventModel>::empty();
    assert(none + (own + shown) =~= own + shown);
    lemma_followed(call, rest, own, shown);
    lemma_followed(timed, followed_by(call, rest), none, own + shown);
    lemma_followed(started, followed_by(timed, followed_by(call, rest)), none, own + shown);
}

proof fn lemma_numbers(
    visitor: OtelMetricVisitor,
    data: MetricData,
    start: Option<SystemTime>,
    time: SystemTime,
    temporality: u32,
    is_monotonic: bool,
    points: Seq<crate::metric_data::NumberPoint>,
    i: int,
)
    requires
        0 <= i <= points.len(),
        match data {
            MetricData::Gauge { start_time, time: t, points: ps } => start == start_time && time == t
                && temporality == 0 && !is_monotonic && points == ps@,
            MetricData::Sum {
                start_time,
                time: t,
                temporality: code,
                is_monotonic: monotonic,
                points: ps,
            } => start == Some(start_time) && time == t && temporality == temporality_code(code)
                && is_monotonic == monotonic && points == ps@,
            _ => false,
        },
    ensures
        numbers_plan(visitor, start, time, temporality, is_monotonic, points, i) == chain(
            point_parts(visitor, data),
            i,
        ),
    decreases points.len() - i,
{
    if i < points.len() {
        lemma_numbers(visitor, data, start, time, temporality, is_monotonic, points, i + 1);
        assert(point_parts(visitor, data)[i] == point_part(visitor, data, i));
    }
}

proof fn lemma_histogram(visitor: OtelMetricVisitor, data: MetricData, i: int)
    requires
        data is Histogram,
        0 <= i <= point_count(data),
    ensures
        data matches MetricData::Histogram { start_time, time, temporality, points }
            ==> histogram_plan(visitor, start_time, time, temporality, points@, i) == chain(
            point_parts(visitor, data),
            i,
        ),
    decreases point_count(data) - i,
{
    if i < point_count(data) {
        lemma_histogram(visitor, data, i + 1);
        assert(point_parts(visitor, data)[i] == point_part(visitor, data, i));
    }
}

proof fn lemma_exponential(visitor: OtelMetricVisitor, data: MetricData, i: int)
    requires
        data is ExponentialHistogram,
        0 <= i <= point_count(data),
    ensures
        data matches MetricData::ExponentialHistogram { start_time, time, temporality, points }
            ==> exponential_plan(visitor, start_time, time, temporality, points@, i) == chain(
            point_parts(visitor, data),
            i,
        ),
    decreases point_count(data) - i,
{
    if i < point_count(data) {
        lemma_exponential(visitor, data, i + 1);
        assert(point_parts(visitor, data)[i] == point_part(visitor, data, i));
    }
}

proof fn lemma_data_length(visitor: OtelMetricVisitor, data: MetricData, p: int)
    requires
        0 <= p <= point_count(data),
    ensures
        length(data_models(visitor, data), p) == points_events(visitor, data, p),
    decreases p,
{
    if p > 0 {
        lemma_data_length(visitor, data, p - 1);
        lemma_point(visitor, data, p - 1);
    }
}

/// All points of the metric can be shown.
pub open spec fn data_showable(visitor: OtelMetricVisitor, data: MetricData) -> bool {
    forall|p: int| 0 <= p < point_count(data) ==> #[trigger] point_showable(visitor, data, p)
}

proof fn lemma_data(visitor: OtelMetricVisitor, data: MetricData)
    ensures
        fits(data_plan(visitor, data), flat(data_models(visitor, data), 0)),
        data_plan(visitor, data).end == VisitEnd::Complete <==> data_showable(visitor, data),
        flat(data_models(visitor, data), 0).len() == points_events(
            visitor,
            data,
            point_count(data) as int,
        ),
{
    let plans = point_parts(visitor, data);
    let models = data_models(visitor, data);
    match data {
        MetricData::Gauge { start_time, time, points } => lemma_numbers(
            visitor,
            data,
            start_time,
            time,
            0,
            false,
            points@,
            0,
        ),
        MetricData::Sum { start_time, time, temporality, is_monotonic, points } => lemma_numbers(
            visitor,
            data,
            Some(start_time),
            time,
            temporality_code(temporality),
            is_monotonic,
            points@,
            0,
        ),
        MetricData::Histogram { .. } => lemma_histogram(visitor, data, 0),
        MetricData::ExponentialHistogram { .. } => lemma_exponential(visitor, data, 0),
    }
    assert forall|k: int| 0 <= k < plans.len() implies fits(#[trigger] plans[k], models[k]) && (
    plans[k].end == VisitEnd::Complete <==> point_showable(visitor, data, k)) by {
        lemma_point(visitor, data, k);
    }
    lemma_chain(plans, models, 0);
    lemma_flat(models, 0, models.len() as int);
    lemma_data_length(visitor, data, models.len() as int);
    if data_plan(visitor, data).end == VisitEnd::Complete {
        assert forall|p: int| 0 <= p < point_count(data) implies #[trigger] point_showable(
            visitor,
            data,
            p,
        ) by {
            assert(plans[p].end == VisitEnd::Complete);
        }
    }
}

spec fn metric_model(metric: Metric) -> EventModel {
    EventModel::Metric(
        Ok(metric.name@),
        Ok(metric.description@),
        Ok(metric.unit@),
        data_code(metric.data),
        number_code(metric.number),
    )
}

/// The events of a metric.
spec fn metric_models(visitor: OtelMetricVisitor, metric: Metric) -> Seq<EventModel> {
    (if visitor.metric is Some {
        seq![metric_model(metric)]
    } else {
        Seq::empty()
    }) + flat(data_models(visitor, metric.data), 0)
}

spec fn metric_parts(visitor: OtelMetricVisitor, metrics: Seq<Metric>) -> Seq<Plan> {
    Seq::new(metrics.len(), |m: int| metric_plan(visitor, metrics[m]))
}

spec fn metrics_models(visitor: OtelMetricVisitor, metrics: Seq<Metric>) -> Seq<Seq<EventModel>> {
    Seq::new(metrics.len(), |m: int| metric_models(visitor, metrics[m]))
}

proof fn lemma_metric(visitor: OtelMetricVisitor, metric: Metric)
    ensures
        fits(metric_plan(visitor, metric), metric_models(visitor, metric)),
        metric_plan(visitor, metric).end == VisitEnd::Complete <==> data_showable(
            visitor,
            metric.data,
        ),
        metric_models(visitor, metric).len() == once(visitor.metric) + points_events(
            visitor,
            metric.data,
            point_count(metric.data) as int,
        ),
{
    lemma_data(visitor, metric.data);
    let own = if visitor.metric is Some {
        seq![metric_model(metric)]
    } else {
        Seq::empty()
    };
    lemma_followed(
        announcement(visitor, metric, data_code(metric.data), number_code(metric.number)),
        data_plan(visitor, metric.data),
        own,
        flat(data_models(visitor, metric.data), 0),
    );
}

proof fn lemma_metrics_chain(visitor: OtelMetricVisitor, metrics: Seq<Metric>, i: int)
    requires
        0 <= i <= metrics.len(),
    ensures
        metrics_plan(visitor, metrics, i) == chain(metric_parts(visitor, metrics), i),
    decreases metrics.len() - i,
{
    if i < metrics.len() {
        lemma_metrics_chain(visitor, metrics, i + 1);
    }
}

proof fn lemma_metrics_length(visitor: OtelMetricVisitor, metrics: Seq<Metric>, m: int)
    requires
        0 <= m <= metrics.len(),
    ensures
        length(metrics_models(visitor, metrics), m) == metrics_events(visitor, metrics, m),
    decreases m,
{
    if m > 0 {
        lemma_metrics_length(visitor, metrics, m - 1);
        lemma_metric(visitor, metrics[m - 1]);
    }
}

/// All points of the metrics can be shown.
pub open spec fn metrics_showable(visitor: OtelMetricVisitor, metrics: Seq<Metric>) -> bool {
    forall|m: int| 0 <= m < metrics.len() ==> data_showable(visitor, (#[trigger] metrics[m]).data)
}

proof fn lemma_metrics(visitor: OtelMetricVisitor, metrics: Seq<Metric>)
    ensures
        fits(metrics_plan(visitor, metrics, 0), flat(metrics_models(visitor, metrics), 0)),
        metrics_plan(visitor, metrics, 0).end == VisitEnd::Complete <==> metrics_showable(
            visitor,
            metrics,
        ),
        flat(metrics_models(visitor, metrics), 0).len() == metrics_events(
            visitor,
            metrics,
            metrics.len() as int,
        ),
{
    let plans = metric_parts(visitor, metrics);
    let models = metrics_models(visitor, metrics);
    lemma_metrics_chain(visitor, metrics, 0);
    assert forall|k: int| 0 <= k < plans.len() implies fits(#[trigger] plans[k], models[k]) && (
    plans[k].end == VisitEnd::Complete <==> data_showable(visitor, metrics[k].data)) by {
        lemma_metric(visitor, metrics[k]);
    }
    lemma_chain(plans, models, 0);
    lemma_flat(models, 0, models.len() as int);
    lemma_metrics_length(visitor, metrics, models.len() as int);
    if metrics_plan(visitor, metrics, 0).end == VisitEnd::Complete {
        assert forall|m: int| 0 <= m < metrics.len() implies data_showable(
            visitor,
            (#[trigger] metrics[m]).data,
        ) by {
            assert(plans[m].end == VisitEnd::Complete);
        }
    }
}

spec fn scope_model(scope: InstrumentationScope) -> EventModel {
    EventModel::Scope(
        Ok(scope.name@),
        or_empty(scope.version),
        or_empty(scope.schema_url),
        attribute_models(scope.attributes@),
    )
}

/// The events of a scope with its metrics.
spec fn scope_models(visitor: OtelMetricVisitor, scope: ScopeMetrics) -> Seq<EventModel> {
    (if visitor.scope is Some {
        seq![scope_model(scope.scope)]
    } else {
        Seq::empty()
    }) + flat(metrics_models(visitor, scope.metrics@), 0)
}

spec fn scope_part(visitor: OtelMetricVisitor, scope: ScopeMetrics) -> Plan {
    followed_by(scope_plan(visitor, scope.scope), metrics_plan(visitor, scope.metrics@, 0))
}

spec fn scope_parts(visitor: OtelMetricVisitor, scopes: Seq<ScopeMetrics>) -> Seq<Plan> {
    Seq::new(scopes.len(), |s: int| scope_part(visitor, scopes[s]))
}

spec fn scopes_models(visitor: OtelMetricVisitor, scopes: Seq<ScopeMetrics>) -> Seq<
    Seq<EventModel>,
> {
    Seq::new(scopes.len(), |s: int| scope_models(visitor, scopes[s]))
}

/// The scope and its metrics can be shown with the callbacks there are.
pub open spec fn scope_showable(visitor: OtelMetricVisitor, scope: ScopeMetrics) -> bool {
    &&& visitor.scope is Some ==> all_showable(scope.scope.attributes@)
    &&& metrics_showable(visitor, scope.metrics@)
}

/// The batch can be shown with the callbacks there are.
pub open spec fn batch_showable(visitor: OtelMetricVisitor, metrics: ResourceMetrics) -> bool {
    &&& visitor.resource is Some ==> all_showable(metrics.resource@)
    &&& forall|s: int|
        0 <= s < metrics.scope_metrics@.len() ==> scope_showable(
            visitor,
            #[trigger] metrics.scope_metrics@[s],
        )
}

proof fn lemma_scope(visitor: OtelMetricVisitor, scope: ScopeMetrics)
    ensures
        fits(scope_part(visitor, scope), scope_models(visitor, scope)),
        scope_part(visitor, scope).end == VisitEnd::Complete <==> scope_showable(visitor, scope),
        scope_models(visitor, scope).len() == once(visitor.scope) + metrics_events(
            visitor,
            scope.metrics@,
            scope.metrics@.len() as int,
        ),
{
    lemma_known(scope.scope.attributes@);
    lemma_metrics(visitor, scope.metrics@);
    let own = if visitor.scope is Some {
        seq![scope_model(scope.scope)]
    } else {
        Seq::empty()
    };
    lemma_followed(
        scope_plan(visitor, scope.scope),
        metrics_plan(visitor, scope.metrics@, 0),
        own,
        flat(metrics_models(visitor, scope.metrics@), 0),
    );
}

proof fn lemma_scopes_chain(visitor: OtelMetricVisitor, scopes: Seq<ScopeMetrics>, i: int)
    requires
        0 <= i <= scopes.len(),
    ensures
        scopes_plan(visitor, scopes, i) == chain(scope_parts(visitor, scopes), i),
    decreases scopes.len() - i,
{
    if i < scopes.len() {
        lemma_scopes_chain(visitor, scopes, i + 1);
    }
}

proof fn lemma_scopes_length(visitor: OtelMetricVisitor, scopes: Seq<ScopeMetrics>, s: int)
    requires
        0 <= s <= scopes.len(),
    ensures
        length(scopes_models(visitor, scopes), s) == scopes_events(visitor, scopes, s),
    decreases s,
{
    if s > 0 {
        lemma_scopes_length(visitor, scopes, s - 1);
        lemma_scope(visitor, scopes[s - 1]);
    }
}

/// The events of a batch.
spec fn batch_models(visitor: OtelMetricVisitor, metrics: ResourceMetrics) -> Seq<EventModel> {
    (if visitor.resource is Some {
        seq![EventModel::Resource(attribute_models(metrics.resource@))]
    } else {
        Seq::empty()
    }) + flat(scopes_models(visitor, metrics.scope_metrics@), 0)
}

proof fn lemma_batch(visitor: OtelMetricVisitor, metrics: ResourceMetrics)
    ensures
        fits(batch_plan(visitor, metrics), batch_models(visitor, metrics)),
        batch_plan(visitor, metrics).end == VisitEnd::Complete <==> batch_showable(
            visitor,
            metrics,
        ),
        batch_models(visitor, metrics).len() == batch_events(visitor, metrics),
{
    let scopes = metrics.scope_metrics@;
    let plans = scope_parts(visitor, scopes);
    let models = scopes_models(visitor, scopes);
    lemma_known(metrics.resource@);
    lemma_scopes_chain(visitor, scopes, 0);
    assert forall|k: int| 0 <= k < plans.len() implies fits(#[trigger] plans[k], models[k]) && (
    plans[k].end == VisitEnd::Complete <==> scope_showable(visitor, scopes[k])) by {
        lemma_scope(visitor, scopes[k]);
    }
    lemma_chain(plans, models, 0);
    lemma_flat(models, 0, models.len() as int);
    lemma_scopes_length(visitor, scopes, models.len() as int);
    if scopes_plan(visitor, scopes, 0).end == VisitEnd::Complete {
        assert forall|s: int| 0 <= s < scopes.len() implies scope_showable(
            visitor,
            #[trigger] scopes[s],
        ) by {
            assert(plans[s].end == VisitEnd::Complete);
        }
    }
    let own = if visitor.resource is Some {
        seq![EventModel::Resource(attribute_models(metrics.resource@))]
    } else {
        Seq::empty()
    };
    let head = if visitor.resource is Some {
        invocation(metrics.resource@, EventModel::Resource(attribute_models(metrics.resource@)))
    } else {
        ends(VisitEnd::Complete)
    };
    lemma_followed(head, scopes_plan(visitor, scopes, 0), own, flat(models, 0));
}

/// The events of scope `s` stand at its place.
proof fn lemma_scope_place(
    visitor: OtelMetricVisitor,
    metrics: ResourceMetrics,
    s: int,
    k: int,
)
    requires
        0 <= s < metrics.scope_metrics@.len(),
        0 <= k < scope_models(visitor, metrics.scope_metrics@[s]).len(),
    ensures
        0 <= scope_place(visitor, metrics, s) + k < batch_models(visitor, metrics).len(),
        batch_models(visitor, metrics)[scope_place(visitor, metrics, s) + k] == scope_models(
            visitor,
            metrics.scope_metrics@[s],
        )[k],
{
    let models = scopes_models(visitor, metrics.scope_metrics@);
    lemma_flat(models, 0, s);
    lemma_scopes_length(visitor, metrics.scope_metrics@, s);
    assert(models[s][k] == scope_models(visitor, metrics.scope_metrics@[s])[k]);
    assert(length(models, 0) == 0);
}

/// The events of metric `m` of scope `s` stand at its place.
proof fn lemma_metric_place(
    visitor: OtelMetricVisitor,
    metrics: ResourceMetrics,
    s: int,
    m: int,
    k: int,
)
    requires
        0 <= s < metrics.scope_metrics@.len(),
        0 <= m < metrics.scope_metrics@[s].metrics@.len(),
        0 <= k < metric_models(visitor, metrics.scope_metrics@[s].metrics@[m]).len(),
    ensures
        0 <= metric_place(visitor, metrics, s, m) + k < batch_models(visitor, metrics).len(),
        batch_models(visitor, metrics)[metric_place(visitor, metrics, s, m) + k] == metric_models(
            visitor,
            metrics.scope_metrics@[s].metrics@[m],
        )[k],
{
    let scope = metrics.scope_metrics@[s];
    let models = metrics_models(visitor, scope.metrics@);
    lemma_flat(models, 0, m);
    lemma_metrics_length(visitor, scope.metrics@, m);
    assert(models[m] == metric_models(visitor, scope.metrics@[m]));
    assert(length(models, 0) == 0);
    let at = metrics_events(visitor, scope.metrics@, m) + k;
    let inner = flat(models, 0);
    assert(0 <= at < inner.len());
    assert(inner[at] == models[m][k]);
    let whole = scope_models(visitor, scope);
    assert(whole.len() == once(visitor.scope) + inner.len());
    assert(whole[once(visitor.scope) + at] == inner[at]);
    lemma_scope_place(visitor, metrics, s, once(visitor.scope) + at);
}

/// The events of point `p` of that metric stand at its place.
proof fn lemma_point_place(
    visitor: OtelMetricVisitor,
    metrics: ResourceMetrics,
    s: int,
    m: int,
    p: int,
    k: int,
)
    requires
        0 <= s < metrics.scope_metrics@.len(),
        0 <= m < metrics.scope_metrics@[s].metrics@.len(),
        0 <= p < point_count(metrics.scope_metrics@[s].metrics@[m].data),
        0 <= k < point_models(visitor, metrics.scope_metrics@[s].metrics@[m].data, p).len(),
    ensures
        0 <= point_place(visitor, metrics, s, m, p) + k < batch_models(visitor, metrics).len(),
        batch_models(visitor, metrics)[point_place(visitor, metrics, s, m, p) + k] == point_models(
            visitor,
            metrics.scope_metrics@[s].metrics@[m].data,
            p,
        )[k],
{
    let metric = metrics.scope_metrics@[s].metrics@[m];
    let models = data_models(visitor, metric.data);
    lemma_flat(models, 0, p);
    lemma_data_length(visitor, metric.data, p);
    assert(models[p] == point_models(visitor, metric.data, p));
    assert(length(models, 0) == 0);
    let at = points_events(visitor, metric.data, p) + k;
    let inner = flat(models, 0);
    assert(0 <= at < inner.len());
    assert(inner[at] == models[p][k]);
    let whole = metric_models(visitor, metric);
    assert(whole.len() == once(visitor.metric) + inner.len());
    assert(whole[once(visitor.metric) + at] == inner[at]);
    lemma_metric_place(visitor, metrics, s, m, once(visitor.metric) + at);
}

/// Converted attributes that are equal as data show the attributes.
proof fn lemma_shown_attributes(
    shown: Seq<OtelMetricAttribute>,
    attributes: Seq<(String, Value)>,
)
    requires
        shown_attributes(shown) == attribute_models(attributes),
        all_showable(attributes),
    ensures
        shows_attributes(shown, attributes),
{
    assert(shown_attributes(shown).len() == shown.len());
    assert(attribute_models(attributes).len() == attributes.len());
    assert forall|i: int| 0 <= i < attributes.len() implies reads(
        (#[trigger] shown[i]).key,
        attributes[i].0@,
    ) && shows_value(shown[i], attributes[i].1) by {
        let model = attribute_models(attributes)[i];
        assert(shown_attributes(shown)[i] == crate::metric_visit::shown_attribute(shown[i]));
        assert(model.2 == attributes[i].1.tree());
        assert(showable(attributes[i].1));
        lemma_shown_value(shown[i], attributes[i].1);
    }
}

proof fn lemma_shown_value(attribute: OtelMetricAttribute, value: Value)
    requires
        shown_value(attribute.value) == value.tree(),
        attribute.value_type == type_code(value),
        showable(value),
    ensures
        shows_value(attribute, value),
{
    match value {
        Value::Array(array) => lemma_shown_array(attribute, array),
        _ => {},
    }
}

proof fn lemma_shown_array(attribute: OtelMetricAttribute, array: Array)
    requires
        shown_value(attribute.value) == Value::Array(array).tree(),
        attribute.value_type == type_code(Value::Array(array)),
        array != Array::Unknown,
    ensures
        shows_value(attribute, Value::Array(array)),
{
    let items = array.elements();
    assert(Value::Array(array).tree() == ValueTree::List(items));
    match attribute.value {
        OtelMetricAttributeValue::Array(OtelMetricArrayView::Texts(views)) => {
            let parts = Seq::new(views@.len(), |i: int| shown_text(views@[i]));
            assert(parts == items);
            assert(forall|i: int| 0 <= i < views@.len() ==> shown_text(#[trigger] views@[i]) == parts[i]);
            assert(parts.len() > 0 ==> parts[0] == shown_text(views@[0]));
        },
        OtelMetricAttributeValue::Array(OtelMetricArrayView::Bools(words)) => {
            let parts = Seq::new(words@.len(), |i: int| shown_truth(words@[i]));
            assert(parts == items);
            assert(forall|i: int| 0 <= i < words@.len() ==> shown_truth(#[trigger] words@[i]) == parts[i]);
            assert(parts.len() > 0 ==> parts[0] == shown_truth(words@[0]));
        },
        OtelMetricAttributeValue::Array(OtelMetricArrayView::Int64s(numbers)) => {
            let parts = Seq::new(numbers@.len(), |i: int| ValueTree::Int(numbers@[i]));
            assert(parts == items);
            assert(forall|i: int| 0 <= i < numbers@.len() ==> ValueTree::Int(#[trigger] numbers@[i]) == parts[i]);
            assert(parts.len() > 0 ==> parts[0] == ValueTree::Int(numbers@[0]));
            if let Array::I64(own) = array {
                assert(numbers@ =~= own@);
            }
        },
        OtelMetricAttributeValue::Array(OtelMetricArrayView::Doubles(bits)) => {
            let parts = Seq::new(bits@.len(), |i: int| ValueTree::Double(bits@[i]));
            assert(parts == items);
            assert(forall|i: int| 0 <= i < bits@.len() ==> ValueTree::Double(#[trigger] bits@[i]) == parts[i]);
            assert(parts.len() > 0 ==> parts[0] == ValueTree::Double(bits@[0]));
            if let Array::F64(own) = array {
                assert(bits@ =~= own@);
            }
        },
        _ => {},
    }
}

/// The visit of a batch was granted with this visitor.
pub open spec fn visited(
    errors: &mut ErrorState,
    metrics: &ResourceMetrics,
    visitor: &OtelMetricVisitor,
    visitor_size: usize,
    plan: VisitPlan,
) -> bool {
    call_ensures(
        otel_metric_batch_visit,
        (errors, Some(metrics), Some(visitor), visitor_size),
        Ok::<VisitPlan, OtelStatus>(plan),
    )
}

proof fn lemma_visited(
    errors: &mut ErrorState,
    metrics: &ResourceMetrics,
    visitor: &OtelMetricVisitor,
    visitor_size: usize,
    plan: VisitPlan,
    k: int,
)
    requires
        visited(errors, metrics, visitor, visitor_size, plan),
    ensures
        plan.end == VisitEnd::Complete <==> batch_showable(*visitor, *metrics),
        plan.end == VisitEnd::Complete ==> plan.events@.len() == batch_events(*visitor, *metrics),
        0 <= k < plan.events@.len() ==> shown_event(plan.events@[k]) == batch_models(
            *visitor,
            *metrics,
        )[k],
        shown_events(plan.events@) == batch_plan(*visitor, *metrics).events,
        plan.end == batch_plan(*visitor, *metrics).end,
{
    lemma_batch(*visitor, *metrics);
    let shown = shown_events(plan.events@);
    assert(shown.len() == plan.events@.len());
    if 0 <= k < plan.events@.len() {
        assert(shown[k] == shown_event(plan.events@[k]));
    }
}

/// A traversal completes exactly when every time and every attribute that it shows can be shown,
/// and then it has one event for the resource, one for each scope, metric, point and exemplar, as
/// far as there is a callback for it, and no other.
pub proof fn traversal_shows_everything_once(
    errors: &mut ErrorState,
    metrics: &ResourceMetrics,
    visitor: &OtelMetricVisitor,
    visitor_size: usize,
    plan: VisitPlan,
)
    requires
        visited(errors, metrics, visitor, visitor_size, plan),
    ensures
        plan.end == VisitEnd::Complete <==> batch_showable(*visitor, *metrics),
        plan.end == VisitEnd::Complete ==> plan.events@.len() == batch_events(*visitor, *metrics),
{
    lemma_visited(errors, metrics, visitor, visitor_size, plan, 0);
}

/// The resource is shown first.
pub proof fn resource_is_shown_first(
    errors: &mut ErrorState,
    metrics: &ResourceMetrics,
    visitor: &OtelMetricVisitor,
    visitor_size: usize,
    plan: VisitPlan,
)
    requires
        visited(errors, metrics, visitor, visitor_size, plan),
        plan.end == VisitEnd::Complete || (0 < plan.events@.len() && all_showable(
            metrics.resource@,
        )),
        visitor.resource is Some,
    ensures
        plan.events@.len() > 0,
        plan.events@[0] matches VisitEvent::Resource { attributes } && shows_attributes(
            attributes@,
            metrics.resource@,
        ),
{
    lemma_visited(errors, metrics, visitor, visitor_size, plan, 0);
    let models = batch_models(*visitor, *metrics);
    assert(models[0] == EventModel::Resource(attribute_models(metrics.resource@)));
    match plan.events@[0] {
        VisitEvent::Resource { attributes } => lemma_shown_attributes(
            attributes@,
            metrics.resource@,
        ),
        _ => {},
    }
}

/// Each scope is shown at its place, with its own name, version, schema URL and attributes.
pub proof fn scopes_are_shown_in_order(
    errors: &mut ErrorState,
    metrics: &ResourceMetrics,
    visitor: &OtelMetricVisitor,
    visitor_size: usize,
    plan: VisitPlan,
    s: int,
)
    requires
        visited(errors, metrics, visitor, visitor_size, plan),
        plan.end == VisitEnd::Complete || (scope_place(*visitor, *metrics, s) < plan.events@.len() && all_showable(
            metrics.scope_metrics@[s].scope.attributes@,
        )),
        visitor.scope is Some,
        0 <= s < metrics.scope_metrics@.len(),
    ensures
        0 <= scope_place(*visitor, *metrics, s) < plan.events@.len(),
        shows_scope(
            plan.events@[scope_place(*visitor, *metrics, s)],
            metrics.scope_metrics@[s].scope,
        ),
{
    let scope = metrics.scope_metrics@[s];
    let k = scope_place(*visitor, *metrics, s);
    lemma_visited(errors, metrics, visitor, visitor_size, plan, k);
    lemma_batch(*visitor, *metrics);
    lemma_scope(*visitor, scope);
    lemma_scope_place(*visitor, *metrics, s, 0);
    assert(scope_models(*visitor, scope)[0] == scope_model(scope.scope));
    if plan.end == VisitEnd::Complete {
        assert(scope_showable(*visitor, scope));
    }
    match plan.events@[k] {
        VisitEvent::Scope { attributes, .. } => lemma_shown_attributes(
            attributes@,
            scope.scope.attributes@,
        ),
        _ => {},
    }
}

/// Each metric is announced at its place, with its own name, description, unit, kind of data and
/// kind of number.
pub proof fn metrics_are_announced_in_order(
    errors: &mut ErrorState,
    metrics: &ResourceMetrics,
    visitor: &OtelMetricVisitor,
    visitor_size: usize,
    plan: VisitPlan,
    s: int,
    m: int,
)
    requires
        visited(errors, metrics, visitor, visitor_size, plan),
        plan.end == VisitEnd::Complete || metric_place(*visitor, *metrics, s, m)
            < plan.events@.len(),
        visitor.metric is Some,
        0 <= s < metrics.scope_metrics@.len(),
        0 <= m < metrics.scope_metrics@[s].metrics@.len(),
    ensures
        0 <= metric_place(*visitor, *metrics, s, m) < plan.events@.len(),
        announces(
            plan.events@[metric_place(*visitor, *metrics, s, m)],
            metrics.scope_metrics@[s].metrics@[m],
        ),
{
    let metric = metrics.scope_metrics@[s].metrics@[m];
    let k = metric_place(*visitor, *metrics, s, m);
    lemma_visited(errors, metrics, visitor, visitor_size, plan, k);
    lemma_batch(*visitor, *metrics);
    lemma_metric(*visitor, metric);
    lemma_metric_place(*visitor, *metrics, s, m, 0);
    assert(metric_models(*visitor, metric)[0] == metric_model(metric));
}

/// Each point is shown at its place: the event has the times, the temporality and the numbers of
/// that point of that metric, each in its own field, its buckets and its attributes. A minimum or
/// a maximum is marked present exactly when the point has one, and is then that one.
pub proof fn points_are_shown_in_order(
    errors: &mut ErrorState,
    metrics: &ResourceMetrics,
    visitor: &OtelMetricVisitor,
    visitor_size: usize,
    plan: VisitPlan,
    s: int,
    m: int,
    p: int,
)
    requires
        visited(errors, metrics, visitor, visitor_size, plan),
        plan.end == VisitEnd::Complete || (point_place(*visitor, *metrics, s, m, p) < plan.events@.len() && times_countable(metrics.scope_metrics@[s].metrics@[m].data) && all_showable(
            attributes_of(metrics.scope_metrics@[s].metrics@[m].data, p),
        )),
        visitor.point is Some,
        0 <= s < metrics.scope_metrics@.len(),
        0 <= m < metrics.scope_metrics@[s].metrics@.len(),
        0 <= p < point_count(metrics.scope_metrics@[s].metrics@[m].data),
    ensures
        0 <= point_place(*visitor, *metrics, s, m, p) < plan.events@.len(),
        shows_point(
            plan.events@[point_place(*visitor, *metrics, s, m, p)],
            metrics.scope_metrics@[s].metrics@[m].data,
            p,
        ),
{
    let data = metrics.scope_metrics@[s].metrics@[m].data;
    let k = point_place(*visitor, *metrics, s, m, p);
    lemma_visited(errors, metrics, visitor, visitor_size, plan, k);
    lemma_batch(*visitor, *metrics);
    lemma_point(*visitor, data, p);
    lemma_point_place(*visitor, *metrics, s, m, p, 0);
    assert(point_models(*visitor, data, p)[0] == point_model(data, p));
    if plan.end == VisitEnd::Complete {
        assert(scope_showable(*visitor, metrics.scope_metrics@[s]));
        assert(data_showable(*visitor, metrics.scope_metrics@[s].metrics@[m].data));
        assert(point_showable(*visitor, data, p));
    }
    lemma_point_count(data);
    match plan.events@[k] {
        VisitEvent::Point { attributes, .. } => lemma_shown_attributes(
            attributes@,
            attributes_of(data, p),
        ),
        _ => {},
    }
}

/// Each exemplar is shown right behind its point, with the time, the value and the span of that
/// exemplar.
pub proof fn exemplars_are_shown_behind_their_point(
    errors: &mut ErrorState,
    metrics: &ResourceMetrics,
    visitor: &OtelMetricVisitor,
    visitor_size: usize,
    plan: VisitPlan,
    s: int,
    m: int,
    p: int,
    e: int,
)
    requires
        visited(errors, metrics, visitor, visitor_size, plan),
        plan.end == VisitEnd::Complete || (point_place(*visitor, *metrics, s, m, p) + once(visitor.point) + e < plan.events@.len() && exemplar_showable(
            exemplars_of(metrics.scope_metrics@[s].metrics@[m].data, p)[e],
        )),
        visitor.exemplar is Some,
        0 <= s < metrics.scope_metrics@.len(),
        0 <= m < metrics.scope_metrics@[s].metrics@.len(),
        0 <= p < point_count(metrics.scope_metrics@[s].metrics@[m].data),
        0 <= e < exemplars_of(metrics.scope_metrics@[s].metrics@[m].data, p).len(),
    ensures
        0 <= point_place(*visitor, *metrics, s, m, p) + once(visitor.point) + e
            < plan.events@.len(),
        shows_exemplar(
            plan.events@[point_place(*visitor, *metrics, s, m, p) + once(visitor.point) + e],
            metrics.scope_metrics@[s].metrics@[m].data,
            p,
            e,
        ),
{
    let data = metrics.scope_metrics@[s].metrics@[m].data;
    let k = point_place(*visitor, *metrics, s, m, p) + once(visitor.point) + e;
    let exemplars = exemplars_of(data, p);
    lemma_visited(errors, metrics, visitor, visitor_size, plan, k);
    lemma_batch(*visitor, *metrics);
    lemma_point(*visitor, data, p);
    lemma_point_place(*visitor, *metrics, s, m, p, once(visitor.point) + e);
    assert(point_models(*visitor, data, p)[once(visitor.point) + e] == exemplar_model(
        p as usize,
        exemplars,
        e,
    ));
    if plan.end == VisitEnd::Complete {
        assert(scope_showable(*visitor, metrics.scope_metrics@[s]));
        assert(data_showable(*visitor, metrics.scope_metrics@[s].metrics@[m].data));
        assert(point_showable(*visitor, data, p));
        assert(exemplar_showable(exemplars[e]));
    }
    lemma_point_count(data);
    lemma_exemplar_count(data, p);
    match plan.events@[k] {
        VisitEvent::Exemplar { attributes, .. } => lemma_shown_attributes(
            attributes@,
            exemplars[e].filtered_attributes@,
        ),
        _ => {},
    }
}

/// A visit is granted exactly where the batch is active and the visitor is there in its full size.
/// A visitor of an older size is a matter of configuration, and everything else the caller's
/// mistake.
pub proof fn visits_need_an_active_batch(
    errors: &mut ErrorState,
    metrics: Option<&ResourceMetrics>,
    visitor: Option<&OtelMetricVisitor>,
    visitor_size: usize,
    r: Result<VisitPlan, OtelStatus>,
)
    requires
        call_ensures(otel_metric_batch_visit, (errors, metrics, visitor, visitor_size), r),
    ensures
        r is Ok <==> metrics is Some && (visitor matches Some(v) && v.struct_size >= visitor_size),
        metrics is None || visitor is None ==> r == Err::<VisitPlan, OtelStatus>(
            OtelStatus::InvalidArgument,
        ),
        metrics is Some && visitor is Some && r is Err ==> r->Err_0 == OtelStatus::InvalidConfig,
        r matches Err(status) ==> final(errors).last_status == status,
{
}

/// A traversal hands its events to their callbacks one by one, stops at the first callback that
/// fails, with its status, and otherwise ends as it was planned to: with success where it is
/// complete, and as the library's failure where something could not be shown.
pub proof fn traversal_runs_as_planned(
    plan: &VisitPlan,
    errors: &mut ErrorState,
    done: usize,
    status: OtelStatus,
    step: VisitStep,
)
    requires
        done <= plan.events@.len(),
        call_ensures(VisitPlan::next, (plan, errors, done, status), step),
    ensures
        done == 0 && plan.events@.len() > 0 ==> step == VisitStep::Invoke(0),
        done > 0 && status != OtelStatus::Success ==> step == VisitStep::Done(status)
            && final(errors).last_status == status,
        done > 0 && status == OtelStatus::Success && done < plan.events@.len() ==> step
            == VisitStep::Invoke(done),
        done == plan.events@.len() && (done == 0 || status == OtelStatus::Success) ==> {
            &&& plan.end == VisitEnd::Complete ==> step == VisitStep::Done(OtelStatus::Success)
                && *final(errors) == *old(errors)
            &&& plan.end != VisitEnd::Complete ==> step == VisitStep::Done(
                OtelStatus::InternalError,
            )
        },
{
}

/// A time is shown as its nanoseconds since the Unix epoch; an earlier one and one beyond the count
/// end the traversal, each in its own way. Temporalities have their codes.
pub proof fn times_and_temporalities_are_shown(
    time: SystemTime,
    r: Result<u64, VisitEnd>,
    optional: Option<SystemTime>,
    shown: Result<u64, VisitEnd>,
    value: Temporality,
    code: u32,
)
    requires
        call_ensures(timestamp, (time,), r),
        call_ensures(optional_timestamp, (optional,), shown),
        call_ensures(temporality, (value,), code),
    ensures
        countable(time) ==> r == Ok::<u64, VisitEnd>(time.nanos_since_epoch as u64),
        time.nanos_since_epoch < 0 ==> r == Err::<u64, VisitEnd>(VisitEnd::PredatesEpoch),
        time.nanos_since_epoch > u64::MAX ==> r == Err::<u64, VisitEnd>(VisitEnd::TimeRange),
        optional is None ==> shown == Ok::<u64, VisitEnd>(0),
        optional matches Some(t) ==> (countable(t) ==> shown == Ok::<u64, VisitEnd>(
            t.nanos_since_epoch as u64,
        )),
        optional matches Some(t) ==> (!countable(t) ==> shown is Err),
        is_temporality(code, value),
{
}

/// What cannot be shown ends a traversal, but takes nothing from what comes before it: where the
/// first scopes of a batch alone would complete, the traversal of the whole batch begins with all
/// of their events.
pub proof fn traversal_shows_what_comes_first(
    errors: &mut ErrorState,
    metrics: &ResourceMetrics,
    visitor: &OtelMetricVisitor,
    visitor_size: usize,
    plan: VisitPlan,
    other: &mut ErrorState,
    first: &ResourceMetrics,
    short: VisitPlan,
    k: int,
)
    requires
        visited(errors, metrics, visitor, visitor_size, plan),
        visited(other, first, visitor, visitor_size, short),
        first.resource@ == metrics.resource@,
        first.scope_metrics@.len() <= metrics.scope_metrics@.len(),
        forall|s: int|
            0 <= s < first.scope_metrics@.len() ==> #[trigger] first.scope_metrics@[s]
                == metrics.scope_metrics@[s],
        short.end == VisitEnd::Complete,
        0 <= k < short.events@.len(),
    ensures
        short.events@.len() <= plan.events@.len(),
        shown_event(plan.events@[k]) == shown_event(short.events@[k]),
{
    let whole = batch_plan(*visitor, *metrics);
    let part = batch_plan(*visitor, *first);
    let n = first.scope_metrics@.len() as int;
    assert(first.scope_metrics@ =~= metrics.scope_metrics@.take(n));
    lemma_scopes_first(*visitor, metrics.scope_metrics@, n, 0);
    assert(shown_events(plan.events@) == whole.events);
    assert(shown_events(short.events@) == part.events);
    assert(shown_events(plan.events@).len() == plan.events@.len());
    assert(shown_events(short.events@).len() == short.events@.len());
    assert(part.events[k] == whole.events[k]);
    assert(shown_events(plan.events@)[k] == shown_event(plan.events@[k]));
    assert(shown_events(short.events@)[k] == shown_event(short.events@[k]));
}

proof fn lemma_scopes_first(
    visitor: OtelMetricVisitor,
    scopes: Seq<ScopeMetrics>,
    n: int,
    i: int,
)
    requires
        0 <= i <= n <= scopes.len(),
    ensures
        scopes_plan(visitor, scopes.take(n), i).end == VisitEnd::Complete ==> {
            let part = scopes_plan(visitor, scopes.take(n), i).events;
            let whole = scopes_plan(visitor, scopes, i).events;
            &&& part.len() <= whole.len()
            &&& forall|k: int| 0 <= k < part.len() ==> #[trigger] part[k] == whole[k]
        },
    decreases n - i,
{
    if i < n {
        lemma_scopes_first(visitor, scopes, n, i + 1);
        assert(scopes.take(n)[i] == scopes[i]);
    }
}

/// How a traversal ends at a time that cannot be counted.
pub open spec fn ends_at_time(end: VisitEnd, time: SystemTime) -> bool {
    &&& time.nanos_since_epoch < 0 ==> end == VisitEnd::PredatesEpoch
    &&& time.nanos_since_epoch > u64::MAX ==> end == VisitEnd::TimeRange
}

/// A chain stops at its first part that does not complete.
proof fn lemma_stop(plans: Seq<Plan>, parts: Seq<Seq<EventModel>>, i: int, j: int)
    requires
        0 <= i <= j < plans.len(),
        plans.len() == parts.len(),
        forall|k: int| 0 <= k < plans.len() ==> fits(#[trigger] plans[k], parts[k]),
        forall|k: int| i <= k < j ==> (#[trigger] plans[k]).end == VisitEnd::Complete,
        plans[j].end != VisitEnd::Complete,
    ensures
        chain(plans, i).events.len() == length(parts, j) - length(parts, i) + plans[j].events.len(),
        chain(plans, i).end == plans[j].end,
    decreases j - i,
{
    if i < j {
        lemma_stop(plans, parts, i + 1, j);
        assert(plans[i].end == VisitEnd::Complete);
        assert(length(parts, i + 1) == length(parts, i) + parts[i].len());
    }
}

proof fn lemma_exemplars_stop(
    visitor: OtelMetricVisitor,
    point_index: usize,
    exemplars: Seq<Exemplar>,
    i: int,
    e: int,
)
    requires
        visitor.exemplar is Some,
        0 <= i <= e < exemplars.len(),
        forall|k: int| i <= k < e ==> exemplar_showable(#[trigger] exemplars[k]),
        !exemplar_showable(exemplars[e]),
    ensures
        exemplars_plan(visitor, point_index, exemplars, i).events.len() == e - i,
        !countable(exemplars[e].time) ==> ends_at_time(
            exemplars_plan(visitor, point_index, exemplars, i).end,
            exemplars[e].time,
        ),
        countable(exemplars[e].time) ==> exemplars_plan(visitor, point_index, exemplars, i).end
            == VisitEnd::UnknownAttribute,
    decreases e - i,
{
    lemma_known(exemplars[i].filtered_attributes@);
    if i < e {
        assert(exemplar_showable(exemplars[i]));
        lemma_exemplars_stop(visitor, point_index, exemplars, i + 1, e);
    }
}

/// Everything that is shown before point `p` of that metric can be shown.
pub open spec fn showable_before(
    visitor: OtelMetricVisitor,
    metrics: ResourceMetrics,
    s: int,
    m: int,
    p: int,
) -> bool {
    let scope = metrics.scope_metrics@[s];
    &&& visitor.resource is Some ==> all_showable(metrics.resource@)
    &&& forall|t: int| 0 <= t < s ==> scope_showable(visitor, #[trigger] metrics.scope_metrics@[t])
    &&& visitor.scope is Some ==> all_showable(scope.scope.attributes@)
    &&& forall|n: int| 0 <= n < m ==> data_showable(visitor, (#[trigger] scope.metrics@[n]).data)
    &&& forall|q: int| 0 <= q < p ==> #[trigger] point_showable(visitor, scope.metrics@[m].data, q)
}

/// Where the traversal stops at point `p`, what is shown is what comes before it and what the visit
/// of the point itself shows.
proof fn lemma_stop_at_point(
    visitor: OtelMetricVisitor,
    metrics: ResourceMetrics,
    s: int,
    m: int,
    p: int,
)
    requires
        0 <= s < metrics.scope_metrics@.len(),
        0 <= m < metrics.scope_metrics@[s].metrics@.len(),
        0 <= p < point_count(metrics.scope_metrics@[s].metrics@[m].data),
        showable_before(visitor, metrics, s, m, p),
        !point_showable(visitor, metrics.scope_metrics@[s].metrics@[m].data, p),
    ensures
        ({
            let data = metrics.scope_metrics@[s].metrics@[m].data;
            &&& batch_plan(visitor, metrics).events.len() == point_place(visitor, metrics, s, m, p)
                + point_part(visitor, data, p).events.len()
            &&& batch_plan(visitor, metrics).end == point_part(visitor, data, p).end
        }),
{
    let scopes = metrics.scope_metrics@;
    let scope = scopes[s];
    let metric = scope.metrics@[m];
    let data = metric.data;
    // The points of the metric.
    let points = point_parts(visitor, data);
    let point_shapes = data_models(visitor, data);
    assert forall|k: int| 0 <= k < points.len() implies fits(#[trigger] points[k], point_shapes[k])
        && (points[k].end == VisitEnd::Complete <==> point_showable(visitor, data, k)) by {
        lemma_point(visitor, data, k);
    }
    lemma_stop(points, point_shapes, 0, p);
    lemma_data_length(visitor, data, p);
    lemma_data_chain(visitor, data);
    assert(length(point_shapes, 0) == 0);
    // The metrics of the scope.
    let plans = metric_parts(visitor, scope.metrics@);
    let shapes = metrics_models(visitor, scope.metrics@);
    assert forall|k: int| 0 <= k < plans.len() implies fits(#[trigger] plans[k], shapes[k]) && (
    plans[k].end == VisitEnd::Complete <==> data_showable(visitor, scope.metrics@[k].data)) by {
        lemma_metric(visitor, scope.metrics@[k]);
    }
    lemma_data(visitor, data);
    assert(!data_showable(visitor, data));
    lemma_stop(plans, shapes, 0, m);
    lemma_metrics_length(visitor, scope.metrics@, m);
    lemma_metrics_chain(visitor, scope.metrics@, 0);
    assert(length(shapes, 0) == 0);
    // The scopes of the batch.
    let outer = scope_parts(visitor, scopes);
    let outer_shapes = scopes_models(visitor, scopes);
    assert forall|k: int| 0 <= k < outer.len() implies fits(#[trigger] outer[k], outer_shapes[k])
        && (outer[k].end == VisitEnd::Complete <==> scope_showable(visitor, scopes[k])) by {
        lemma_scope(visitor, scopes[k]);
    }
    lemma_known(scope.scope.attributes@);
    lemma_known(metrics.resource@);
    lemma_metrics(visitor, scope.metrics@);
    assert(!metrics_showable(visitor, scope.metrics@));
    assert(!scope_showable(visitor, scope));
    lemma_stop(outer, outer_shapes, 0, s);
    lemma_scopes_length(visitor, scopes, s);
    lemma_scopes_chain(visitor, scopes, 0);
    assert(length(outer_shapes, 0) == 0);
}

proof fn lemma_data_chain(visitor: OtelMetricVisitor, data: MetricData)
    ensures
        data_plan(visitor, data) == chain(point_parts(visitor, data), 0),
{
    match data {
        MetricData::Gauge { start_time, time, points } => lemma_numbers(
            visitor,
            data,
            start_time,
            time,
            0,
            false,
            points@,
            0,
        ),
        MetricData::Sum { start_time, time, temporality, is_monotonic, points } => lemma_numbers(
            visitor,
            data,
            Some(start_time),
            time,
            temporality_code(temporality),
            is_monotonic,
            points@,
            0,
        ),
        MetricData::Histogram { .. } => lemma_histogram(visitor, data, 0),
        MetricData::ExponentialHistogram { .. } => lemma_exponential(visitor, data, 0),
    }
}

/// A traversal stops at the first point that cannot be shown, with every event before it and none
/// of the point: at a time that cannot be counted in the way of that time, the start first, and at
/// an attribute without a form as such.
pub proof fn traversal_stops_before_a_point(
    errors: &mut ErrorState,
    metrics: &ResourceMetrics,
    visitor: &OtelMetricVisitor,
    visitor_size: usize,
    plan: VisitPlan,
    s: int,
    m: int,
    p: int,
)
    requires
        visited(errors, metrics, visitor, visitor_size, plan),
        0 <= s < metrics.scope_metrics@.len(),
        0 <= m < metrics.scope_metrics@[s].metrics@.len(),
        0 <= p < point_count(metrics.scope_metrics@[s].metrics@[m].data),
        showable_before(*visitor, *metrics, s, m, p),
        !times_countable(metrics.scope_metrics@[s].metrics@[m].data) || (visitor.point is Some
            && !all_showable(attributes_of(metrics.scope_metrics@[s].metrics@[m].data, p))),
    ensures
        plan.events@.len() == point_place(*visitor, *metrics, s, m, p),
        times_countable(metrics.scope_metrics@[s].metrics@[m].data) ==> plan.end
            == VisitEnd::UnknownAttribute,
        !times_countable(metrics.scope_metrics@[s].metrics@[m].data) ==> match starts(
            metrics.scope_metrics@[s].metrics@[m].data,
        ) {
            Some(start) => if countable(start) {
                ends_at_time(plan.end, takes_place(metrics.scope_metrics@[s].metrics@[m].data))
            } else {
                ends_at_time(plan.end, start)
            },
            None => ends_at_time(
                plan.end,
                takes_place(metrics.scope_metrics@[s].metrics@[m].data),
            ),
        },
{
    let data = metrics.scope_metrics@[s].metrics@[m].data;
    lemma_visited(errors, metrics, visitor, visitor_size, plan, 0);
    lemma_stop_at_point(*visitor, *metrics, s, m, p);
    lemma_known(attributes_of(data, p));
    assert(shown_events(plan.events@).len() == plan.events@.len());
}

/// When the points of a metric start, where they say so.
pub open spec fn starts(data: MetricData) -> Option<SystemTime> {
    match data {
        MetricData::Gauge { start_time, .. } => start_time,
        MetricData::Sum { start_time, .. } => Some(start_time),
        MetricData::Histogram { start_time, .. } => Some(start_time),
        MetricData::ExponentialHistogram { start_time, .. } => Some(start_time),
    }
}

/// When the points of a metric were taken.
pub open spec fn takes_place(data: MetricData) -> SystemTime {
    match data {
        MetricData::Gauge { time, .. } => time,
        MetricData::Sum { time, .. } => time,
        MetricData::Histogram { time, .. } => time,
        MetricData::ExponentialHistogram { time, .. } => time,
    }
}

/// A traversal stops at the first exemplar that cannot be shown, behind its point and the exemplars
/// before it.
pub proof fn traversal_stops_before_an_exemplar(
    errors: &mut ErrorState,
    metrics: &ResourceMetrics,
    visitor: &OtelMetricVisitor,
    visitor_size: usize,
    plan: VisitPlan,
    s: int,
    m: int,
    p: int,
    e: int,
)
    requires
        visited(errors, metrics, visitor, visitor_size, plan),
        0 <= s < metrics.scope_metrics@.len(),
        0 <= m < metrics.scope_metrics@[s].metrics@.len(),
        0 <= p < point_count(metrics.scope_metrics@[s].metrics@[m].data),
        showable_before(*visitor, *metrics, s, m, p),
        times_countable(metrics.scope_metrics@[s].metrics@[m].data),
        visitor.point is Some ==> all_showable(
            attributes_of(metrics.scope_metrics@[s].metrics@[m].data, p),
        ),
        visitor.exemplar is Some,
        0 <= e < exemplars_of(metrics.scope_metrics@[s].metrics@[m].data, p).len(),
        forall|k: int|
            0 <= k < e ==> exemplar_showable(
                #[trigger] exemplars_of(metrics.scope_metrics@[s].metrics@[m].data, p)[k],
            ),
        !exemplar_showable(exemplars_of(metrics.scope_metrics@[s].metrics@[m].data, p)[e]),
    ensures
        plan.events@.len() == point_place(*visitor, *metrics, s, m, p) + once(visitor.point) + e,
        ({
            let time = exemplars_of(metrics.scope_metrics@[s].metrics@[m].data, p)[e].time;
            if countable(time) {
                plan.end == VisitEnd::UnknownAttribute
            } else {
                ends_at_time(plan.end, time)
            }
        }),
{
    let data = metrics.scope_metrics@[s].metrics@[m].data;
    lemma_visited(errors, metrics, visitor, visitor_size, plan, 0);
    assert(!point_showable(*visitor, data, p));
    lemma_stop_at_point(*visitor, *metrics, s, m, p);
    lemma_known(attributes_of(data, p));
    lemma_exemplars_stop(*visitor, p as usize, exemplars_of(data, p), 0, e);
    assert(shown_events(plan.events@).len() == plan.events@.len());
}

/// A traversal stops at a resource or at the first scope with an attribute that has no form, with
/// every event before it.
pub proof fn traversal_stops_before_a_scope(
    errors: &mut ErrorState,
    metrics: &ResourceMetrics,
    visitor: &OtelMetricVisitor,
    visitor_size: usize,
    plan: VisitPlan,
    s: int,
)
    requires
        visited(errors, metrics, visitor, visitor_size, plan),
        0 <= s < metrics.scope_metrics@.len(),
    ensures
        visitor.resource is Some && !all_showable(metrics.resource@) ==> plan.events@.len() == 0
            && plan.end == VisitEnd::UnknownAttribute,
        (visitor.resource is Some ==> all_showable(metrics.resource@)) && (forall|t: int|
            0 <= t < s ==> scope_showable(*visitor, #[trigger] metrics.scope_metrics@[t]))
            && visitor.scope is Some && !all_showable(
            metrics.scope_metrics@[s].scope.attributes@,
        ) ==> plan.events@.len() == scope_place(*visitor, *metrics, s) && plan.end
            == VisitEnd::UnknownAttribute,
{
    let scopes = metrics.scope_metrics@;
    let scope = scopes[s];
    lemma_visited(errors, metrics, visitor, visitor_size, plan, 0);
    lemma_known(scope.scope.attributes@);
    lemma_known(metrics.resource@);
    assert(shown_events(plan.events@).len() == plan.events@.len());
    if (visitor.resource is Some ==> all_showable(metrics.resource@)) && (forall|t: int|
        0 <= t < s ==> scope_showable(*visitor, #[trigger] metrics.scope_metrics@[t]))
        && visitor.scope is Some && !all_showable(scope.scope.attributes@) {
        let outer = scope_parts(*visitor, scopes);
        let outer_shapes = scopes_models(*visitor, scopes);
        assert forall|k: int| 0 <= k < outer.len() implies fits(#[trigger] outer[k], outer_shapes[k])
            && (outer[k].end == VisitEnd::Complete <==> scope_showable(*visitor, scopes[k])) by {
            lemma_scope(*visitor, scopes[k]);
        }
        assert(!scope_showable(*visitor, scope));
        lemma_stop(outer, outer_shapes, 0, s);
        lemma_scopes_length(*visitor, scopes, s);
        lemma_scopes_chain(*visitor, scopes, 0);
        assert(length(outer_shapes, 0) == 0);
    }
}

proof fn lemma_point_count(data: MetricData)
    ensures
        point_count(data) <= usize::MAX,
{
    match data {
        MetricData::Gauge { points, .. } => assert(points@.len() == points.len()),
        MetricData::Sum { points, .. } => assert(points@.len() == points.len()),
        MetricData::Histogram { points, .. } => assert(points@.len() == points.len()),
        MetricData::ExponentialHistogram { points, .. } => assert(points@.len() == points.len()),
    }
}

proof fn lemma_exemplar_count(data: MetricData, p: int)
    ensures
        exemplars_of(data, p).len() <= usize::MAX,
{
    match data {
        MetricData::Gauge { points, .. } => {
            assert(points@[p].exemplars@.len() == points@[p].exemplars.len());
        },
        MetricData::Sum { points, .. } => {
            assert(points@[p].exemplars@.len() == points@[p].exemplars.len());
        },
        MetricData::Histogram { points, .. } => {
            assert(points@[p].exemplars@.len() == points@[p].exemplars.len());
        },
        MetricData::ExponentialHistogram { points, .. } => {
            assert(points@[p].exemplars@.len() == points@[p].exemplars.len());
        },
    }
}

} // verus!
