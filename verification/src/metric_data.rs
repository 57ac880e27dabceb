//! Collected metrics.

use vstd::prelude::*;

use crate::log_export::InstrumentationScope;
use crate::log_flatten::Value;
use crate::time::SystemTime;

verus! {

/// How points relate to earlier collections.
#[derive(Clone, Copy, Debug, PartialEq, Eq, Structural)]
pub enum Temporality {
    Cumulative,
    Delta,
    LowMemory,
}

/// The numeric types of instruments.
#[derive(Clone, Copy, Debug, PartialEq, Eq, Structural)]
pub enum NumberKind {
    U64,
    I64,
    F64,
}

/// A measured number. A double is held by its bit pattern.
#[derive(Clone, Copy, Debug, PartialEq, Eq, Structural)]
pub enum OtelMetricNumber {
    U64(u64),
    I64(i64),
    F64(u64),
}

/// A sampled measurement.
#[derive(Debug)]
pub struct Exemplar {
    pub time: SystemTime,
    pub value: OtelMetricNumber,
    pub span_id: [u8; 8],
    pub trace_id: [u8; 16],
    pub filtered_attributes: Vec<(String, Value)>,
}

/// A point of a gauge or a sum.
#[derive(Debug)]
pub struct NumberPoint {
    pub value: OtelMetricNumber,
    pub attributes: Vec<(String, Value)>,
    pub exemplars: Vec<Exemplar>,
}

/// A point of a histogram. Bounds are held by their bit patterns.
#[derive(Debug)]
pub struct HistogramPoint {
    pub count: u64,
    pub sum: OtelMetricNumber,
    pub min: Option<OtelMetricNumber>,
    pub max: Option<OtelMetricNumber>,
    pub bounds: Vec<u64>,
    pub bucket_counts: Vec<u64>,
    pub attributes: Vec<(String, Value)>,
    pub exemplars: Vec<Exemplar>,
}

/// The buckets of one sign of an exponential histogram.
#[derive(Debug)]
pub struct Buckets {
    pub offset: i32,
    pub counts: Vec<u64>,
}

/// A point of an exponential histogram. The zero threshold is held by its bit pattern.
#[derive(Debug)]
pub struct ExponentialPoint {
    pub count: usize,
    pub sum: OtelMetricNumber,
    pub min: Option<OtelMetricNumber>,
    pub max: Option<OtelMetricNumber>,
    pub scale: i8,
    pub zero_count: u64,
    pub zero_threshold: u64,
    pub positive: Buckets,
    pub negative: Buckets,
    pub attributes: Vec<(String, Value)>,
    pub exemplars: Vec<Exemplar>,
}

/// The points of one metric.
#[derive(Debug)]
#[allow(inconsistent_fields)]
pub enum MetricData {
    Gauge { start_time: Option<SystemTime>, time: SystemTime, points: Vec<NumberPoint> },
    Sum {
        start_time: SystemTime,
        time: SystemTime,
        temporality: Temporality,
        is_monotonic: bool,
        points: Vec<NumberPoint>,
    },
    Histogram {
        start_time: SystemTime,
        time: SystemTime,
        temporality: Temporality,
        points: Vec<HistogramPoint>,
    },
    ExponentialHistogram {
        start_time: SystemTime,
        time: SystemTime,
        temporality: Temporality,
        points: Vec<ExponentialPoint>,
    },
}

/// One metric of a scope.
#[derive(Debug)]
pub struct Metric {
    pub name: String,
    pub description: String,
    pub unit: String,
    pub number: NumberKind,
    pub data: MetricData,
}

/// The metrics of one scope.
#[derive(Debug)]
pub struct ScopeMetrics {
    pub scope: InstrumentationScope,
    pub metrics: Vec<Metric>,
}

/// One collection.
#[derive(Debug)]
pub struct ResourceMetrics {
    pub resource: Vec<(String, Value)>,
    pub scope_metrics: Vec<ScopeMetrics>,
}

} // verus!
