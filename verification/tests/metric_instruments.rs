use std::collections::HashMap;
use std::sync::atomic::{AtomicUsize, Ordering};
use std::sync::Arc;

use opentelemetry::metrics::{
    BoundCounter, BoundHistogram, Counter, Gauge, Histogram, Meter, MeterProvider as _,
    ObservableCounter, ObservableGauge, ObservableUpDownCounter, UpDownCounter,
};
use opentelemetry::KeyValue;
use opentelemetry_sdk::metrics::data::{AggregatedMetrics, Metric, MetricData, ResourceMetrics};
use opentelemetry_sdk::metrics::{InMemoryMetricExporter, PeriodicReader, SdkMeterProvider};

use opentelemetry_c_sdk::abi::{OtelArrayView, OtelStatus, OtelStringView};
use opentelemetry_c_sdk::error::ErrorState;
use opentelemetry_c_sdk::log_flatten::Value;
use opentelemetry_c_sdk::metric_data::NumberKind;
use opentelemetry_c_sdk::metric_instrument::{
    binding_panicked, bound_instrument_record, creation_panicked, instrument_bind, instrument_for,
    instrument_record, meter_create_instrument_with_status, observer_observe, CallbackLease,
    InstrumentPlan, OtelMetricInstrumentConfig, RecordOperation, SdkBoundMetricInstrument,
    SdkMetricInstrument,
};
use opentelemetry_c_sdk::metric_kind::{number_kind_from_u32, OtelMetricInstrumentKind};
use opentelemetry_c_sdk::scope::{
    provider_get_meter, provider_get_meter_with_scope, with_scope_attributes, OtelScopeConfig,
};

type Kind = OtelMetricInstrumentKind;

const OBSERVE: usize = 501;
const RELEASE: usize = 502;

fn sv(value: &'static str) -> OtelStringView<'static> {
    OtelStringView::of(value)
}

fn kind_code(kind: Kind) -> u32 {
    (0..7u32)
        .find(|code| Kind::from_u32(*code) == Some(kind))
        .expect("every kind has a code")
}

fn number_code(number: NumberKind) -> u32 {
    (0..3u32)
        .find(|code| number_kind_from_u32(*code) == Some(number))
        .expect("every number kind has a code")
}

fn config(
    kind: Kind,
    number: NumberKind,
    name: &'static str,
) -> OtelMetricInstrumentConfig<'static> {
    OtelMetricInstrumentConfig {
        kind: kind_code(kind),
        number: number_code(number),
        name: sv(name),
        description: OtelStringView::empty(),
        unit: OtelStringView::empty(),
        boundaries: OtelArrayView::Data(&[]),
        callback: None,
        callback_state: 0,
        callback_state_free: None,
    }
}

fn metric<'a>(metrics: &'a [ResourceMetrics], name: &str) -> &'a Metric {
    metrics
        .iter()
        .flat_map(|resource| resource.scope_metrics())
        .flat_map(|scope| scope.metrics())
        .find(|metric| metric.name() == name)
        .unwrap_or_else(|| panic!("missing metric {name}"))
}

fn assert_attributes<'a>(actual: impl Iterator<Item = &'a KeyValue>) {
    let actual: Vec<_> = actual.cloned().collect();
    assert!(actual.contains(&KeyValue::new("route", "/items")));
    assert!(actual.contains(&KeyValue::new("cached", true)));
    assert!(actual.contains(&KeyValue::new("status", 201_i64)));
    assert!(actual.contains(&KeyValue::new("ratio", 0.75_f64)));
}

/// Callback states that were handed over as numbers.
struct States {
    next: usize,
    held: HashMap<usize, Arc<AtomicUsize>>,
}

impl States {
    fn new() -> Self {
        States {
            next: 1,
            held: HashMap::new(),
        }
    }

    fn callback_config(
        &mut self,
        count: &Arc<AtomicUsize>,
        kind: Kind,
        number: NumberKind,
        name: &'static str,
    ) -> OtelMetricInstrumentConfig<'static> {
        let state = self.next;
        self.next += 1;
        self.held.insert(state, Arc::clone(count));
        let mut config = config(kind, number, name);
        config.callback = Some(OBSERVE);
        config.callback_state = state;
        config.callback_state_free = Some(RELEASE);
        config
    }

    /// Takes what a lease owns; dropping it is the release.
    fn own(&mut self, lease: CallbackLease) -> Arc<AtomicUsize> {
        assert_eq!(lease.release, RELEASE);
        self.held.remove(&lease.state).expect("state owned once")
    }
}

enum Inner {
    CounterU64(Counter<u64>),
    CounterF64(Counter<f64>),
    UpDownI64(UpDownCounter<i64>),
    UpDownF64(UpDownCounter<f64>),
    GaugeU64(Gauge<u64>),
    GaugeI64(Gauge<i64>),
    GaugeF64(Gauge<f64>),
    HistogramU64(Histogram<u64>),
    HistogramF64(Histogram<f64>),
    ObservableCounterU64(#[allow(dead_code)] ObservableCounter<u64>),
    ObservableCounterF64(#[allow(dead_code)] ObservableCounter<f64>),
    ObservableUpDownI64(#[allow(dead_code)] ObservableUpDownCounter<i64>),
    ObservableUpDownF64(#[allow(dead_code)] ObservableUpDownCounter<f64>),
    ObservableGaugeU64(#[allow(dead_code)] ObservableGauge<u64>),
    ObservableGaugeI64(#[allow(dead_code)] ObservableGauge<i64>),
    ObservableGaugeF64(#[allow(dead_code)] ObservableGauge<f64>),
}

struct Instrument {
    which: SdkMetricInstrument,
    inner: Inner,
}

fn observed(count: &AtomicUsize) {
    count.fetch_add(1, Ordering::SeqCst);
    let mut errors = ErrorState::new();
    assert_eq!(
        observer_observe(&mut errors, true, Ok(())),
        OtelStatus::Success
    );
}

fn build(meter: &Meter, plan: InstrumentPlan, states: &mut States) -> Instrument {
    let which = instrument_for(plan.kind, plan.number).expect("supported combination");
    let name = plan.name;
    let description = plan.description.unwrap_or_default();
    let unit = plan.unit.unwrap_or_default();
    let boundaries = plan
        .boundaries
        .map(|bits| bits.into_iter().map(f64::from_bits).collect::<Vec<_>>());
    let count = plan.observable.map(|(callback, lease)| {
        assert_eq!(callback, OBSERVE);
        states.own(lease)
    });
    let inner = match (plan.kind, plan.number) {
        (Kind::Counter, NumberKind::U64) => Inner::CounterU64(
            meter
                .u64_counter(name)
                .with_description(description)
                .with_unit(unit)
                .build(),
        ),
        (Kind::Counter, NumberKind::F64) => Inner::CounterF64(
            meter
                .f64_counter(name)
                .with_description(description)
                .with_unit(unit)
                .build(),
        ),
        (Kind::UpDownCounter, NumberKind::I64) => Inner::UpDownI64(
            meter
                .i64_up_down_counter(name)
                .with_description(description)
                .with_unit(unit)
                .build(),
        ),
        (Kind::UpDownCounter, NumberKind::F64) => Inner::UpDownF64(
            meter
                .f64_up_down_counter(name)
                .with_description(description)
                .with_unit(unit)
                .build(),
        ),
        (Kind::Gauge, NumberKind::U64) => Inner::GaugeU64(
            meter
                .u64_gauge(name)
                .with_description(description)
                .with_unit(unit)
                .build(),
        ),
        (Kind::Gauge, NumberKind::I64) => Inner::GaugeI64(
            meter
                .i64_gauge(name)
                .with_description(description)
                .with_unit(unit)
                .build(),
        ),
        (Kind::Gauge, NumberKind::F64) => Inner::GaugeF64(
            meter
                .f64_gauge(name)
                .with_description(description)
                .with_unit(unit)
                .build(),
        ),
        (Kind::Histogram, NumberKind::U64) => {
            let mut builder = meter
                .u64_histogram(name)
                .with_description(description)
                .with_unit(unit);
            if let Some(boundaries) = boundaries {
                builder = builder.with_boundaries(boundaries);
            }
            Inner::HistogramU64(builder.build())
        }
        (Kind::Histogram, NumberKind::F64) => {
            let mut builder = meter
                .f64_histogram(name)
                .with_description(description)
                .with_unit(unit);
            if let Some(boundaries) = boundaries {
                builder = builder.with_boundaries(boundaries);
            }
            Inner::HistogramF64(builder.build())
        }
        (Kind::ObservableCounter, NumberKind::U64) => {
            let count = count.expect("callback state");
            Inner::ObservableCounterU64(
                meter
                    .u64_observable_counter(name)
                    .with_callback(move |observer| {
                        observed(&count);
                        observer.observe(9, &[])
                    })
                    .build(),
            )
        }
        (Kind::ObservableCounter, NumberKind::F64) => {
            let count = count.expect("callback state");
            Inner::ObservableCounterF64(
                meter
                    .f64_observable_counter(name)
                    .with_callback(move |observer| {
                        observed(&count);
                        observer.observe(9.5, &[])
                    })
                    .build(),
            )
        }
        (Kind::ObservableUpDownCounter, NumberKind::I64) => {
            let count = count.expect("callback state");
            Inner::ObservableUpDownI64(
                meter
                    .i64_observable_up_down_counter(name)
                    .with_callback(move |observer| {
                        observed(&count);
                        observer.observe(-9, &[])
                    })
                    .build(),
            )
        }
        (Kind::ObservableUpDownCounter, NumberKind::F64) => {
            let count = count.expect("callback state");
            Inner::ObservableUpDownF64(
                meter
                    .f64_observable_up_down_counter(name)
                    .with_callback(move |observer| {
                        observed(&count);
                        observer.observe(9.5, &[])
                    })
                    .build(),
            )
        }
        (Kind::ObservableGauge, NumberKind::U64) => {
            let count = count.expect("callback state");
            Inner::ObservableGaugeU64(
                meter
                    .u64_observable_gauge(name)
                    .with_callback(move |observer| {
                        observed(&count);
                        observer.observe(9, &[])
                    })
                    .build(),
            )
        }
        (Kind::ObservableGauge, NumberKind::I64) => {
            let count = count.expect("callback state");
            Inner::ObservableGaugeI64(
                meter
                    .i64_observable_gauge(name)
                    .with_callback(move |observer| {
                        observed(&count);
                        observer.observe(-9, &[])
                    })
                    .build(),
            )
        }
        (Kind::ObservableGauge, NumberKind::F64) => {
            let count = count.expect("callback state");
            Inner::ObservableGaugeF64(
                meter
                    .f64_observable_gauge(name)
                    .with_callback(move |observer| {
                        observed(&count);
                        observer.observe(9.5, &[])
                    })
                    .build(),
            )
        }
        _ => panic!("unsupported combination"),
    };
    Instrument { which, inner }
}

fn create(
    meter: &Meter,
    config: &OtelMetricInstrumentConfig<'_>,
    states: &mut States,
) -> Instrument {
    let mut errors = ErrorState::new();
    let creation = meter_create_instrument_with_status(&mut errors, true, Some(config));
    assert!(creation.released.is_none());
    build(meter, creation.outcome.expect("plan"), states)
}

impl Instrument {
    fn decide(&self, number: NumberKind) -> RecordOperation {
        let mut errors = ErrorState::new();
        instrument_record(&mut errors, Some(self.which), number, Ok(())).expect("operation")
    }

    fn record_u64(&self, value: u64, attributes: &[KeyValue]) {
        match (self.decide(NumberKind::U64), &self.inner) {
            (RecordOperation::Add, Inner::CounterU64(i)) => i.add(value, attributes),
            (RecordOperation::Record, Inner::GaugeU64(i)) => i.record(value, attributes),
            (RecordOperation::Record, Inner::HistogramU64(i)) => i.record(value, attributes),
            _ => panic!("wrong operation"),
        }
    }

    fn record_i64(&self, value: i64, attributes: &[KeyValue]) {
        match (self.decide(NumberKind::I64), &self.inner) {
            (RecordOperation::Add, Inner::UpDownI64(i)) => i.add(value, attributes),
            (RecordOperation::Record, Inner::GaugeI64(i)) => i.record(value, attributes),
            _ => panic!("wrong operation"),
        }
    }

    fn record_f64(&self, value: f64, attributes: &[KeyValue]) {
        match (self.decide(NumberKind::F64), &self.inner) {
            (RecordOperation::Add, Inner::CounterF64(i)) => i.add(value, attributes),
            (RecordOperation::Add, Inner::UpDownF64(i)) => i.add(value, attributes),
            (RecordOperation::Record, Inner::GaugeF64(i)) => i.record(value, attributes),
            (RecordOperation::Record, Inner::HistogramF64(i)) => i.record(value, attributes),
            _ => panic!("wrong operation"),
        }
    }
}

fn scope_meter(provider: &SdkMeterProvider, name: &'static str) -> Meter {
    let mut errors = ErrorState::new();
    let scope = provider_get_meter(
        &mut errors,
        true,
        sv(name),
        OtelStringView::empty(),
        OtelStringView::empty(),
    )
    .expect("scope");
    assert!(scope.version.is_none());
    assert!(scope.schema_url.is_none());
    provider.meter_with_scope(
        opentelemetry::InstrumentationScope::builder(scope.name).build(),
    )
}

fn pipeline() -> (InMemoryMetricExporter, SdkMeterProvider) {
    let exporter = InMemoryMetricExporter::default();
    let reader = PeriodicReader::builder(exporter.clone()).build();
    let provider = SdkMeterProvider::builder().with_reader(reader).build();
    (exporter, provider)
}

#[test]
fn synchronous_family_records_through_rust_sdk() {
    let (exporter, provider) = pipeline();
    let meter = scope_meter(&provider, "scope");
    let mut states = States::new();
    let cases = [
        (Kind::Counter, NumberKind::U64, "counter_u64"),
        (Kind::Counter, NumberKind::F64, "counter_f64"),
        (Kind::UpDownCounter, NumberKind::I64, "up_down_i64"),
        (Kind::UpDownCounter, NumberKind::F64, "up_down_f64"),
        (Kind::Gauge, NumberKind::U64, "gauge_u64"),
        (Kind::Gauge, NumberKind::I64, "gauge_i64"),
        (Kind::Gauge, NumberKind::F64, "gauge_f64"),
        (Kind::Histogram, NumberKind::U64, "histogram_u64"),
        (Kind::Histogram, NumberKind::F64, "histogram_f64"),
    ];
    let mut instruments = Vec::new();
    for (kind, number, name) in cases {
        let instrument = create(&meter, &config(kind, number, name), &mut states);
        match number {
            NumberKind::U64 => instrument.record_u64(3, &[]),
            NumberKind::I64 => instrument.record_i64(-3, &[]),
            NumberKind::F64 => instrument.record_f64(3.5, &[]),
        }
        instruments.push(instrument);
    }

    provider.force_flush().unwrap();
    let metrics = exporter.get_finished_metrics().unwrap();
    let names: Vec<_> = metrics
        .iter()
        .flat_map(|resource| resource.scope_metrics())
        .flat_map(|scope| scope.metrics())
        .map(|metric| metric.name())
        .collect();
    for (_, _, name) in cases {
        assert!(names.contains(&name), "missing {name}: {names:?}");
    }
    drop(instruments);
    provider.shutdown().unwrap();
}

enum Bound {
    Counter(BoundCounter<u64>),
    Histogram(BoundHistogram<f64>),
}

fn bind(instrument: &Instrument, attributes: &[KeyValue]) -> (SdkBoundMetricInstrument, Bound) {
    let mut errors = ErrorState::new();
    let mut status = OtelStatus::Success;
    let which = instrument_bind(
        &mut errors,
        Some(instrument.which),
        Ok(()),
        Some(&mut status),
    )
    .expect("bound instrument");
    assert_eq!(status, OtelStatus::Success);
    let bound = match (which, &instrument.inner) {
        (SdkBoundMetricInstrument::CounterU64, Inner::CounterU64(counter)) => {
            Bound::Counter(counter.bind(attributes))
        }
        (SdkBoundMetricInstrument::HistogramF64, Inner::HistogramF64(histogram)) => {
            Bound::Histogram(histogram.bind(attributes))
        }
        _ => panic!("unexpected instrument"),
    };
    (which, bound)
}

#[test]
fn bound_counter_and_histogram_record_prebound_attributes() {
    let (exporter, provider) = pipeline();
    let meter = scope_meter(&provider, "bound_scope");
    let mut states = States::new();
    let mut errors = ErrorState::new();
    let attributes = [KeyValue::new("route", "/bound")];

    let counter = create(
        &meter,
        &config(Kind::Counter, NumberKind::U64, "bound_counter"),
        &mut states,
    );
    let (which, bound_counter) = bind(&counter, &attributes);
    // A bound upstream instrument owns everything needed to outlive this wrapper.
    drop(counter);
    for value in [3, 4] {
        assert_eq!(
            bound_instrument_record(&mut errors, Some(which), NumberKind::U64),
            Ok(RecordOperation::Add)
        );
        match &bound_counter {
            Bound::Counter(counter) => counter.add(value),
            Bound::Histogram(_) => panic!("expected a counter"),
        }
    }

    let histogram = create(
        &meter,
        &config(Kind::Histogram, NumberKind::F64, "bound_histogram"),
        &mut states,
    );
    let (which, bound_histogram) = bind(&histogram, &attributes);
    drop(histogram);
    assert_eq!(
        bound_instrument_record(&mut errors, Some(which), NumberKind::F64),
        Ok(RecordOperation::Record)
    );
    match &bound_histogram {
        Bound::Histogram(histogram) => histogram.record(2.5),
        Bound::Counter(_) => panic!("expected a histogram"),
    }

    provider.force_flush().unwrap();
    let metrics = exporter.get_finished_metrics().unwrap();
    match metric(&metrics, "bound_counter").data() {
        AggregatedMetrics::U64(MetricData::Sum(sum)) => {
            let point = sum.data_points().next().unwrap();
            assert_eq!(point.value(), 7);
            assert_eq!(
                point.attributes().cloned().collect::<Vec<_>>(),
                vec![KeyValue::new("route", "/bound")]
            );
        }
        other => panic!("unexpected counter aggregation: {other:?}"),
    }
    match metric(&metrics, "bound_histogram").data() {
        AggregatedMetrics::F64(MetricData::Histogram(histogram)) => {
            let point = histogram.data_points().next().unwrap();
            assert_eq!(point.count(), 1);
            assert_eq!(point.sum(), 2.5);
            assert_eq!(
                point.attributes().cloned().collect::<Vec<_>>(),
                vec![KeyValue::new("route", "/bound")]
            );
        }
        other => panic!("unexpected histogram aggregation: {other:?}"),
    }
    provider.shutdown().unwrap();
}

#[test]
fn synchronous_values_metadata_attributes_and_scope_are_exported() {
    let (exporter, provider) = pipeline();
    let mut errors = ErrorState::new();
    let mut states = States::new();
    let scope_config = OtelScopeConfig {
        name: sv("semantic_scope"),
        version: sv("2.1.0"),
        schema_url: sv("https://example.test/schema"),
    };
    let scope =
        provider_get_meter_with_scope(&mut errors, true, Some(&scope_config)).expect("scope");
    let scope = with_scope_attributes(
        scope,
        Ok(vec![
            (
                "scope.component".to_owned(),
                Value::String("checkout".to_owned()),
            ),
            ("scope.stable".to_owned(), Value::Bool(true)),
        ]),
    )
    .expect("scope");
    let mut builder = opentelemetry::InstrumentationScope::builder(scope.name);
    if let Some(version) = scope.version {
        builder = builder.with_version(version);
    }
    if let Some(schema_url) = scope.schema_url {
        builder = builder.with_schema_url(schema_url);
    }
    let attributes: Vec<_> = scope
        .attributes
        .into_iter()
        .map(|(key, value)| match value {
            Value::String(text) => KeyValue::new(key, text),
            Value::Bool(flag) => KeyValue::new(key, flag),
            other => panic!("unexpected value {other:?}"),
        })
        .collect();
    let meter = provider.meter_with_scope(builder.with_attributes(attributes).build());

    let attributes = [
        KeyValue::new("route", "/items"),
        KeyValue::new("cached", true),
        KeyValue::new("status", 201_i64),
        KeyValue::new("ratio", 0.75_f64),
    ];
    let boundaries = [1.0, 5.0, 10.0];
    let boundary_bits = boundaries.map(f64::to_bits);
    let mut new = |kind: Kind, number: NumberKind, name: &'static str, histogram: bool| {
        let mut config = config(kind, number, name);
        config.description = sv("semantic description");
        config.unit = sv("widgets");
        if histogram {
            config.boundaries = OtelArrayView::Data(&boundary_bits);
        }
        create(&meter, &config, &mut states)
    };

    let counter_u64 = new(Kind::Counter, NumberKind::U64, "value_counter_u64", false);
    counter_u64.record_u64(3, &attributes);
    counter_u64.record_u64(4, &attributes);
    let counter_f64 = new(Kind::Counter, NumberKind::F64, "value_counter_f64", false);
    counter_f64.record_f64(1.25, &[]);
    counter_f64.record_f64(2.5, &[]);
    let up_down_i64 = new(Kind::UpDownCounter, NumberKind::I64, "value_up_down_i64", false);
    up_down_i64.record_i64(5, &[]);
    up_down_i64.record_i64(-8, &[]);
    let up_down_f64 = new(Kind::UpDownCounter, NumberKind::F64, "value_up_down_f64", false);
    up_down_f64.record_f64(4.5, &[]);
    up_down_f64.record_f64(-1.25, &[]);
    let gauge_u64 = new(Kind::Gauge, NumberKind::U64, "value_gauge_u64", false);
    gauge_u64.record_u64(10, &[]);
    gauge_u64.record_u64(3, &[]);
    let gauge_i64 = new(Kind::Gauge, NumberKind::I64, "value_gauge_i64", false);
    gauge_i64.record_i64(4, &[]);
    gauge_i64.record_i64(-2, &[]);
    let gauge_f64 = new(Kind::Gauge, NumberKind::F64, "value_gauge_f64", false);
    gauge_f64.record_f64(8.0, &[]);
    gauge_f64.record_f64(2.25, &[]);
    let histogram_u64 = new(Kind::Histogram, NumberKind::U64, "value_histogram_u64", true);
    for value in [0, 3, 7, 12] {
        histogram_u64.record_u64(value, &[]);
    }
    let histogram_f64 = new(Kind::Histogram, NumberKind::F64, "value_histogram_f64", true);
    for value in [2.5, 6.5] {
        histogram_f64.record_f64(value, &[]);
    }

    provider.force_flush().unwrap();
    let metrics = exporter.get_finished_metrics().unwrap();
    let scope = metrics
        .iter()
        .flat_map(|resource| resource.scope_metrics())
        .find(|scope| scope.scope().name() == "semantic_scope")
        .expect("semantic scope");
    assert_eq!(scope.scope().version(), Some("2.1.0"));
    assert_eq!(
        scope.scope().schema_url(),
        Some("https://example.test/schema")
    );
    assert_eq!(
        scope.scope().attributes().cloned().collect::<Vec<_>>(),
        vec![
            KeyValue::new("scope.component", "checkout"),
            KeyValue::new("scope.stable", true),
        ]
    );
    for metric in scope.metrics() {
        assert_eq!(metric.description(), "semantic description");
        assert_eq!(metric.unit(), "widgets");
    }

    match metric(&metrics, "value_counter_u64").data() {
        AggregatedMetrics::U64(MetricData::Sum(sum)) => {
            assert!(sum.is_monotonic());
            let point = sum.data_points().next().unwrap();
            assert_eq!(point.value(), 7);
            assert_attributes(point.attributes());
        }
        data => panic!("unexpected counter data: {data:?}"),
    }
    match metric(&metrics, "value_counter_f64").data() {
        AggregatedMetrics::F64(MetricData::Sum(sum)) => {
            assert!(sum.is_monotonic());
            assert_eq!(sum.data_points().next().unwrap().value(), 3.75);
        }
        data => panic!("unexpected counter data: {data:?}"),
    }
    match metric(&metrics, "value_up_down_i64").data() {
        AggregatedMetrics::I64(MetricData::Sum(sum)) => {
            assert!(!sum.is_monotonic());
            assert_eq!(sum.data_points().next().unwrap().value(), -3);
        }
        data => panic!("unexpected up-down data: {data:?}"),
    }
    match metric(&metrics, "value_up_down_f64").data() {
        AggregatedMetrics::F64(MetricData::Sum(sum)) => {
            assert!(!sum.is_monotonic());
            assert_eq!(sum.data_points().next().unwrap().value(), 3.25);
        }
        data => panic!("unexpected up-down data: {data:?}"),
    }
    match metric(&metrics, "value_gauge_u64").data() {
        AggregatedMetrics::U64(MetricData::Gauge(gauge)) => {
            assert_eq!(gauge.data_points().next().unwrap().value(), 3);
        }
        data => panic!("unexpected gauge data: {data:?}"),
    }
    match metric(&metrics, "value_gauge_i64").data() {
        AggregatedMetrics::I64(MetricData::Gauge(gauge)) => {
            assert_eq!(gauge.data_points().next().unwrap().value(), -2);
        }
        data => panic!("unexpected gauge data: {data:?}"),
    }
    match metric(&metrics, "value_gauge_f64").data() {
        AggregatedMetrics::F64(MetricData::Gauge(gauge)) => {
            assert_eq!(gauge.data_points().next().unwrap().value(), 2.25);
        }
        data => panic!("unexpected gauge data: {data:?}"),
    }
    match metric(&metrics, "value_histogram_u64").data() {
        AggregatedMetrics::U64(MetricData::Histogram(histogram)) => {
            let point = histogram.data_points().next().unwrap();
            assert_eq!(point.count(), 4);
            assert_eq!(point.sum(), 22);
            assert_eq!(point.min(), Some(0));
            assert_eq!(point.max(), Some(12));
            assert_eq!(point.bounds().collect::<Vec<_>>(), boundaries);
            assert_eq!(point.bucket_counts().collect::<Vec<_>>(), [1, 1, 1, 1]);
        }
        data => panic!("unexpected histogram data: {data:?}"),
    }
    match metric(&metrics, "value_histogram_f64").data() {
        AggregatedMetrics::F64(MetricData::Histogram(histogram)) => {
            let point = histogram.data_points().next().unwrap();
            assert_eq!(point.count(), 2);
            assert_eq!(point.sum(), 9.0);
            assert_eq!(point.min(), Some(2.5));
            assert_eq!(point.max(), Some(6.5));
            assert_eq!(point.bounds().collect::<Vec<_>>(), boundaries);
            assert_eq!(point.bucket_counts().collect::<Vec<_>>(), [0, 1, 1, 0]);
        }
        data => panic!("unexpected histogram data: {data:?}"),
    }
    provider.shutdown().unwrap();
}

#[test]
fn observable_family_dispatches_each_number_kind() {
    let (exporter, provider) = pipeline();
    let meter = scope_meter(&provider, "observable_scope");
    let mut states = States::new();
    let cases = [
        (Kind::ObservableCounter, NumberKind::U64, "observable_counter_u64"),
        (Kind::ObservableCounter, NumberKind::F64, "observable_counter_f64"),
        (Kind::ObservableUpDownCounter, NumberKind::I64, "observable_up_down_i64"),
        (Kind::ObservableUpDownCounter, NumberKind::F64, "observable_up_down_f64"),
        (Kind::ObservableGauge, NumberKind::U64, "observable_gauge_u64"),
        (Kind::ObservableGauge, NumberKind::I64, "observable_gauge_i64"),
        (Kind::ObservableGauge, NumberKind::F64, "observable_gauge_f64"),
    ];
    let count = Arc::new(AtomicUsize::new(0));
    let mut instruments = Vec::new();
    for (kind, number, name) in cases {
        let config = states.callback_config(&count, kind, number, name);
        instruments.push(create(&meter, &config, &mut states));
    }

    provider.force_flush().unwrap();
    assert_eq!(count.load(Ordering::SeqCst), cases.len());
    let metrics = exporter.get_finished_metrics().unwrap();
    for (kind, number, name) in cases {
        match (kind, number, metric(&metrics, name).data()) {
            (
                Kind::ObservableCounter,
                NumberKind::U64,
                AggregatedMetrics::U64(MetricData::Sum(sum)),
            ) => {
                assert!(sum.is_monotonic());
                assert_eq!(sum.data_points().next().unwrap().value(), 9);
            }
            (
                Kind::ObservableCounter,
                NumberKind::F64,
                AggregatedMetrics::F64(MetricData::Sum(sum)),
            ) => {
                assert!(sum.is_monotonic());
                assert_eq!(sum.data_points().next().unwrap().value(), 9.5);
            }
            (
                Kind::ObservableUpDownCounter,
                NumberKind::I64,
                AggregatedMetrics::I64(MetricData::Sum(sum)),
            ) => {
                assert!(!sum.is_monotonic());
                assert_eq!(sum.data_points().next().unwrap().value(), -9);
            }
            (
                Kind::ObservableUpDownCounter,
                NumberKind::F64,
                AggregatedMetrics::F64(MetricData::Sum(sum)),
            ) => {
                assert!(!sum.is_monotonic());
                assert_eq!(sum.data_points().next().unwrap().value(), 9.5);
            }
            (
                Kind::ObservableGauge,
                NumberKind::U64,
                AggregatedMetrics::U64(MetricData::Gauge(gauge)),
            ) => assert_eq!(gauge.data_points().next().unwrap().value(), 9),
            (
                Kind::ObservableGauge,
                NumberKind::I64,
                AggregatedMetrics::I64(MetricData::Gauge(gauge)),
            ) => assert_eq!(gauge.data_points().next().unwrap().value(), -9),
            (
                Kind::ObservableGauge,
                NumberKind::F64,
                AggregatedMetrics::F64(MetricData::Gauge(gauge)),
            ) => assert_eq!(gauge.data_points().next().unwrap().value(), 9.5),
            (_, _, data) => panic!("unexpected observable data for {name}: {data:?}"),
        }
    }

    drop(instruments);
    drop(meter);
    provider.shutdown().unwrap();
    drop(provider);
    assert_eq!(Arc::strong_count(&count), 1);
}

#[test]
fn multiple_readers_collect_independently_and_invoke_observables() {
    let first_exporter = InMemoryMetricExporter::default();
    let second_exporter = InMemoryMetricExporter::default();
    let provider = SdkMeterProvider::builder()
        .with_reader(PeriodicReader::builder(first_exporter.clone()).build())
        .with_reader(PeriodicReader::builder(second_exporter.clone()).build())
        .build();
    let meter = scope_meter(&provider, "multiple_readers");
    let mut states = States::new();
    let count = Arc::new(AtomicUsize::new(0));
    let observable_config = states.callback_config(
        &count,
        Kind::ObservableGauge,
        NumberKind::U64,
        "reader_observable",
    );
    let observable = create(&meter, &observable_config, &mut states);
    let counter = create(
        &meter,
        &config(Kind::Counter, NumberKind::U64, "reader_counter"),
        &mut states,
    );
    counter.record_u64(6, &[]);

    provider.force_flush().unwrap();
    assert_eq!(count.load(Ordering::SeqCst), 2);
    for exporter in [&first_exporter, &second_exporter] {
        let metrics = exporter.get_finished_metrics().unwrap();
        match metric(&metrics, "reader_counter").data() {
            AggregatedMetrics::U64(MetricData::Sum(sum)) => {
                assert_eq!(sum.data_points().next().unwrap().value(), 6);
            }
            data => panic!("unexpected counter data: {data:?}"),
        }
        match metric(&metrics, "reader_observable").data() {
            AggregatedMetrics::U64(MetricData::Gauge(gauge)) => {
                assert_eq!(gauge.data_points().next().unwrap().value(), 9);
            }
            data => panic!("unexpected observable data: {data:?}"),
        }
    }

    drop(observable);
    drop(counter);
    drop(meter);
    provider.shutdown().unwrap();
    drop(provider);
    assert_eq!(Arc::strong_count(&count), 1);
}

#[test]
fn null_config_is_rejected_without_dereference() {
    let mut errors = ErrorState::new();
    let creation = meter_create_instrument_with_status(&mut errors, false, None);
    assert_eq!(creation.outcome.err(), Some(OtelStatus::InvalidArgument));
    assert!(creation.released.is_none());
    assert_eq!(errors.last_status, OtelStatus::InvalidArgument);
}

#[test]
fn null_meter_releases_transferred_callback_state_once() {
    let mut errors = ErrorState::new();
    let mut states = States::new();
    let count = Arc::new(AtomicUsize::new(0));
    let config = states.callback_config(
        &count,
        Kind::ObservableGauge,
        NumberKind::U64,
        "null_meter",
    );
    let creation = meter_create_instrument_with_status(&mut errors, false, Some(&config));
    assert!(creation.outcome.is_err());
    drop(states.own(creation.released.expect("released lease")));
    assert_eq!(Arc::strong_count(&count), 1);
}

#[test]
fn validation_failure_releases_transferred_callback_state_once() {
    let mut errors = ErrorState::new();
    let mut states = States::new();
    let count = Arc::new(AtomicUsize::new(0));
    let mut config = states.callback_config(
        &count,
        Kind::ObservableGauge,
        NumberKind::U64,
        "invalid_kind",
    );
    config.kind = u32::MAX;
    let creation = meter_create_instrument_with_status(&mut errors, true, Some(&config));
    assert!(creation.outcome.is_err());
    drop(states.own(creation.released.expect("released lease")));
    assert_eq!(Arc::strong_count(&count), 1);
}

#[test]
fn observable_callback_is_collected_and_state_outlives_handle() {
    let (exporter, provider) = pipeline();
    let meter = scope_meter(&provider, "scope");
    let mut states = States::new();
    let count = Arc::new(AtomicUsize::new(0));
    let config = states.callback_config(
        &count,
        Kind::ObservableGauge,
        NumberKind::U64,
        "observable",
    );
    let instrument = create(&meter, &config, &mut states);
    drop(instrument);

    provider.force_flush().unwrap();
    assert!(count.load(Ordering::SeqCst) >= 1);
    assert!(exporter
        .get_finished_metrics()
        .unwrap()
        .iter()
        .flat_map(|resource| resource.scope_metrics())
        .flat_map(|scope| scope.metrics())
        .any(|metric| metric.name() == "observable"));

    drop(meter);
    provider.shutdown().unwrap();
    drop(provider);
    assert_eq!(Arc::strong_count(&count), 1);
}

#[test]
fn every_refusal_of_an_instrument_has_its_diagnostic() {
    let refuse = |config: OtelMetricInstrumentConfig<'_>| {
        let mut errors = ErrorState::new();
        let creation = meter_create_instrument_with_status(&mut errors, true, Some(&config));
        let status = creation.outcome.err().expect("refusal");
        assert_eq!(errors.last_status, status);
        (status, errors.message)
    };
    let base = || config(Kind::Counter, NumberKind::U64, "n");
    let mut bad = base();
    bad.number = 3;
    assert_eq!(
        refuse(bad),
        (
            OtelStatus::InvalidArgument,
            "unknown metric number kind".to_owned()
        )
    );
    let mut bad = base();
    bad.kind = 7;
    assert_eq!(
        refuse(bad),
        (
            OtelStatus::InvalidArgument,
            "unknown metric instrument kind".to_owned()
        )
    );
    let mut bad = base();
    bad.name = OtelStringView {
        bytes: Some(&[0xFF]),
    };
    assert_eq!(refuse(bad).0, OtelStatus::InvalidUtf8);
    let mut bad = base();
    bad.unit = OtelStringView { bytes: None };
    assert_eq!(refuse(bad).0, OtelStatus::InvalidArgument);
    let mut bad = base();
    bad.boundaries = OtelArrayView::Null(2);
    assert_eq!(
        refuse(bad),
        (
            OtelStatus::InvalidArgument,
            "histogram boundaries are NULL with non-zero count".to_owned()
        )
    );
    assert_eq!(
        refuse(config(Kind::Counter, NumberKind::I64, "n")),
        (
            OtelStatus::InvalidConfig,
            "unsupported metric instrument kind and number combination".to_owned()
        )
    );
    assert_eq!(
        refuse(config(Kind::ObservableGauge, NumberKind::I64, "n")).1,
        "observable callback is NULL"
    );
    let mut bad = config(Kind::ObservableGauge, NumberKind::I64, "n");
    bad.callback = Some(OBSERVE);
    assert_eq!(refuse(bad).1, "observable callback state is missing");
    let mut bad = base();
    bad.callback_state = 4;
    assert_eq!(
        refuse(bad).1,
        "observable callback state release function is NULL"
    );
    let mut bad = base();
    bad.callback_state_free = Some(RELEASE);
    assert_eq!(refuse(bad).1, "observable callback state is NULL");
}

#[test]
fn instruments_refuse_other_numbers() {
    let mut errors = ErrorState::new();
    assert_eq!(
        instrument_record(
            &mut errors,
            Some(SdkMetricInstrument::CounterU64),
            NumberKind::F64,
            Ok(())
        )
        .err(),
        Some(OtelStatus::InvalidArgument)
    );
    assert!(instrument_record(&mut errors, None, NumberKind::U64, Ok(())).is_err());
    assert_eq!(
        instrument_record(
            &mut errors,
            Some(SdkMetricInstrument::CounterU64),
            NumberKind::U64,
            Err(OtelStatus::InvalidUtf8)
        )
        .err(),
        Some(OtelStatus::InvalidUtf8)
    );
    let mut status = OtelStatus::Success;
    assert!(instrument_bind(
        &mut errors,
        Some(SdkMetricInstrument::GaugeU64),
        Ok(()),
        Some(&mut status)
    )
    .is_none());
    assert_ne!(status, OtelStatus::Success);
    assert!(bound_instrument_record(
        &mut errors,
        Some(SdkBoundMetricInstrument::CounterU64),
        NumberKind::F64
    )
    .is_err());
    assert!(bound_instrument_record(&mut errors, None, NumberKind::U64).is_err());
    assert_ne!(
        observer_observe(&mut errors, false, Ok(())),
        OtelStatus::Success
    );
}

#[test]
fn panics_in_the_sdk_are_internal_errors() {
    let mut errors = ErrorState::new();
    assert_eq!(creation_panicked(&mut errors), OtelStatus::InternalError);
    assert_eq!(errors.message, "metric instrument creation panicked");
    assert_eq!(binding_panicked(&mut errors), OtelStatus::InternalError);
    assert_eq!(errors.last_status, OtelStatus::InternalError);
}

#[test]
fn scopes_leave_out_what_is_empty_and_refuse_what_is_unreadable() {
    let mut errors = ErrorState::new();
    let unreadable = OtelScopeConfig {
        name: OtelStringView {
            bytes: Some(&[0xFF]),
        },
        version: OtelStringView::empty(),
        schema_url: OtelStringView::empty(),
    };
    assert!(provider_get_meter_with_scope(&mut errors, true, Some(&unreadable)).is_none());
    assert_eq!(errors.last_status, OtelStatus::InvalidUtf8);
    let fine = OtelScopeConfig {
        name: sv("s"),
        ..unreadable
    };
    assert!(provider_get_meter_with_scope(&mut errors, false, Some(&fine)).is_none());
    assert!(provider_get_meter_with_scope(&mut errors, true, None).is_none());
    let scope = provider_get_meter_with_scope(&mut errors, true, Some(&fine)).expect("scope");
    assert!(with_scope_attributes(scope, Err(OtelStatus::InvalidUtf8)).is_none());
}
