use std::sync::{Arc, Mutex, Weak};
use std::time::{SystemTime as StdSystemTime, UNIX_EPOCH};

use opentelemetry::metrics::MeterProvider as _;
use opentelemetry::KeyValue;
use opentelemetry_sdk::error::OTelSdkError as Theirs;
use opentelemetry_sdk::metrics as sdk_metrics;
use opentelemetry_sdk::metrics::data;
use opentelemetry_sdk::metrics::reader::MetricReader;

use opentelemetry_c_sdk::abi::OtelStatus;
use opentelemetry_c_sdk::callback::{CallbackStep, ReleasePlan, ShutdownStep};
use opentelemetry_c_sdk::custom_metric_exporter::{
    otel_custom_metric_exporter_new, CustomMetricExporter, MetricExportStep,
    OtelCustomMetricExporterCallbacks,
};
use opentelemetry_c_sdk::error::{
    status_from_export_pipeline_error, ErrorState, OTelSdkError, OTelSdkResult,
};
use opentelemetry_c_sdk::features::Features;
use opentelemetry_c_sdk::log_export::InstrumentationScope;
use opentelemetry_c_sdk::log_flatten::{Array, Value};
use opentelemetry_c_sdk::manual_metric_reader::{
    otel_manual_metric_reader_destroy, otel_manual_metric_reader_new, shutdown_result, FlushPhase,
    FlushStep, ManualMetricReader, OtelManualMetricReader, ReaderShutdown,
};
use opentelemetry_c_sdk::metric_batch::{active_batch, ActiveBatches, MetricBatchRegistration};
use opentelemetry_c_sdk::metric_data::{
    Buckets, Exemplar, ExponentialPoint, HistogramPoint, Metric, MetricData, NumberKind,
    NumberPoint, OtelMetricNumber, ResourceMetrics, ScopeMetrics, Temporality,
};
use opentelemetry_c_sdk::metric_exporter::{
    otel_metric_exporter_destroy, MetricExporterImpl, MetricRelease, OtelMetricExporter,
};
use opentelemetry_c_sdk::metric_visit::{
    convert_attribute_parts, otel_metric_batch_visit, OtelAttributeValue, OtelMetricArrayView,
    OtelMetricAttributeValue, OtelMetricVisitor, VisitEnd, VisitEvent, VisitStep, OTEL_METRIC_ATTRIBUTE_BOOL_ARRAY,
    OTEL_METRIC_ATTRIBUTE_STRING, OTEL_METRIC_DATA_EXPONENTIAL_HISTOGRAM,
    OTEL_METRIC_DATA_HISTOGRAM, OTEL_METRIC_DATA_SUM, OTEL_METRIC_NUMBER_F64,
    OTEL_METRIC_NUMBER_I64, OTEL_METRIC_NUMBER_U64, OTEL_METRIC_TEMPORALITY_CUMULATIVE,
    OTEL_METRIC_TEMPORALITY_DELTA,
};
use opentelemetry_c_sdk::periodic_metric_reader::{
    otel_periodic_metric_reader_builder_build, otel_periodic_metric_reader_builder_destroy,
    otel_periodic_metric_reader_builder_new, otel_periodic_metric_reader_builder_set_exporter,
    otel_periodic_metric_reader_builder_set_interval_millis, otel_periodic_metric_reader_destroy,
    OtelPeriodicMetricReader, OtelPeriodicMetricReaderBuilder,
};
use opentelemetry_c_sdk::time::{Duration, SystemTime};

/// The size of the callback table on a 64-bit platform.
const TABLE_SIZE: usize = 40;

/// The size of the visitor on a 64-bit platform.
const VISITOR_SIZE: usize = 48;

fn own_time(time: StdSystemTime) -> SystemTime {
    let nanos_since_epoch = match time.duration_since(UNIX_EPOCH) {
        Ok(after) => i128::try_from(after.as_nanos()).unwrap_or(i128::MAX),
        Err(before) => i128::try_from(before.duration().as_nanos()).map_or(i128::MIN, |n| -n),
    };
    SystemTime { nanos_since_epoch }
}

fn own_value(value: &opentelemetry::Value) -> Value {
    match value {
        opentelemetry::Value::Bool(v) => Value::Bool(*v),
        opentelemetry::Value::I64(v) => Value::I64(*v),
        opentelemetry::Value::F64(v) => Value::F64(v.to_bits()),
        opentelemetry::Value::String(v) => Value::String(v.as_str().to_owned()),
        opentelemetry::Value::Array(array) => Value::Array(match array {
            opentelemetry::Array::Bool(v) => Array::Bool(v.clone()),
            opentelemetry::Array::I64(v) => Array::I64(v.clone()),
            opentelemetry::Array::F64(v) => Array::F64(v.iter().map(|d| d.to_bits()).collect()),
            opentelemetry::Array::String(v) => {
                Array::String(v.iter().map(|s| s.as_str().to_owned()).collect())
            }
            _ => Array::Unknown,
        }),
        _ => Value::Unknown,
    }
}

fn own_attributes<'a>(attributes: impl Iterator<Item = &'a KeyValue>) -> Vec<(String, Value)> {
    attributes
        .map(|kv| (kv.key.as_str().to_owned(), own_value(&kv.value)))
        .collect()
}

fn own_temporality(temporality: sdk_metrics::Temporality) -> Temporality {
    match temporality {
        sdk_metrics::Temporality::Delta => Temporality::Delta,
        sdk_metrics::Temporality::LowMemory => Temporality::LowMemory,
        _ => Temporality::Cumulative,
    }
}

trait Number: Copy {
    fn own(self) -> OtelMetricNumber;
}

impl Number for u64 {
    fn own(self) -> OtelMetricNumber {
        OtelMetricNumber::U64(self)
    }
}

impl Number for i64 {
    fn own(self) -> OtelMetricNumber {
        OtelMetricNumber::I64(self)
    }
}

impl Number for f64 {
    fn own(self) -> OtelMetricNumber {
        OtelMetricNumber::F64(self.to_bits())
    }
}

fn own_exemplars<'a, T: Number + 'a>(
    exemplars: impl Iterator<Item = &'a data::Exemplar<T>>,
) -> Vec<Exemplar> {
    exemplars
        .map(|exemplar| Exemplar {
            time: own_time(exemplar.time()),
            value: exemplar.value.own(),
            span_id: *exemplar.span_id(),
            trace_id: *exemplar.trace_id(),
            filtered_attributes: own_attributes(exemplar.filtered_attributes()),
        })
        .collect()
}

fn own_data<T: Number>(data: &data::MetricData<T>) -> MetricData {
    match data {
        data::MetricData::Gauge(gauge) => MetricData::Gauge {
            start_time: gauge.start_time().map(own_time),
            time: own_time(gauge.time()),
            points: gauge
                .data_points()
                .map(|point| NumberPoint {
                    value: point.value().own(),
                    attributes: own_attributes(point.attributes()),
                    exemplars: own_exemplars(point.exemplars()),
                })
                .collect(),
        },
        data::MetricData::Sum(sum) => MetricData::Sum {
            start_time: own_time(sum.start_time()),
            time: own_time(sum.time()),
            temporality: own_temporality(sum.temporality()),
            is_monotonic: sum.is_monotonic(),
            points: sum
                .data_points()
                .map(|point| NumberPoint {
                    value: point.value().own(),
                    attributes: own_attributes(point.attributes()),
                    exemplars: own_exemplars(point.exemplars()),
                })
                .collect(),
        },
        data::MetricData::Histogram(histogram) => MetricData::Histogram {
            start_time: own_time(histogram.start_time()),
            time: own_time(histogram.time()),
            temporality: own_temporality(histogram.temporality()),
            points: histogram
                .data_points()
                .map(|point| HistogramPoint {
                    count: point.count(),
                    sum: point.sum().own(),
                    min: point.min().map(Number::own),
                    max: point.max().map(Number::own),
                    bounds: point.bounds().map(f64::to_bits).collect(),
                    bucket_counts: point.bucket_counts().collect(),
                    attributes: own_attributes(point.attributes()),
                    exemplars: own_exemplars(point.exemplars()),
                })
                .collect(),
        },
        data::MetricData::ExponentialHistogram(histogram) => MetricData::ExponentialHistogram {
            start_time: own_time(histogram.start_time()),
            time: own_time(histogram.time()),
            temporality: own_temporality(histogram.temporality()),
            points: histogram
                .data_points()
                .map(|point| ExponentialPoint {
                    count: point.count(),
                    sum: point.sum().own(),
                    min: point.min().map(Number::own),
                    max: point.max().map(Number::own),
                    scale: point.scale(),
                    zero_count: point.zero_count(),
                    zero_threshold: point.zero_threshold().to_bits(),
                    positive: Buckets {
                        offset: point.positive_bucket().offset(),
                        counts: point.positive_bucket().counts().collect(),
                    },
                    negative: Buckets {
                        offset: point.negative_bucket().offset(),
                        counts: point.negative_bucket().counts().collect(),
                    },
                    attributes: own_attributes(point.attributes()),
                    exemplars: own_exemplars(point.exemplars()),
                })
                .collect(),
        },
    }
}

fn own_scope(scope: &opentelemetry::InstrumentationScope) -> InstrumentationScope {
    InstrumentationScope {
        name: scope.name().to_owned(),
        version: scope.version().map(str::to_owned),
        schema_url: scope.schema_url().map(str::to_owned),
        attributes: own_attributes(scope.attributes()),
    }
}

fn own_metrics(metrics: &data::ResourceMetrics) -> ResourceMetrics {
    ResourceMetrics {
        resource: metrics
            .resource()
            .iter()
            .map(|(key, value)| (key.as_str().to_owned(), own_value(value)))
            .collect(),
        scope_metrics: metrics
            .scope_metrics()
            .map(|scope| ScopeMetrics {
                scope: own_scope(scope.scope()),
                metrics: scope
                    .metrics()
                    .map(|metric| {
                        let (number, data) = match metric.data() {
                            data::AggregatedMetrics::U64(data) => (NumberKind::U64, own_data(data)),
                            data::AggregatedMetrics::I64(data) => (NumberKind::I64, own_data(data)),
                            data::AggregatedMetrics::F64(data) => (NumberKind::F64, own_data(data)),
                        };
                        Metric {
                            name: metric.name().to_owned(),
                            description: metric.description().to_owned(),
                            unit: metric.unit().to_owned(),
                            number,
                            data,
                        }
                    })
                    .collect(),
            })
            .collect(),
    }
}

const EXPORT: usize = 1;
const FLUSH: usize = 2;
const SHUTDOWN: usize = 3;
const DESTROY: usize = 4;
const USER_DATA: usize = 77;

#[derive(Debug)]
struct State {
    exports: usize,
    flushes: usize,
    shutdowns: usize,
    destroys: usize,
    export_status: OtelStatus,
    shutdown_status: OtelStatus,
    stale_token: usize,
    metric_name: String,
    value: u64,
}

type Shared = Arc<Mutex<State>>;

fn state() -> Shared {
    Arc::new(Mutex::new(State {
        exports: 0,
        flushes: 0,
        shutdowns: 0,
        destroys: 0,
        export_status: OtelStatus::Success,
        shutdown_status: OtelStatus::Success,
        stale_token: 0,
        metric_name: String::new(),
        value: 0,
    }))
}

fn callbacks() -> OtelCustomMetricExporterCallbacks {
    OtelCustomMetricExporterCallbacks {
        struct_size: TABLE_SIZE,
        export_metrics: Some(EXPORT),
        force_flush: Some(FLUSH),
        shutdown: Some(SHUTDOWN),
        state_destroy: Some(DESTROY),
    }
}

fn custom_exporter(temporality: u32) -> Option<OtelMetricExporter<()>> {
    let mut errors = ErrorState::new();
    let mut exporter = None;
    assert_eq!(
        otel_custom_metric_exporter_new(
            &mut errors,
            Some(callbacks()),
            TABLE_SIZE,
            USER_DATA,
            temporality,
            Some(&mut exporter),
        ),
        OtelStatus::Success
    );
    exporter
}

fn run_shutdown(state: &Shared, step: &ShutdownStep) -> Option<OtelStatus> {
    match step {
        ShutdownStep::Done(_) => None,
        ShutdownStep::Invoke {
            callback,
            user_data,
            ..
        } => {
            assert_eq!((*callback, *user_data), (SHUTDOWN, USER_DATA));
            let mut state = state.lock().unwrap();
            state.shutdowns += 1;
            Some(state.shutdown_status)
        }
    }
}

fn run_release(state: &Shared, plan: ReleasePlan) {
    run_shutdown(state, &plan.shutdown);
    if let Some(callback) = plan.destroy {
        assert_eq!((callback, plan.user_data), (DESTROY, USER_DATA));
        state.lock().unwrap().destroys += 1;
    }
}

fn release(state: &Shared, exporter: MetricExporterImpl<()>) {
    match exporter.release() {
        MetricRelease::Run(plan) => run_release(state, plan),
        MetricRelease::Drop(()) => {}
    }
}

fn visitor() -> OtelMetricVisitor {
    OtelMetricVisitor {
        struct_size: VISITOR_SIZE,
        resource: None,
        scope: None,
        metric: Some(1),
        point: Some(2),
        exemplar: None,
    }
}

fn visit(state: &Shared, metrics: Option<&ResourceMetrics>) -> OtelStatus {
    let mut errors = ErrorState::new();
    let plan = match otel_metric_batch_visit(&mut errors, metrics, Some(&visitor()), VISITOR_SIZE) {
        Ok(plan) => plan,
        Err(status) => return status,
    };
    let mut done = 0;
    loop {
        match plan.next(&mut errors, done, OtelStatus::Success) {
            VisitStep::Done(status) => return status,
            VisitStep::Invoke(index) => {
                let mut state = state.lock().unwrap();
                match &plan.events[index] {
                    VisitEvent::Metric { metadata } => {
                        assert_eq!(metadata.data_kind, OTEL_METRIC_DATA_SUM);
                        assert_eq!(metadata.number_kind, OTEL_METRIC_NUMBER_U64);
                        state.metric_name = metadata.name.to_string_strict().unwrap();
                    }
                    VisitEvent::Point { point, .. } => {
                        state.value = match point.value {
                            OtelMetricNumber::U64(value) => value,
                            other => panic!("unexpected number {other:?}"),
                        };
                    }
                    other => panic!("unexpected event {other:?}"),
                }
                done += 1;
            }
        }
    }
}

#[derive(Debug)]
struct Inner {
    own: Option<ManualMetricReader<()>>,
    counter: usize,
    batches: ActiveBatches,
}

/// A reader of the SDK that is driven by the library's decisions.
#[derive(Clone)]
struct Reader {
    sdk: Arc<sdk_metrics::ManualReader>,
    inner: Arc<Mutex<Inner>>,
    state: Shared,
}

impl std::fmt::Debug for Reader {
    fn fmt(&self, formatter: &mut std::fmt::Formatter<'_>) -> std::fmt::Result {
        formatter.write_str("Reader")
    }
}

fn custom(reader: &ManualMetricReader<()>) -> &CustomMetricExporter {
    match &reader.exporter {
        MetricExporterImpl::Custom(exporter) => exporter,
        MetricExporterImpl::Otlp(()) => panic!("expected a custom exporter"),
    }
}

fn custom_mut(reader: &mut ManualMetricReader<()>) -> &mut CustomMetricExporter {
    match &mut reader.exporter {
        MetricExporterImpl::Custom(exporter) => exporter,
        MetricExporterImpl::Otlp(()) => panic!("expected a custom exporter"),
    }
}

fn sdk_result(result: OTelSdkResult) -> opentelemetry_sdk::error::OTelSdkResult {
    match result {
        Ok(()) => Ok(()),
        Err(OTelSdkError::AlreadyShutdown) => Err(Theirs::AlreadyShutdown),
        Err(OTelSdkError::Timeout(d)) => {
            Err(Theirs::Timeout(std::time::Duration::new(d.secs, d.nanos)))
        }
        Err(OTelSdkError::InternalFailure(message)) => Err(Theirs::InternalFailure(message)),
    }
}

fn own_result(result: opentelemetry_sdk::error::OTelSdkResult) -> OTelSdkResult {
    match result {
        Ok(()) => Ok(()),
        Err(Theirs::AlreadyShutdown) => Err(OTelSdkError::AlreadyShutdown),
        Err(Theirs::Timeout(d)) => Err(OTelSdkError::Timeout(Duration {
            secs: d.as_secs(),
            nanos: d.subsec_nanos(),
        })),
        Err(Theirs::InternalFailure(message)) => Err(OTelSdkError::InternalFailure(message)),
    }
}

impl Reader {
    fn new(state: &Shared) -> (Option<OtelManualMetricReader<()>>, sdk_metrics::ManualReader) {
        let mut errors = ErrorState::new();
        let mut exporter = custom_exporter(1);
        let mut handle = None;
        assert_eq!(
            otel_manual_metric_reader_new(&mut errors, &mut exporter, Some(&mut handle)),
            OtelStatus::Success
        );
        assert!(exporter.is_none());
        let temporality = match custom(&handle.as_ref().unwrap().reader).temporality() {
            Temporality::Cumulative => sdk_metrics::Temporality::Cumulative,
            Temporality::Delta => sdk_metrics::Temporality::Delta,
            Temporality::LowMemory => sdk_metrics::Temporality::LowMemory,
        };
        assert_eq!(state.lock().unwrap().exports, 0);
        (
            handle,
            sdk_metrics::ManualReader::builder()
                .with_temporality(temporality)
                .build(),
        )
    }

    fn installed(state: &Shared) -> Reader {
        let (handle, sdk) = Reader::new(state);
        Reader {
            sdk: Arc::new(sdk),
            inner: Arc::new(Mutex::new(Inner {
                own: Some(handle.unwrap().reader),
                counter: 1,
                batches: ActiveBatches::new(),
            })),
            state: Arc::clone(state),
        }
    }

    fn export(&self, metrics: &data::ResourceMetrics) -> OTelSdkResult {
        const ADDRESS: usize = 4096;
        let mut inner = self.inner.lock().unwrap();
        let inner = &mut *inner;
        let exporter = custom(inner.own.as_ref().unwrap());
        match exporter.export(&mut inner.counter, &mut inner.batches, ADDRESS) {
            MetricExportStep::Done(result) => result,
            MetricExportStep::Invoke {
                callback,
                user_data,
                registration,
            } => {
                assert_eq!((callback, user_data), (EXPORT, USER_DATA));
                let token = registration.token().token;
                let status = {
                    let mut state = self.state.lock().unwrap();
                    state.exports += 1;
                    state.stale_token = token;
                    state.export_status
                };
                let status = if status == OtelStatus::Success {
                    assert_eq!(active_batch(&inner.batches, token), Some(ADDRESS));
                    // Another thread has no active batches.
                    let other = ActiveBatches::new();
                    assert!(active_batch(&other, token).is_none());
                    assert_eq!(visit(&self.state, None), OtelStatus::InvalidArgument);
                    visit(&self.state, Some(&own_metrics(metrics)))
                } else {
                    status
                };
                registration.release(&mut inner.batches);
                exporter.callback_result("export", Duration::from_secs(0), Some(status))
            }
        }
    }

    fn flush_exporter(&self) -> OTelSdkResult {
        let inner = self.inner.lock().unwrap();
        let exporter = custom(inner.own.as_ref().unwrap());
        match exporter.force_flush() {
            CallbackStep::Done(result) => result,
            CallbackStep::Invoke {
                callback,
                user_data,
            } => {
                assert_eq!((callback, user_data), (FLUSH, USER_DATA));
                self.state.lock().unwrap().flushes += 1;
                exporter.callback_result(
                    "force-flush",
                    Duration::from_secs(0),
                    Some(OtelStatus::Success),
                )
            }
        }
    }

    fn dispose(self) {
        let own = self.inner.lock().unwrap().own.take().unwrap();
        release(&self.state, own.exporter);
    }
}

impl MetricReader for Reader {
    fn register_pipeline(&self, pipeline: Weak<sdk_metrics::Pipeline>) {
        self.inner
            .lock()
            .unwrap()
            .own
            .as_mut()
            .unwrap()
            .register_pipeline();
        self.sdk.register_pipeline(pipeline);
    }

    fn collect(&self, metrics: &mut data::ResourceMetrics) -> opentelemetry_sdk::error::OTelSdkResult {
        self.sdk.collect(metrics)
    }

    fn force_flush(&self) -> opentelemetry_sdk::error::OTelSdkResult {
        let mut metrics = data::ResourceMetrics::default();
        let mut phase = FlushPhase::Started;
        let mut result = Ok(());
        loop {
            let step = self
                .inner
                .lock()
                .unwrap()
                .own
                .as_ref()
                .unwrap()
                .force_flush(phase, result);
            match step {
                FlushStep::Collect => {
                    result = own_result(self.sdk.collect(&mut metrics));
                    phase = FlushPhase::Collected;
                }
                FlushStep::Export => {
                    result = self.export(&metrics);
                    phase = FlushPhase::Exported;
                }
                FlushStep::Flush => {
                    result = self.flush_exporter();
                    phase = FlushPhase::Flushed;
                }
                FlushStep::Done(result) => return sdk_result(result),
            }
        }
    }

    fn shutdown_with_timeout(
        &self,
        timeout: std::time::Duration,
    ) -> opentelemetry_sdk::error::OTelSdkResult {
        let timeout = Duration {
            secs: timeout.as_secs(),
            nanos: timeout.subsec_nanos(),
        };
        let step = self
            .inner
            .lock()
            .unwrap()
            .own
            .as_mut()
            .unwrap()
            .shutdown(timeout);
        match step {
            ReaderShutdown::Refused(error) => sdk_result(Err(error)),
            ReaderShutdown::Both(timeout) => {
                let reader = own_result(
                    self.sdk
                        .shutdown_with_timeout(std::time::Duration::new(timeout.secs, timeout.nanos)),
                );
                let mut inner = self.inner.lock().unwrap();
                let exporter = custom_mut(inner.own.as_mut().unwrap());
                let step = exporter.shutdown(timeout);
                let exporter = match run_shutdown(&self.state, &step) {
                    Some(status) => exporter.callback_result("shutdown", timeout, Some(status)),
                    None => Ok(()),
                };
                sdk_result(shutdown_result(reader, exporter))
            }
        }
    }

    fn temporality(&self, _kind: sdk_metrics::InstrumentKind) -> sdk_metrics::Temporality {
        sdk_metrics::Temporality::Cumulative
    }
}

fn status_of(result: opentelemetry_sdk::error::OTelSdkResult) -> OtelStatus {
    let mut errors = ErrorState::new();
    match own_result(result) {
        Ok(()) => OtelStatus::Success,
        Err(error) => status_from_export_pipeline_error(&mut errors, &error),
    }
}

#[test]
fn untransferred_exporter_shuts_down_and_destroys_state_once() {
    let state = state();
    let mut exporter = custom_exporter(0);
    match otel_metric_exporter_destroy(&mut exporter) {
        Some(MetricRelease::Run(plan)) => run_release(&state, plan),
        other => panic!("unexpected release {other:?}"),
    }
    assert!(otel_metric_exporter_destroy(&mut exporter).is_none());
    let state = state.lock().unwrap();
    assert_eq!(state.shutdowns, 1);
    assert_eq!(state.destroys, 1);
}

fn without_otlp() -> Features {
    Features {
        otlp_http: false,
        otlp_grpc: false,
        otlp_http_gzip: false,
        otlp_http_zstd: false,
        otlp_grpc_gzip: false,
        otlp_grpc_zstd: false,
    }
}

fn with_http() -> Features {
    Features {
        otlp_http: true,
        ..without_otlp()
    }
}

#[test]
fn custom_exporter_builds_a_periodic_reader_without_otlp() {
    let state = state();
    let mut errors = ErrorState::new();
    let mut exporter = custom_exporter(0);
    let mut builder = Some(otel_periodic_metric_reader_builder_new(&mut errors));
    assert_eq!(
        otel_periodic_metric_reader_builder_set_interval_millis(
            &mut errors,
            builder.as_mut(),
            60_000
        ),
        OtelStatus::Success
    );
    assert_eq!(
        otel_periodic_metric_reader_builder_set_exporter(
            &mut errors,
            builder.as_mut(),
            &mut exporter
        ),
        OtelStatus::Success
    );
    let mut reader: Option<OtelPeriodicMetricReader<()>> = None;
    let (status, released) = otel_periodic_metric_reader_builder_build(
        &mut errors,
        without_otlp(),
        builder.as_mut(),
        Some(&mut reader),
    );
    assert_eq!(status, OtelStatus::Success);
    assert!(released.is_none());
    assert!(otel_periodic_metric_reader_builder_destroy(&mut builder).is_none());
    let reader = otel_periodic_metric_reader_destroy(&mut errors, &mut reader).unwrap();
    assert_eq!(reader.interval, Some(Duration::from_millis(60_000)));
    release(&state, reader.exporter);
    let state = state.lock().unwrap();
    assert_eq!(state.shutdowns, 1);
    assert_eq!(state.destroys, 1);
}

#[test]
fn construction_failure_preserves_callback_state_ownership() {
    let mut errors = ErrorState::new();
    let mut invalid = callbacks();
    invalid.struct_size = 0;
    let mut exporter: Option<OtelMetricExporter<()>> = None;
    assert_eq!(
        otel_custom_metric_exporter_new(
            &mut errors,
            Some(invalid),
            TABLE_SIZE,
            USER_DATA,
            0,
            Some(&mut exporter)
        ),
        OtelStatus::InvalidConfig
    );
    assert!(exporter.is_none());
    assert!(otel_metric_exporter_destroy(&mut exporter).is_none());
    let mut missing = callbacks();
    missing.export_metrics = None;
    assert_eq!(
        otel_custom_metric_exporter_new(
            &mut errors,
            Some(missing),
            TABLE_SIZE,
            USER_DATA,
            0,
            Some(&mut exporter)
        ),
        OtelStatus::InvalidConfig
    );
    assert_eq!(
        otel_custom_metric_exporter_new(
            &mut errors,
            Some(callbacks()),
            TABLE_SIZE,
            USER_DATA,
            9,
            Some(&mut exporter)
        ),
        OtelStatus::InvalidConfig
    );
    assert_eq!(
        otel_custom_metric_exporter_new(&mut errors, None, TABLE_SIZE, USER_DATA, 0, Some(&mut exporter)),
        OtelStatus::InvalidArgument
    );
    assert_eq!(
        otel_custom_metric_exporter_new::<()>(
            &mut errors,
            Some(callbacks()),
            TABLE_SIZE,
            USER_DATA,
            0,
            None
        ),
        OtelStatus::InvalidArgument
    );
}

#[test]
fn callback_timeout_is_preserved_at_the_exporter_boundary() {
    let state = state();
    state.lock().unwrap().shutdown_status = OtelStatus::Timeout;
    let mut exporter = CustomMetricExporter {
        callbacks: callbacks(),
        user_data: USER_DATA,
        temporality: Temporality::Cumulative,
        shutdown: false,
    };
    let step = exporter.shutdown(Duration::from_millis(17));
    assert!(matches!(
        step,
        ShutdownStep::Invoke {
            timeout_millis: 17,
            ..
        }
    ));
    let status = run_shutdown(&state, &step);
    assert!(matches!(
        exporter.callback_result("shutdown", Duration::from_millis(17), status),
        Err(OTelSdkError::Timeout(timeout)) if timeout == Duration::from_millis(17)
    ));
    run_release(&state, exporter.release());
    let state = state.lock().unwrap();
    assert_eq!(state.shutdowns, 1);
    assert_eq!(state.destroys, 1);
}

#[test]
fn shutdown_blocks_later_metric_callbacks() {
    let state = state();
    let mut counter = 1;
    let mut batches = ActiveBatches::new();
    let mut exporter = CustomMetricExporter {
        callbacks: callbacks(),
        user_data: USER_DATA,
        temporality: Temporality::Delta,
        shutdown: false,
    };
    assert_eq!(exporter.temporality(), Temporality::Delta);
    match exporter.export(&mut counter, &mut batches, 5) {
        MetricExportStep::Invoke { registration, .. } => registration.release(&mut batches),
        MetricExportStep::Done(_) => panic!("expected a callback"),
    }
    assert!(matches!(exporter.force_flush(), CallbackStep::Invoke { .. }));
    let step = exporter.shutdown(Duration::from_secs(1));
    run_shutdown(&state, &step);
    assert!(matches!(
        exporter.export(&mut counter, &mut batches, 5),
        MetricExportStep::Done(Err(OTelSdkError::AlreadyShutdown))
    ));
    assert!(matches!(
        exporter.force_flush(),
        CallbackStep::Done(Err(OTelSdkError::AlreadyShutdown))
    ));
    assert!(matches!(
        exporter.shutdown(Duration::from_secs(1)),
        ShutdownStep::Done(Err(OTelSdkError::AlreadyShutdown))
    ));
    run_release(&state, exporter.release());
    let state = state.lock().unwrap();
    assert_eq!(state.shutdowns, 1);
    assert_eq!(state.destroys, 1);
}

#[test]
fn interval_setter_validates_handles_and_uses_last_value() {
    let mut errors = ErrorState::new();
    assert_eq!(
        otel_periodic_metric_reader_builder_set_interval_millis::<()>(&mut errors, None, 10),
        OtelStatus::InvalidArgument
    );

    let mut dead: OtelPeriodicMetricReaderBuilder<()> =
        otel_periodic_metric_reader_builder_new(&mut errors);
    dead.header.poison();
    assert_eq!(
        otel_periodic_metric_reader_builder_set_interval_millis(&mut errors, Some(&mut dead), 10),
        OtelStatus::InvalidArgument
    );

    let mut builder: OtelPeriodicMetricReaderBuilder<()> =
        otel_periodic_metric_reader_builder_new(&mut errors);
    assert!(builder.interval.is_none());
    assert_eq!(
        otel_periodic_metric_reader_builder_set_interval_millis(
            &mut errors,
            Some(&mut builder),
            100
        ),
        OtelStatus::Success
    );
    assert_eq!(builder.interval, Some(Duration::from_millis(100)));
    assert_eq!(
        otel_periodic_metric_reader_builder_set_interval_millis(
            &mut errors,
            Some(&mut builder),
            250
        ),
        OtelStatus::Success
    );
    assert_eq!(builder.interval, Some(Duration::from_millis(250)));
    assert_eq!(
        otel_periodic_metric_reader_builder_set_interval_millis(
            &mut errors,
            Some(&mut builder),
            0
        ),
        OtelStatus::Success
    );
    assert!(
        builder.interval.is_none(),
        "zero must leave interval selection to the upstream default/environment"
    );
    assert_eq!(
        otel_periodic_metric_reader_builder_set_interval_millis(
            &mut errors,
            Some(&mut builder),
            75
        ),
        OtelStatus::Success
    );
    assert_eq!(builder.interval, Some(Duration::from_millis(75)));
}

#[derive(Debug)]
struct Probe(Arc<Mutex<usize>>);

impl Drop for Probe {
    fn drop(&mut self) {
        *self.0.lock().unwrap() += 1;
    }
}

fn test_exporter(drops: &Arc<Mutex<usize>>) -> Option<OtelMetricExporter<Probe>> {
    Some(OtelMetricExporter::new(MetricExporterImpl::Otlp(Probe(
        Arc::clone(drops),
    ))))
}

#[test]
fn exporter_transfer_duplicate_rejection_and_reader_destruction_are_exactly_once() {
    let mut errors = ErrorState::new();
    let first_drops = Arc::new(Mutex::new(0));
    let second_drops = Arc::new(Mutex::new(0));
    let mut builder = Some(otel_periodic_metric_reader_builder_new(&mut errors));
    assert_eq!(
        otel_periodic_metric_reader_builder_set_interval_millis(
            &mut errors,
            builder.as_mut(),
            100
        ),
        OtelStatus::Success
    );
    assert_eq!(
        otel_periodic_metric_reader_builder_set_interval_millis(
            &mut errors,
            builder.as_mut(),
            250
        ),
        OtelStatus::Success
    );
    let mut first = test_exporter(&first_drops);
    assert_eq!(
        otel_periodic_metric_reader_builder_set_exporter(
            &mut errors,
            builder.as_mut(),
            &mut first
        ),
        OtelStatus::Success
    );
    assert!(otel_metric_exporter_destroy(&mut first).is_none());
    assert_eq!(*first_drops.lock().unwrap(), 0);

    let mut second = test_exporter(&second_drops);
    assert_eq!(
        otel_periodic_metric_reader_builder_set_exporter(
            &mut errors,
            builder.as_mut(),
            &mut second
        ),
        OtelStatus::InvalidConfig
    );
    assert_eq!(*second_drops.lock().unwrap(), 0);
    drop(otel_metric_exporter_destroy(&mut second));
    assert_eq!(*second_drops.lock().unwrap(), 1);

    let mut reader: Option<OtelPeriodicMetricReader<Probe>> = None;
    let (status, released) = otel_periodic_metric_reader_builder_build(
        &mut errors,
        with_http(),
        builder.as_mut(),
        Some(&mut reader),
    );
    assert_eq!(status, OtelStatus::Success);
    assert!(released.is_none());
    assert_eq!(
        reader.as_ref().unwrap().reader.interval,
        Some(Duration::from_millis(250))
    );
    drop(otel_periodic_metric_reader_builder_destroy(&mut builder));
    assert_eq!(*first_drops.lock().unwrap(), 0);
    drop(otel_periodic_metric_reader_destroy(&mut errors, &mut reader));
    assert_eq!(*first_drops.lock().unwrap(), 1);
    assert!(otel_periodic_metric_reader_destroy(&mut errors, &mut reader).is_none());
}

#[test]
fn reader_build_failure_preserves_or_releases_owned_exporter_correctly() {
    let mut errors = ErrorState::new();
    let drops = Arc::new(Mutex::new(0));
    let mut builder = Some(otel_periodic_metric_reader_builder_new(&mut errors));
    assert_eq!(
        otel_periodic_metric_reader_builder_set_interval_millis(&mut errors, builder.as_mut(), 25),
        OtelStatus::Success
    );
    let mut exporter = test_exporter(&drops);
    assert_eq!(
        otel_periodic_metric_reader_builder_set_exporter(
            &mut errors,
            builder.as_mut(),
            &mut exporter
        ),
        OtelStatus::Success
    );
    let (status, released) = otel_periodic_metric_reader_builder_build(
        &mut errors,
        with_http(),
        builder.as_mut(),
        None,
    );
    assert_eq!(status, OtelStatus::InvalidArgument);
    assert!(released.is_none());
    assert_eq!(*drops.lock().unwrap(), 0);
    drop(otel_periodic_metric_reader_builder_destroy(&mut builder));
    assert_eq!(*drops.lock().unwrap(), 1);

    let mut empty_builder = Some(otel_periodic_metric_reader_builder_new(&mut errors));
    let mut reader: Option<OtelPeriodicMetricReader<Probe>> = None;
    let (status, released) = otel_periodic_metric_reader_builder_build(
        &mut errors,
        with_http(),
        empty_builder.as_mut(),
        Some(&mut reader),
    );
    assert_eq!(status, OtelStatus::InvalidConfig);
    assert!(released.is_none());
    assert!(reader.is_none());
    drop(otel_periodic_metric_reader_builder_destroy(&mut empty_builder));
}

#[test]
fn unavailable_reader_build_releases_transferred_exporter_once() {
    let mut errors = ErrorState::new();
    let drops = Arc::new(Mutex::new(0));
    let mut builder = Some(otel_periodic_metric_reader_builder_new(&mut errors));
    let mut exporter = test_exporter(&drops);
    assert_eq!(
        otel_periodic_metric_reader_builder_set_exporter(
            &mut errors,
            builder.as_mut(),
            &mut exporter
        ),
        OtelStatus::Success
    );
    let mut reader: Option<OtelPeriodicMetricReader<Probe>> = None;
    let (status, released) = otel_periodic_metric_reader_builder_build(
        &mut errors,
        without_otlp(),
        builder.as_mut(),
        Some(&mut reader),
    );
    assert_eq!(status, OtelStatus::InvalidConfig);
    assert!(reader.is_none());
    drop(released);
    assert_eq!(*drops.lock().unwrap(), 1);
    drop(otel_periodic_metric_reader_builder_destroy(&mut builder));
    assert_eq!(*drops.lock().unwrap(), 1);
}

#[test]
fn manual_reader_collects_exports_and_releases_callback_state_once() {
    let state = state();
    let reader = Reader::installed(&state);
    let provider = sdk_metrics::SdkMeterProvider::builder()
        .with_reader(reader.clone())
        .build();
    let meter = provider.meter("custom-exporter-test");
    let counter = meter.u64_counter("requests").build();
    counter.add(7, &[]);

    assert_eq!(status_of(provider.force_flush()), OtelStatus::Success);
    {
        let state = state.lock().unwrap();
        assert_eq!(state.exports, 1);
        assert_eq!(state.flushes, 1);
        assert_eq!(state.metric_name, "requests");
        assert_eq!(state.value, 7);
        let inner = reader.inner.lock().unwrap();
        assert!(active_batch(&inner.batches, state.stale_token).is_none());
    }
    let mut errors = ErrorState::new();
    assert_eq!(
        otel_metric_batch_visit(&mut errors, None, Some(&visitor()), VISITOR_SIZE).err(),
        Some(OtelStatus::InvalidArgument)
    );

    assert_eq!(
        status_of(provider.shutdown_with_timeout(std::time::Duration::from_millis(1000))),
        OtelStatus::Success
    );
    assert_eq!(state.lock().unwrap().exports, 1);
    assert_eq!(state.lock().unwrap().shutdowns, 1);
    reader.dispose();
    let state = state.lock().unwrap();
    assert_eq!(state.shutdowns, 1);
    assert_eq!(state.destroys, 1);
}

#[test]
fn untransferred_manual_reader_shuts_down_and_releases_exporter() {
    let state = state();
    let (mut handle, _sdk) = Reader::new(&state);
    let mut errors = ErrorState::new();
    let (mut own, step) = otel_manual_metric_reader_destroy(&mut errors, &mut handle).unwrap();
    match step {
        Some(ReaderShutdown::Both(timeout)) => {
            assert_eq!(timeout, Duration::from_secs(5));
            let step = custom_mut(&mut own).shutdown(timeout);
            run_shutdown(&state, &step);
        }
        other => panic!("unexpected step {other:?}"),
    }
    release(&state, own.exporter);
    {
        let state = state.lock().unwrap();
        assert_eq!(state.exports, 0);
        assert_eq!(state.shutdowns, 1);
        assert_eq!(state.destroys, 1);
    }
    assert!(otel_manual_metric_reader_destroy(&mut errors, &mut handle).is_none());
}

#[test]
fn multiple_manual_readers_collect_independently() {
    let first = state();
    let second = state();
    let readers = [Reader::installed(&first), Reader::installed(&second)];
    let provider = sdk_metrics::SdkMeterProvider::builder()
        .with_reader(readers[0].clone())
        .with_reader(readers[1].clone())
        .build();
    assert_eq!(status_of(provider.force_flush()), OtelStatus::Success);
    assert_eq!(first.lock().unwrap().exports, 1);
    assert_eq!(second.lock().unwrap().exports, 1);
    assert_eq!(
        status_of(provider.shutdown_with_timeout(std::time::Duration::from_millis(1000))),
        OtelStatus::Success
    );
    for reader in readers {
        reader.dispose();
    }
    assert_eq!(first.lock().unwrap().destroys, 1);
    assert_eq!(second.lock().unwrap().destroys, 1);
}

#[test]
fn custom_export_statuses_propagate_through_manual_collection() {
    let state = state();
    let reader = Reader::installed(&state);
    let provider = sdk_metrics::SdkMeterProvider::builder()
        .with_reader(reader.clone())
        .build();

    state.lock().unwrap().export_status = OtelStatus::Timeout;
    assert_eq!(status_of(provider.force_flush()), OtelStatus::ExportFailed);
    state.lock().unwrap().export_status = OtelStatus::ExportFailed;
    assert_eq!(status_of(provider.force_flush()), OtelStatus::ExportFailed);

    state.lock().unwrap().export_status = OtelStatus::Success;
    assert_eq!(
        status_of(provider.shutdown_with_timeout(std::time::Duration::from_millis(1000))),
        OtelStatus::Success
    );
    reader.dispose();
    assert_eq!(state.lock().unwrap().destroys, 1);
}

#[test]
fn a_reader_shuts_down_once_and_reports_the_first_failure() {
    let mut reader = ManualMetricReader {
        exporter: MetricExporterImpl::Otlp(()),
        registered: false,
        shutdown: false,
    };
    assert!(matches!(
        reader.shutdown_unregistered(),
        Some(ReaderShutdown::Both(limit)) if limit == Duration::from_secs(5)
    ));
    assert!(matches!(
        reader.shutdown(Duration::from_secs(1)),
        ReaderShutdown::Refused(OTelSdkError::AlreadyShutdown)
    ));
    let mut registered = ManualMetricReader {
        exporter: MetricExporterImpl::Otlp(()),
        registered: false,
        shutdown: false,
    };
    registered.register_pipeline();
    assert!(registered.shutdown_unregistered().is_none());
    let failure = || Err(OTelSdkError::InternalFailure("exporter".to_owned()));
    assert!(matches!(
        shutdown_result(Err(OTelSdkError::AlreadyShutdown), failure()),
        Err(OTelSdkError::AlreadyShutdown)
    ));
    assert!(matches!(
        shutdown_result(Ok(()), failure()),
        Err(OTelSdkError::InternalFailure(_))
    ));
    assert!(shutdown_result(Ok(()), Ok(())).is_ok());
}

#[test]
fn batch_tokens_are_distinct_and_never_zero() {
    let mut counter = usize::MAX;
    let mut batches = ActiveBatches::new();
    let first = MetricBatchRegistration::new(&mut counter, &mut batches, 11);
    let second = MetricBatchRegistration::new(&mut counter, &mut batches, 22);
    let (a, b) = (first.token().token, second.token().token);
    assert_ne!(a, b);
    assert_ne!(a, 0);
    assert_ne!(b, 0);
    assert_eq!(active_batch(&batches, a), Some(11));
    assert_eq!(active_batch(&batches, b), Some(22));
    first.release(&mut batches);
    assert_eq!(active_batch(&batches, a), None);
    assert_eq!(active_batch(&batches, b), Some(22));
    second.release(&mut batches);
    assert_eq!(active_batch(&batches, b), None);
}

fn at(nanos_since_epoch: i128) -> SystemTime {
    SystemTime { nanos_since_epoch }
}

fn number_point(value: OtelMetricNumber) -> NumberPoint {
    NumberPoint {
        value,
        attributes: vec![("k".to_owned(), Value::String("v".to_owned()))],
        exemplars: vec![Exemplar {
            time: at(9),
            value,
            span_id: [1; 8],
            trace_id: [2; 16],
            filtered_attributes: vec![(
                "flags".to_owned(),
                Value::Array(Array::Bool(vec![true, false])),
            )],
        }],
    }
}

fn one_metric(number: NumberKind, data: MetricData) -> ResourceMetrics {
    ResourceMetrics {
        resource: vec![("service.name".to_owned(), Value::String("svc".to_owned()))],
        scope_metrics: vec![ScopeMetrics {
            scope: InstrumentationScope {
                name: "scope".to_owned(),
                version: Some("1".to_owned()),
                schema_url: None,
                attributes: vec![],
            },
            metrics: vec![Metric {
                name: "metric".to_owned(),
                description: "about".to_owned(),
                unit: "ms".to_owned(),
                number,
                data,
            }],
        }],
    }
}

fn every_callback() -> OtelMetricVisitor {
    OtelMetricVisitor {
        struct_size: VISITOR_SIZE,
        resource: Some(1),
        scope: Some(2),
        metric: Some(3),
        point: Some(4),
        exemplar: Some(5),
    }
}

#[test]
fn a_traversal_shows_every_level_in_order() {
    let metrics = one_metric(
        NumberKind::I64,
        MetricData::Sum {
            start_time: at(3),
            time: at(4),
            temporality: Temporality::Delta,
            is_monotonic: true,
            points: vec![number_point(OtelMetricNumber::I64(-5))],
        },
    );
    let mut errors = ErrorState::new();
    let plan = otel_metric_batch_visit(&mut errors, Some(&metrics), Some(&every_callback()), VISITOR_SIZE)
        .expect("plan");
    assert_eq!(plan.end, VisitEnd::Complete);
    assert_eq!(plan.events.len(), 5);
    match &plan.events[0] {
        VisitEvent::Resource { attributes } => {
            assert_eq!(attributes.len(), 1);
            assert_eq!(attributes[0].key.as_str(), Ok("service.name"));
            assert_eq!(attributes[0].value_type, OTEL_METRIC_ATTRIBUTE_STRING);
            match &attributes[0].value {
                OtelMetricAttributeValue::Scalar(OtelAttributeValue::Text(text)) => {
                    assert_eq!(text.as_str(), Ok("svc"))
                }
                other => panic!("unexpected value {other:?}"),
            }
        }
        other => panic!("unexpected event {other:?}"),
    }
    match &plan.events[1] {
        VisitEvent::Scope {
            name,
            version,
            schema_url,
            ..
        } => {
            assert_eq!(name.as_str(), Ok("scope"));
            assert_eq!(version.as_str(), Ok("1"));
            assert_eq!(schema_url.as_str(), Ok(""));
        }
        other => panic!("unexpected event {other:?}"),
    }
    match &plan.events[2] {
        VisitEvent::Metric { metadata } => {
            assert_eq!(metadata.name.as_str(), Ok("metric"));
            assert_eq!(metadata.description.as_str(), Ok("about"));
            assert_eq!(metadata.unit.as_str(), Ok("ms"));
            assert_eq!(metadata.data_kind, OTEL_METRIC_DATA_SUM);
            assert_eq!(metadata.number_kind, OTEL_METRIC_NUMBER_I64);
        }
        other => panic!("unexpected event {other:?}"),
    }
    match &plan.events[3] {
        VisitEvent::Point {
            point, attributes, ..
        } => {
            assert_eq!(point.point_index, 0);
            assert_eq!(point.start_time_unix_nanos, 3);
            assert_eq!(point.time_unix_nanos, 4);
            assert_eq!(point.temporality, OTEL_METRIC_TEMPORALITY_DELTA);
            assert_eq!(point.is_monotonic, 1);
            assert_eq!(point.value, OtelMetricNumber::I64(-5));
            assert_eq!(attributes.len(), 1);
        }
        other => panic!("unexpected event {other:?}"),
    }
    match &plan.events[4] {
        VisitEvent::Exemplar {
            exemplar,
            attributes,
        } => {
            assert_eq!(exemplar.time_unix_nanos, 9);
            assert_eq!(exemplar.span_id, [1; 8]);
            assert_eq!(exemplar.trace_id, [2; 16]);
            assert_eq!(attributes[0].value_type, OTEL_METRIC_ATTRIBUTE_BOOL_ARRAY);
        }
        other => panic!("unexpected event {other:?}"),
    }
}

#[test]
fn a_failing_callback_ends_the_traversal() {
    let metrics = one_metric(
        NumberKind::U64,
        MetricData::Gauge {
            start_time: None,
            time: at(4),
            points: vec![number_point(OtelMetricNumber::U64(5))],
        },
    );
    let mut errors = ErrorState::new();
    let plan = otel_metric_batch_visit(&mut errors, Some(&metrics), Some(&every_callback()), VISITOR_SIZE)
        .expect("plan");
    assert!(matches!(
        plan.next(&mut errors, 0, OtelStatus::Success),
        VisitStep::Invoke(0)
    ));
    assert!(matches!(
        plan.next(&mut errors, 1, OtelStatus::Success),
        VisitStep::Invoke(1)
    ));
    assert!(matches!(
        plan.next(&mut errors, 2, OtelStatus::Timeout),
        VisitStep::Done(OtelStatus::Timeout)
    ));
    assert_eq!(errors.last_status, OtelStatus::Timeout);
    assert_eq!(
        errors.message,
        "custom metric visitor scope callback failed"
    );
}

#[test]
fn times_outside_the_c_range_end_the_traversal() {
    for (time, end, message) in [
        (
            at(-1),
            VisitEnd::PredatesEpoch,
            "metric timestamp predates Unix epoch",
        ),
        (
            at(u64::MAX as i128 + 1),
            VisitEnd::TimeRange,
            "metric timestamp exceeds the C nanosecond range",
        ),
    ] {
        let metrics = one_metric(
            NumberKind::F64,
            MetricData::Gauge {
                start_time: None,
                time,
                points: vec![number_point(OtelMetricNumber::F64(0.5f64.to_bits()))],
            },
        );
        let mut errors = ErrorState::new();
        let plan = otel_metric_batch_visit(&mut errors, Some(&metrics), Some(&visitor()), VISITOR_SIZE)
            .expect("plan");
        // The metric is announced before its points are looked at.
        assert_eq!(plan.events.len(), 1);
        assert_eq!(plan.end, end);
        assert!(matches!(
            plan.next(&mut errors, 1, OtelStatus::Success),
            VisitStep::Done(OtelStatus::InternalError)
        ));
        assert_eq!(errors.message, message);
    }
}

#[test]
fn histograms_show_bounds_and_buckets() {
    let metrics = one_metric(
        NumberKind::F64,
        MetricData::Histogram {
            start_time: at(1),
            time: at(2),
            temporality: Temporality::Cumulative,
            points: vec![HistogramPoint {
                count: 3,
                sum: OtelMetricNumber::F64(6.0f64.to_bits()),
                min: Some(OtelMetricNumber::F64(1.0f64.to_bits())),
                max: None,
                bounds: vec![2.0f64.to_bits()],
                bucket_counts: vec![1, 2],
                attributes: vec![],
                exemplars: vec![],
            }],
        },
    );
    let mut errors = ErrorState::new();
    let plan =
        otel_metric_batch_visit(&mut errors, Some(&metrics), Some(&visitor()), VISITOR_SIZE).expect("plan");
    match (&plan.events[0], &plan.events[1]) {
        (
            VisitEvent::Metric { metadata },
            VisitEvent::Point {
                point,
                explicit_bounds,
                explicit_bucket_counts,
                positive_bucket_counts,
                ..
            },
        ) => {
            assert_eq!(metadata.data_kind, OTEL_METRIC_DATA_HISTOGRAM);
            assert_eq!(metadata.number_kind, OTEL_METRIC_NUMBER_F64);
            assert_eq!(point.temporality, OTEL_METRIC_TEMPORALITY_CUMULATIVE);
            assert_eq!(point.count, 3);
            assert_eq!(point.sum, OtelMetricNumber::F64(6.0f64.to_bits()));
            assert_eq!((point.has_min, point.has_max), (1, 0));
            assert_eq!(point.min, OtelMetricNumber::F64(1.0f64.to_bits()));
            assert_eq!(*explicit_bounds, &[2.0f64.to_bits()]);
            assert_eq!(*explicit_bucket_counts, &[1, 2]);
            assert!(positive_bucket_counts.is_empty());
        }
        other => panic!("unexpected events {other:?}"),
    }

    let metrics = one_metric(
        NumberKind::U64,
        MetricData::ExponentialHistogram {
            start_time: at(1),
            time: at(2),
            temporality: Temporality::LowMemory,
            points: vec![ExponentialPoint {
                count: 3,
                sum: OtelMetricNumber::U64(6),
                min: None,
                max: Some(OtelMetricNumber::U64(4)),
                scale: -2,
                zero_count: 1,
                zero_threshold: 0.25f64.to_bits(),
                positive: Buckets {
                    offset: -7,
                    counts: vec![1, 1],
                },
                negative: Buckets {
                    offset: 3,
                    counts: vec![],
                },
                attributes: vec![],
                exemplars: vec![],
            }],
        },
    );
    let plan =
        otel_metric_batch_visit(&mut errors, Some(&metrics), Some(&visitor()), VISITOR_SIZE).expect("plan");
    match (&plan.events[0], &plan.events[1]) {
        (
            VisitEvent::Metric { metadata },
            VisitEvent::Point {
                point,
                positive_bucket_counts,
                negative_bucket_counts,
                ..
            },
        ) => {
            assert_eq!(
                metadata.data_kind,
                OTEL_METRIC_DATA_EXPONENTIAL_HISTOGRAM
            );
            assert_eq!(point.scale, -2);
            assert_eq!(point.zero_count, 1);
            assert_eq!(point.zero_threshold, 0.25f64.to_bits());
            assert_eq!(point.positive_bucket_offset, -7);
            assert_eq!(point.negative_bucket_offset, 3);
            assert_eq!((point.has_min, point.has_max), (0, 1));
            assert_eq!(*positive_bucket_counts, &[1, 1]);
            assert!(negative_bucket_counts.is_empty());
        }
        other => panic!("unexpected events {other:?}"),
    }
}

#[test]
fn visitors_are_validated_before_the_traversal() {
    let metrics = one_metric(
        NumberKind::U64,
        MetricData::Gauge {
            start_time: None,
            time: at(4),
            points: vec![],
        },
    );
    let mut errors = ErrorState::new();
    assert_eq!(
        otel_metric_batch_visit(&mut errors, Some(&metrics), None, VISITOR_SIZE).err(),
        Some(OtelStatus::InvalidArgument)
    );
    assert_eq!(errors.message, "metric visitor must not be NULL");
    let mut short = visitor();
    short.struct_size -= 1;
    assert_eq!(
        otel_metric_batch_visit(&mut errors, Some(&metrics), Some(&short), VISITOR_SIZE).err(),
        Some(OtelStatus::InvalidConfig)
    );
}

#[test]
fn sizes_are_those_of_the_platform() {
    let mut errors = ErrorState::new();
    let metrics = ResourceMetrics {
        resource: vec![],
        scope_metrics: vec![],
    };
    let mut small = visitor();
    small.struct_size = 24;
    assert!(otel_metric_batch_visit(&mut errors, Some(&metrics), Some(&small), 24).is_ok());
    assert_eq!(
        otel_metric_batch_visit(&mut errors, Some(&metrics), Some(&small), 25).err(),
        Some(OtelStatus::InvalidConfig)
    );
    let mut table = callbacks();
    table.struct_size = 20;
    let mut exporter: Option<OtelMetricExporter<()>> = None;
    assert_eq!(
        otel_custom_metric_exporter_new(&mut errors, Some(table), 20, 0, 0, Some(&mut exporter)),
        OtelStatus::Success
    );
    assert_eq!(
        otel_custom_metric_exporter_new(&mut errors, Some(table), 21, 0, 0, Some(&mut exporter)),
        OtelStatus::InvalidConfig
    );
}

#[test]
fn attributes_are_shown_with_exact_words_and_readable_texts() {
    let value = Value::Array(Array::Bool(vec![true, false]));
    let shown = convert_attribute_parts("", &value).expect("attribute");
    assert_eq!(shown.key.as_str(), Ok(""));
    assert_eq!(shown.value_type, OTEL_METRIC_ATTRIBUTE_BOOL_ARRAY);
    match shown.value {
        OtelMetricAttributeValue::Array(OtelMetricArrayView::Bools(words)) => {
            assert_eq!(words, [1, 0]);
        }
        _ => panic!("expected words"),
    }
    let value = Value::Bool(true);
    let shown = convert_attribute_parts("k", &value).expect("attribute");
    assert!(matches!(
        shown.value,
        OtelMetricAttributeValue::Scalar(OtelAttributeValue::Bool(1))
    ));
    let value = Value::String(String::new());
    let shown = convert_attribute_parts("k", &value).expect("attribute");
    match shown.value {
        OtelMetricAttributeValue::Scalar(OtelAttributeValue::Text(view)) => {
            assert_eq!(view.as_str(), Ok(""));
        }
        _ => panic!("expected a text"),
    }
    assert!(convert_attribute_parts("k", &Value::Unknown).is_none());
}
