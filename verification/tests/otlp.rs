use std::collections::HashMap;

use opentelemetry::metrics::MeterProvider as _;
use opentelemetry_otlp::{
    MetricExporter, Protocol, SpanExporter, WithExportConfig, WithHttpConfig, WithTonicConfig,
};
use opentelemetry_sdk::metrics as sdk_metrics;
use opentelemetry_sdk::metrics::data::{AggregatedMetrics, MetricData};
use opentelemetry_sdk::metrics::{
    InMemoryMetricExporterBuilder, PeriodicReader, SdkMeterProvider,
};

use opentelemetry_c_sdk::abi::{OtelStatus, OtelStringView};
use opentelemetry_c_sdk::error::{ErrorState, OTelSdkError};
use opentelemetry_c_sdk::features::Features;
use opentelemetry_c_sdk::grpc_metadata::{build_grpc_metadata, GRPC_METADATA_MAX_HEADERS};
use opentelemetry_c_sdk::grpc_runtime::{
    dispose_grpc_runtime, grpc_export_gate, RuntimeDisposal,
};
use opentelemetry_c_sdk::metric_data::Temporality;
use opentelemetry_c_sdk::metric_exporter::{
    otel_metric_exporter_destroy, MetricRelease, OtelMetricExporter,
};
use opentelemetry_c_sdk::otlp_config::{
    fail_build, validate_compression_available, validate_transport_available, BuildFailure,
    Compression, OtlpCompression, OtlpPlan, OtlpSettings, Transport,
};
use opentelemetry_c_sdk::otlp_exporter::{
    otel_otlp_trace_exporter_builder_add_header, otel_otlp_trace_exporter_builder_build,
    otel_otlp_trace_exporter_builder_destroy, otel_otlp_trace_exporter_builder_new,
    otel_otlp_trace_exporter_builder_set_compression,
    otel_otlp_trace_exporter_builder_set_endpoint,
    otel_otlp_trace_exporter_builder_set_timeout_millis,
    otel_otlp_trace_exporter_builder_set_transport, trace_exporter_built,
    OtelOtlpTraceExporterBuilder,
};
use opentelemetry_c_sdk::otlp_metric_exporter::{
    configured_temporality, metric_exporter_built, otel_otlp_metric_exporter_builder_add_header,
    otel_otlp_metric_exporter_builder_build, otel_otlp_metric_exporter_builder_destroy,
    otel_otlp_metric_exporter_builder_new, otel_otlp_metric_exporter_builder_set_compression,
    otel_otlp_metric_exporter_builder_set_endpoint,
    otel_otlp_metric_exporter_builder_set_temporality,
    otel_otlp_metric_exporter_builder_set_timeout_millis,
    otel_otlp_metric_exporter_builder_set_transport, OtelOtlpMetricExporterBuilder,
};
use opentelemetry_c_sdk::time::Duration;
use opentelemetry_c_sdk::trace_exporter::{
    otel_trace_exporter_destroy, OtelTraceExporter, TraceRelease,
};

/// What the crates that these tests are linked with can do.
const LINKED: Features = Features {
    otlp_http: true,
    otlp_grpc: true,
    otlp_http_gzip: false,
    otlp_http_zstd: false,
    otlp_grpc_gzip: false,
    otlp_grpc_zstd: false,
};

const NOTHING: Features = Features {
    otlp_http: false,
    otlp_grpc: false,
    ..LINKED
};

fn sv(s: &str) -> OtelStringView<'_> {
    OtelStringView::of(s)
}

fn std_duration(d: Duration) -> std::time::Duration {
    std::time::Duration::new(d.secs, d.nanos)
}

fn sdk_compression(compression: OtlpCompression) -> opentelemetry_otlp::Compression {
    match compression {
        OtlpCompression::Gzip => opentelemetry_otlp::Compression::Gzip,
        OtlpCompression::Zstd => opentelemetry_otlp::Compression::Zstd,
    }
}

fn sdk_temporality(temporality: Temporality) -> sdk_metrics::Temporality {
    match temporality {
        Temporality::Cumulative => sdk_metrics::Temporality::Cumulative,
        Temporality::Delta => sdk_metrics::Temporality::Delta,
        Temporality::LowMemory => sdk_metrics::Temporality::LowMemory,
    }
}

fn runtime() -> Result<tokio::runtime::Runtime, BuildFailure> {
    tokio::runtime::Builder::new_multi_thread()
        .worker_threads(1)
        .max_blocking_threads(2)
        .enable_all()
        .build()
        .map_err(|error| BuildFailure::Runtime(error.to_string()))
}

enum Built<T> {
    Http(#[allow(dead_code)] T),
    Grpc(#[allow(dead_code)] T, tokio::runtime::Runtime),
}

fn build_metric(plan: OtlpPlan<'_>) -> Result<Built<MetricExporter>, BuildFailure> {
    match plan {
        OtlpPlan::Http { settings, headers } => {
            let mut builder = MetricExporter::builder()
                .with_http()
                .with_protocol(Protocol::HttpBinary);
            if let Some(endpoint) = settings.endpoint {
                builder = builder.with_endpoint(endpoint.clone());
            }
            if let Some(timeout) = settings.timeout {
                builder = builder.with_timeout(std_duration(timeout));
            }
            if !headers.is_empty() {
                let headers: HashMap<String, String> = headers.iter().cloned().collect();
                builder = builder.with_headers(headers);
            }
            if let Some(compression) = settings.compression {
                builder = builder.with_compression(sdk_compression(compression));
            }
            if let Some(temporality) = settings.temporality {
                builder = builder.with_temporality(sdk_temporality(temporality));
            }
            builder
                .build()
                .map(Built::Http)
                .map_err(|error| BuildFailure::Http(error.to_string()))
        }
        OtlpPlan::Grpc { settings, metadata } => {
            let runtime = runtime()?;
            let exporter = {
                let _guard = runtime.enter();
                let mut builder = MetricExporter::builder().with_tonic();
                if let Some(endpoint) = settings.endpoint {
                    builder = builder.with_endpoint(endpoint.clone());
                }
                if let Some(timeout) = settings.timeout {
                    builder = builder.with_timeout(std_duration(timeout));
                }
                if !metadata.is_empty() {
                    builder = builder.with_metadata(metadata);
                }
                if let Some(compression) = settings.compression {
                    builder = builder.with_compression(sdk_compression(compression));
                }
                if let Some(temporality) = settings.temporality {
                    builder = builder.with_temporality(sdk_temporality(temporality));
                }
                builder.build()
            };
            exporter
                .map(|exporter| Built::Grpc(exporter, runtime))
                .map_err(|error| BuildFailure::Grpc(error.to_string()))
        }
    }
}

fn build_trace(plan: OtlpPlan<'_>) -> Result<Built<SpanExporter>, BuildFailure> {
    match plan {
        OtlpPlan::Http { settings, headers } => {
            let mut builder = SpanExporter::builder()
                .with_http()
                .with_protocol(Protocol::HttpBinary);
            if let Some(endpoint) = settings.endpoint {
                builder = builder.with_endpoint(endpoint.clone());
            }
            if !headers.is_empty() {
                let headers: HashMap<String, String> = headers.iter().cloned().collect();
                builder = builder.with_headers(headers);
            }
            builder
                .build()
                .map(Built::Http)
                .map_err(|error| BuildFailure::Http(error.to_string()))
        }
        OtlpPlan::Grpc { settings, metadata } => {
            let runtime = runtime()?;
            let exporter = {
                let _guard = runtime.enter();
                let mut builder = SpanExporter::builder().with_tonic();
                if let Some(endpoint) = settings.endpoint {
                    builder = builder.with_endpoint(endpoint.clone());
                }
                if !metadata.is_empty() {
                    builder = builder.with_metadata(metadata);
                }
                builder.build()
            };
            exporter
                .map(|exporter| Built::Grpc(exporter, runtime))
                .map_err(|error| BuildFailure::Grpc(error.to_string()))
        }
    }
}

type TraceHandle = OtelTraceExporter<Built<SpanExporter>>;
type MetricHandle = OtelMetricExporter<Built<MetricExporter>>;

fn trace_build(
    errors: &mut ErrorState,
    features: Features,
    builder: Option<&OtelOtlpTraceExporterBuilder>,
    out: &mut Option<TraceHandle>,
) -> OtelStatus {
    let (plan, warnings) = otel_otlp_trace_exporter_builder_build(
        errors,
        features,
        builder,
        None,
        None,
        Some(&mut *out),
    );
    assert!(warnings.is_empty());
    match plan {
        Err(status) => status,
        Ok(plan) => trace_exporter_built(errors, build_trace(plan), out),
    }
}

fn metric_build(
    errors: &mut ErrorState,
    features: Features,
    builder: Option<&OtelOtlpMetricExporterBuilder>,
    out: &mut Option<MetricHandle>,
) -> OtelStatus {
    match otel_otlp_metric_exporter_builder_build(errors, features, builder, Some(&mut *out)) {
        Err(status) => status,
        Ok(plan) => metric_exporter_built(errors, build_metric(plan), out),
    }
}

fn dispose<T>(built: Built<T>) {
    if let Built::Grpc(exporter, runtime) = built {
        assert_eq!(dispose_grpc_runtime(None, 1), RuntimeDisposal::Inline);
        drop(exporter);
        drop(runtime);
    }
}

fn trace_destroy(out: &mut Option<TraceHandle>) {
    match otel_trace_exporter_destroy(out) {
        Some(TraceRelease::Drop(built)) => dispose(built),
        _ => panic!("expected an exporter"),
    }
}

fn metric_destroy(out: &mut Option<MetricHandle>) {
    match otel_metric_exporter_destroy(out) {
        Some(MetricRelease::Drop(built)) => dispose(built),
        _ => panic!("expected an exporter"),
    }
}

#[test]
fn every_setter_rejects_null_and_destroyed_builders() {
    let mut errors = ErrorState::new();
    let mut dead = otel_otlp_trace_exporter_builder_new(&mut errors);
    dead.header.poison();
    for poisoned in [false, true] {
        let mut dead = if poisoned { Some(&mut dead) } else { None };
        assert_eq!(
            otel_otlp_trace_exporter_builder_set_endpoint(
                &mut errors,
                dead.as_deref_mut(),
                sv("http://localhost")
            ),
            OtelStatus::InvalidArgument
        );
        assert_eq!(
            otel_otlp_trace_exporter_builder_add_header(
                &mut errors,
                dead.as_deref_mut(),
                sv("k"),
                sv("v")
            ),
            OtelStatus::InvalidArgument
        );
        assert_eq!(
            otel_otlp_trace_exporter_builder_set_timeout_millis(
                &mut errors,
                dead.as_deref_mut(),
                10
            ),
            OtelStatus::InvalidArgument
        );
        assert_eq!(
            otel_otlp_trace_exporter_builder_set_transport(&mut errors, dead.as_deref_mut(), 0),
            OtelStatus::InvalidArgument
        );
        assert_eq!(
            otel_otlp_trace_exporter_builder_set_compression(&mut errors, dead.as_deref_mut(), 0),
            OtelStatus::InvalidArgument
        );
        let mut out = None;
        assert_eq!(
            trace_build(&mut errors, LINKED, dead.as_deref(), &mut out),
            OtelStatus::InvalidArgument
        );
        assert!(out.is_none());
    }
    let mut none: Option<OtelOtlpTraceExporterBuilder> = None;
    otel_otlp_trace_exporter_builder_destroy(&mut none);
    assert!(none.is_none());
}

#[test]
fn transport_and_compression_selectors_are_validated() {
    let mut errors = ErrorState::new();
    let mut builder = otel_otlp_trace_exporter_builder_new(&mut errors);
    assert!(!builder.config.transport_set);
    assert_eq!(
        otel_otlp_trace_exporter_builder_set_transport(&mut errors, Some(&mut builder), 1),
        OtelStatus::Success
    );
    assert_eq!(builder.config.transport, Transport::Grpc);
    assert!(builder.config.transport_set);
    assert_eq!(
        otel_otlp_trace_exporter_builder_set_transport(&mut errors, Some(&mut builder), 0),
        OtelStatus::Success
    );
    assert_eq!(builder.config.transport, Transport::HttpProtobuf);
    assert_eq!(
        otel_otlp_trace_exporter_builder_set_compression(&mut errors, Some(&mut builder), 1),
        OtelStatus::Success
    );
    assert_eq!(builder.config.compression, Compression::Gzip);
    assert_eq!(
        otel_otlp_trace_exporter_builder_set_compression(&mut errors, Some(&mut builder), 2),
        OtelStatus::Success
    );
    assert_eq!(builder.config.compression, Compression::Zstd);
    assert_eq!(
        otel_otlp_trace_exporter_builder_set_compression(&mut errors, Some(&mut builder), 0),
        OtelStatus::Success
    );
    assert_eq!(builder.config.compression, Compression::Off);
    let mut slot = Some(builder);
    otel_otlp_trace_exporter_builder_destroy(&mut slot);
    assert!(slot.is_none());
}

#[test]
fn unknown_transport_and_compression_selectors_are_rejected() {
    let mut errors = ErrorState::new();
    let mut builder = otel_otlp_trace_exporter_builder_new(&mut errors);
    assert_eq!(
        otel_otlp_trace_exporter_builder_set_transport(&mut errors, Some(&mut builder), u32::MAX),
        OtelStatus::InvalidArgument
    );
    assert_eq!(
        otel_otlp_trace_exporter_builder_set_compression(&mut errors, Some(&mut builder), 3),
        OtelStatus::InvalidArgument
    );
    assert_eq!(builder.config.transport, Transport::HttpProtobuf);
    assert_eq!(builder.config.compression, Compression::Off);
}

#[test]
fn duplicate_header_key_is_rejected() {
    let mut errors = ErrorState::new();
    let mut builder = otel_otlp_trace_exporter_builder_new(&mut errors);
    assert_eq!(
        otel_otlp_trace_exporter_builder_add_header(
            &mut errors,
            Some(&mut builder),
            sv("authorization"),
            sv("first")
        ),
        OtelStatus::Success
    );
    assert_eq!(
        otel_otlp_trace_exporter_builder_add_header(
            &mut errors,
            Some(&mut builder),
            sv("Authorization"),
            sv("second")
        ),
        OtelStatus::InvalidArgument
    );
    assert!(errors.message.contains("already exists"));
    assert_eq!(
        otel_otlp_trace_exporter_builder_add_header(
            &mut errors,
            Some(&mut builder),
            sv("x-custom"),
            sv("v")
        ),
        OtelStatus::Success
    );
    let mut exporter = None;
    assert_eq!(
        trace_build(&mut errors, LINKED, Some(&builder), &mut exporter),
        OtelStatus::Success
    );
    assert!(exporter.is_some());
    trace_destroy(&mut exporter);
}

#[test]
fn endpoint_and_timeout_use_the_last_value_and_zero_means_default() {
    let mut errors = ErrorState::new();
    let mut builder = otel_otlp_trace_exporter_builder_new(&mut errors);
    assert_eq!(
        otel_otlp_trace_exporter_builder_set_endpoint(
            &mut errors,
            Some(&mut builder),
            sv("http://a/v1/traces")
        ),
        OtelStatus::Success
    );
    assert_eq!(
        otel_otlp_trace_exporter_builder_set_endpoint(
            &mut errors,
            Some(&mut builder),
            sv("http://b/v1/traces")
        ),
        OtelStatus::Success
    );
    assert_eq!(
        builder.config.endpoint.as_deref(),
        Some("http://b/v1/traces")
    );
    assert_eq!(
        otel_otlp_trace_exporter_builder_set_timeout_millis(
            &mut errors,
            Some(&mut builder),
            250
        ),
        OtelStatus::Success
    );
    assert_eq!(builder.config.timeout, Some(Duration::from_millis(250)));
    assert_eq!(
        otel_otlp_trace_exporter_builder_set_timeout_millis(&mut errors, Some(&mut builder), 0),
        OtelStatus::Success
    );
    assert_eq!(builder.config.timeout, None);
}

#[test]
fn transport_availability_matches_the_compiled_feature_set() {
    let mut errors = ErrorState::new();
    for features in [
        LINKED,
        NOTHING,
        Features {
            otlp_http: true,
            ..NOTHING
        },
        Features {
            otlp_grpc: true,
            ..NOTHING
        },
    ] {
        assert_eq!(
            validate_transport_available(
                &mut errors,
                "Traces",
                features,
                Transport::HttpProtobuf
            )
            .is_ok(),
            features.otlp_http
        );
        assert_eq!(
            validate_transport_available(&mut errors, "Traces", features, Transport::Grpc).is_ok(),
            features.otlp_grpc
        );
    }
}

#[test]
fn compression_availability_matches_the_compiled_feature_set() {
    let mut errors = ErrorState::new();
    for features in [
        LINKED,
        NOTHING,
        Features {
            otlp_http_gzip: true,
            ..LINKED
        },
        Features {
            otlp_http_zstd: true,
            ..LINKED
        },
        Features {
            otlp_grpc_gzip: true,
            ..LINKED
        },
        Features {
            otlp_grpc_zstd: true,
            ..LINKED
        },
    ] {
        for transport in [Transport::HttpProtobuf, Transport::Grpc] {
            assert!(validate_compression_available(
                &mut errors,
                features,
                transport,
                Compression::Off
            )
            .is_ok());
        }
        let mut available = |transport: Transport, compression: Compression| {
            validate_compression_available(&mut errors, features, transport, compression).is_ok()
        };
        assert_eq!(
            available(Transport::HttpProtobuf, Compression::Gzip),
            features.otlp_http_gzip
        );
        assert_eq!(
            available(Transport::HttpProtobuf, Compression::Zstd),
            features.otlp_http_zstd
        );
        assert_eq!(
            available(Transport::Grpc, Compression::Gzip),
            features.otlp_grpc_gzip
        );
        assert_eq!(
            available(Transport::Grpc, Compression::Zstd),
            features.otlp_grpc_zstd
        );
    }
}

#[test]
fn http_build_succeeds_without_contacting_the_endpoint() {
    let mut errors = ErrorState::new();
    let mut builder = otel_otlp_trace_exporter_builder_new(&mut errors);
    assert_eq!(
        otel_otlp_trace_exporter_builder_set_endpoint(
            &mut errors,
            Some(&mut builder),
            sv("http://127.0.0.1:4318/v1/traces")
        ),
        OtelStatus::Success
    );
    let mut exporter = None;
    assert_eq!(
        trace_build(&mut errors, LINKED, Some(&builder), &mut exporter),
        OtelStatus::Success
    );
    assert!(exporter.is_some());
    trace_destroy(&mut exporter);
}

fn headers(entries: &[(&str, &str)]) -> Vec<(String, String)> {
    entries
        .iter()
        .map(|(key, value)| ((*key).to_owned(), (*value).to_owned()))
        .collect()
}

#[test]
fn grpc_metadata_rejects_binary_keys_and_invalid_values() {
    let mut errors = ErrorState::new();
    assert!(build_grpc_metadata(&mut errors, &headers(&[("x-trace-bin", "v")])).is_err());
    assert!(build_grpc_metadata(&mut errors, &headers(&[("bad key", "v")])).is_err());
    assert!(build_grpc_metadata(&mut errors, &headers(&[("ok", "\n")])).is_err());
    assert!(build_grpc_metadata(&mut errors, &headers(&[("ok", "value")])).is_ok());
    assert!(build_grpc_metadata(&mut errors, &headers(&[("X-Trace-BIN", "v")])).is_err());
}

#[test]
fn grpc_metadata_keys_are_normalized_to_lowercase() {
    let mut errors = ErrorState::new();
    let metadata = build_grpc_metadata(
        &mut errors,
        &headers(&[("X-Tenant", "acme"), ("Authorization", "******")]),
    )
    .expect("mixed-case keys must be accepted, not deferred to build time");

    assert_eq!(
        metadata.get("x-tenant").map(|v| v.to_str().unwrap()),
        Some("acme")
    );
    assert_eq!(
        metadata.get("authorization").map(|v| v.to_str().unwrap()),
        Some("******")
    );
    for key in metadata.keys() {
        let tonic::metadata::KeyRef::Ascii(name) = key else {
            panic!("binary metadata keys are rejected before reaching the map");
        };
        let name = name.as_str();
        assert_eq!(name, name.to_ascii_lowercase(), "{name} is not lowercase");
    }
}

#[test]
fn a_repeated_metadata_key_keeps_its_last_value() {
    let mut errors = ErrorState::new();
    let metadata = build_grpc_metadata(&mut errors, &headers(&[("k", "1"), ("K", "2")]))
        .expect("metadata");
    assert_eq!(metadata.len(), 1);
    assert_eq!(metadata.get("k").map(|v| v.to_str().unwrap()), Some("2"));
    assert!(build_grpc_metadata(&mut errors, &headers(&[]))
        .expect("metadata")
        .is_empty());
}

#[test]
fn no_accepted_header_replaces_another() {
    let mut errors = ErrorState::new();
    let mut builder = otel_otlp_trace_exporter_builder_new(&mut errors);
    for (key, value) in [("X-One", "1"), ("x-two", "2"), ("X-ONE", "3")] {
        otel_otlp_trace_exporter_builder_add_header(
            &mut errors,
            Some(&mut builder),
            sv(key),
            sv(value),
        );
    }
    assert_eq!(errors.message, "OTLP header key already exists: X-ONE");
    let metadata = build_grpc_metadata(&mut errors, &builder.config.headers)
        .expect("metadata");
    assert_eq!(metadata.len(), 2);
    assert_eq!(
        metadata.get("x-one").map(|v| v.to_str().unwrap()),
        Some("1")
    );
    assert_eq!(
        metadata.get("x-two").map(|v| v.to_str().unwrap()),
        Some("2")
    );
}

#[test]
fn metadata_diagnostics_name_the_key_and_hide_the_value() {
    let mut errors = ErrorState::new();
    for (key, value, message) in [
        (
            "a-bin",
            "secret",
            "binary gRPC metadata is unsupported for key: a-bin",
        ),
        ("a b", "secret", "invalid gRPC metadata key: a b"),
        (
            "a",
            "sec\nret",
            "invalid gRPC metadata value for key: a",
        ),
        ("", "secret", "invalid gRPC metadata key: "),
    ] {
        assert_eq!(
            build_grpc_metadata(&mut errors, &headers(&[(key, value)])).err(),
            Some(OtelStatus::InvalidArgument)
        );
        assert_eq!(errors.message, message);
    }
    let value = "caf\u{e9}";
    let metadata = build_grpc_metadata(&mut errors, &headers(&[("a", value)]))
        .expect("metadata");
    assert_eq!(
        metadata.get("a").map(|v| v.as_encoded_bytes().to_vec()),
        Some(value.as_bytes().to_vec())
    );
}

#[test]
fn many_headers_fit_in_the_metadata() {
    let mut errors = ErrorState::new();
    let mut entries: Vec<(String, String)> = (0..GRPC_METADATA_MAX_HEADERS)
        .map(|i| (format!("k{i}"), format!("{i}")))
        .collect();
    let metadata = build_grpc_metadata(&mut errors, &entries).expect("metadata");
    assert_eq!(metadata.len(), GRPC_METADATA_MAX_HEADERS);
    assert_eq!(errors.message, "");

    // More of them go in too, as long as the map can grow.
    entries.push(("beyond".to_owned(), "1".to_owned()));
    let metadata = build_grpc_metadata(&mut errors, &entries).expect("metadata");
    assert_eq!(metadata.len(), GRPC_METADATA_MAX_HEADERS + 1);
    assert_eq!(
        metadata.get("beyond").map(|v| v.to_str().unwrap()),
        Some("1")
    );
    entries.push(("be yond".to_owned(), "1".to_owned()));
    assert_eq!(
        build_grpc_metadata(&mut errors, &entries).err(),
        Some(OtelStatus::InvalidArgument)
    );
    assert_eq!(errors.message, "invalid gRPC metadata key: be yond");
}

#[test]
fn headers_that_do_not_fit_in_the_metadata_are_refused() {
    let mut errors = ErrorState::new();
    let mut entries: Vec<(String, String)> = (0..40_000)
        .map(|i| (format!("k{i}"), String::new()))
        .collect();
    assert_eq!(
        build_grpc_metadata(&mut errors, &entries).err(),
        Some(OtelStatus::InternalError)
    );
    assert_eq!(errors.message, "caught panic at FFI boundary");
    assert_eq!(errors.last_status, OtelStatus::Success);

    // A fault beyond the full map is not reached, one before it is.
    entries[39_999].0 = "be yond".to_owned();
    assert_eq!(
        build_grpc_metadata(&mut errors, &entries).err(),
        Some(OtelStatus::InternalError)
    );
    entries[10].0 = "be fore".to_owned();
    assert_eq!(
        build_grpc_metadata(&mut errors, &entries).err(),
        Some(OtelStatus::InvalidArgument)
    );
    assert_eq!(errors.message, "invalid gRPC metadata key: be fore");
}

#[test]
fn grpc_build_creates_its_own_runtime_and_shuts_it_down() {
    let mut errors = ErrorState::new();
    let mut builder = otel_otlp_trace_exporter_builder_new(&mut errors);
    assert_eq!(
        otel_otlp_trace_exporter_builder_set_transport(&mut errors, Some(&mut builder), 1),
        OtelStatus::Success
    );
    assert_eq!(
        otel_otlp_trace_exporter_builder_set_endpoint(
            &mut errors,
            Some(&mut builder),
            sv("http://127.0.0.1:4317")
        ),
        OtelStatus::Success
    );
    let mut exporter = None;
    assert_eq!(
        trace_build(&mut errors, LINKED, Some(&builder), &mut exporter),
        OtelStatus::Success
    );
    assert!(exporter.is_some());
    trace_destroy(&mut exporter);
}

#[test]
fn build_with_null_out_is_invalid() {
    let mut errors = ErrorState::new();
    let builder = otel_otlp_trace_exporter_builder_new(&mut errors);
    let (plan, _) = otel_otlp_trace_exporter_builder_build::<()>(
        &mut errors,
        LINKED,
        Some(&builder),
        None,
        None,
        None,
    );
    assert_eq!(plan.err(), Some(OtelStatus::InvalidArgument));
}

#[test]
fn the_environment_selects_the_transport_that_no_setter_selected() {
    let mut errors = ErrorState::new();
    let mut builder = otel_otlp_trace_exporter_builder_new(&mut errors);
    let mut out: Option<OtelTraceExporter<()>> = None;
    let (plan, warnings) = otel_otlp_trace_exporter_builder_build(
        &mut errors,
        LINKED,
        Some(&builder),
        Some("grpc".to_owned()),
        Some("http/protobuf".to_owned()),
        Some(&mut out),
    );
    assert!(matches!(plan, Ok(OtlpPlan::Grpc { .. })));
    assert!(warnings.is_empty());
    let (plan, warnings) = otel_otlp_trace_exporter_builder_build(
        &mut errors,
        LINKED,
        Some(&builder),
        Some("http/json".to_owned()),
        Some("grpc".to_owned()),
        Some(&mut out),
    );
    assert!(matches!(plan, Ok(OtlpPlan::Grpc { .. })));
    assert_eq!(warnings.len(), 1);
    otel_otlp_trace_exporter_builder_set_transport(&mut errors, Some(&mut builder), 0);
    let (plan, warnings) = otel_otlp_trace_exporter_builder_build(
        &mut errors,
        LINKED,
        Some(&builder),
        Some("grpc".to_owned()),
        None,
        Some(&mut out),
    );
    assert!(matches!(plan, Ok(OtlpPlan::Http { .. })));
    assert!(warnings.is_empty());
}

#[test]
fn endpoint_and_timeout_setters_validate_and_use_last_value() {
    let mut errors = ErrorState::new();
    assert_eq!(
        otel_otlp_metric_exporter_builder_set_endpoint(
            &mut errors,
            None,
            sv("http://localhost:4318/v1/metrics")
        ),
        OtelStatus::InvalidArgument
    );
    assert_eq!(
        otel_otlp_metric_exporter_builder_set_timeout_millis(&mut errors, None, 10),
        OtelStatus::InvalidArgument
    );

    let mut dead = otel_otlp_metric_exporter_builder_new(&mut errors);
    dead.header.poison();
    assert_eq!(
        otel_otlp_metric_exporter_builder_set_endpoint(
            &mut errors,
            Some(&mut dead),
            sv("http://localhost")
        ),
        OtelStatus::InvalidArgument
    );
    assert_eq!(
        otel_otlp_metric_exporter_builder_set_timeout_millis(&mut errors, Some(&mut dead), 10),
        OtelStatus::InvalidArgument
    );
    assert_eq!(
        otel_otlp_metric_exporter_builder_set_transport(&mut errors, Some(&mut dead), 1),
        OtelStatus::InvalidArgument
    );
    assert_eq!(
        otel_otlp_metric_exporter_builder_set_compression(&mut errors, Some(&mut dead), 1),
        OtelStatus::InvalidArgument
    );

    let mut builder = otel_otlp_metric_exporter_builder_new(&mut errors);
    assert_eq!(
        otel_otlp_metric_exporter_builder_set_endpoint(
            &mut errors,
            Some(&mut builder),
            OtelStringView::empty()
        ),
        OtelStatus::Success
    );
    assert_eq!(builder.config.endpoint.as_deref(), Some(""));

    let first_endpoint = "http://127.0.0.1:4318/first";
    let final_endpoint = "http://127.0.0.1:4318/v1/metrics";
    for endpoint in [first_endpoint, final_endpoint] {
        assert_eq!(
            otel_otlp_metric_exporter_builder_set_endpoint(
                &mut errors,
                Some(&mut builder),
                sv(endpoint)
            ),
            OtelStatus::Success
        );
    }
    assert_eq!(builder.config.endpoint.as_deref(), Some(final_endpoint));

    for millis in [125, 250] {
        assert_eq!(
            otel_otlp_metric_exporter_builder_set_timeout_millis(
                &mut errors,
                Some(&mut builder),
                millis
            ),
            OtelStatus::Success
        );
        assert_eq!(builder.config.timeout, Some(Duration::from_millis(millis)));
    }
    assert_eq!(
        otel_otlp_metric_exporter_builder_set_timeout_millis(&mut errors, Some(&mut builder), 0),
        OtelStatus::Success
    );
    assert!(
        builder.config.timeout.is_none(),
        "zero must preserve the exporter default timeout"
    );

    let invalid_utf8 = [0xff_u8];
    assert_eq!(
        otel_otlp_metric_exporter_builder_set_endpoint(
            &mut errors,
            Some(&mut builder),
            OtelStringView {
                bytes: Some(&invalid_utf8)
            }
        ),
        OtelStatus::InvalidUtf8
    );
    assert!(errors.message.to_ascii_lowercase().contains("utf-8"));
    assert_eq!(
        builder.config.endpoint.as_deref(),
        Some(final_endpoint),
        "a rejected endpoint must not corrupt the live builder"
    );

    let mut exporter = None;
    assert_eq!(
        metric_build(&mut errors, LINKED, Some(&builder), &mut exporter),
        OtelStatus::Success
    );
    assert!(exporter.is_some());
    metric_destroy(&mut exporter);
    let mut slot = Some(builder);
    otel_otlp_metric_exporter_builder_destroy(&mut slot);
    assert!(slot.is_none());
}

#[test]
fn transport_and_compression_setters_validate_and_use_last_value() {
    let mut errors = ErrorState::new();
    assert_eq!(
        otel_otlp_metric_exporter_builder_set_transport(&mut errors, None, 1),
        OtelStatus::InvalidArgument
    );
    assert_eq!(
        otel_otlp_metric_exporter_builder_set_compression(&mut errors, None, 1),
        OtelStatus::InvalidArgument
    );

    let mut builder = otel_otlp_metric_exporter_builder_new(&mut errors);
    assert_eq!(builder.config.transport, Transport::HttpProtobuf);
    assert_eq!(builder.config.compression, Compression::Off);
    for (code, status, transport) in [
        (1, OtelStatus::Success, Transport::Grpc),
        (0, OtelStatus::Success, Transport::HttpProtobuf),
        (2, OtelStatus::InvalidArgument, Transport::HttpProtobuf),
    ] {
        assert_eq!(
            otel_otlp_metric_exporter_builder_set_transport(
                &mut errors,
                Some(&mut builder),
                code
            ),
            status
        );
        assert_eq!(builder.config.transport, transport);
    }
    for (code, status, compression) in [
        (1, OtelStatus::Success, Compression::Gzip),
        (2, OtelStatus::Success, Compression::Zstd),
        (0, OtelStatus::Success, Compression::Off),
        (3, OtelStatus::InvalidArgument, Compression::Off),
    ] {
        assert_eq!(
            otel_otlp_metric_exporter_builder_set_compression(
                &mut errors,
                Some(&mut builder),
                code
            ),
            status
        );
        assert_eq!(builder.config.compression, compression);
    }
}

#[test]
fn unavailable_requested_transport_fails_without_fallback() {
    let mut errors = ErrorState::new();
    let mut builder = otel_otlp_metric_exporter_builder_new(&mut errors);
    let mut exporter: Option<MetricHandle> = None;
    let grpc_only = Features {
        otlp_grpc: true,
        ..NOTHING
    };
    assert_eq!(
        metric_build(&mut errors, grpc_only, Some(&builder), &mut exporter),
        OtelStatus::InvalidConfig
    );
    assert!(exporter.is_none());
    assert!(errors.message.contains("otlp-http"));

    assert_eq!(
        otel_otlp_metric_exporter_builder_set_transport(&mut errors, Some(&mut builder), 1),
        OtelStatus::Success
    );
    let http_only = Features {
        otlp_http: true,
        ..NOTHING
    };
    assert_eq!(
        metric_build(&mut errors, http_only, Some(&builder), &mut exporter),
        OtelStatus::InvalidConfig
    );
    assert!(exporter.is_none());
    assert!(errors.message.contains("otlp-grpc"));
}

#[test]
fn grpc_build_validates_metadata_and_owns_runtime() {
    let mut errors = ErrorState::new();
    let mut builder = otel_otlp_metric_exporter_builder_new(&mut errors);
    assert_eq!(
        otel_otlp_metric_exporter_builder_set_transport(&mut errors, Some(&mut builder), 1),
        OtelStatus::Success
    );
    assert_eq!(
        otel_otlp_metric_exporter_builder_set_endpoint(
            &mut errors,
            Some(&mut builder),
            sv("http://127.0.0.1:9")
        ),
        OtelStatus::Success
    );
    assert_eq!(
        otel_otlp_metric_exporter_builder_add_header(
            &mut errors,
            Some(&mut builder),
            sv("authorization-bin"),
            sv("not-binary")
        ),
        OtelStatus::Success
    );
    let mut exporter = None;
    assert_eq!(
        metric_build(&mut errors, LINKED, Some(&builder), &mut exporter),
        OtelStatus::InvalidArgument
    );
    assert!(exporter.is_none());
    assert!(errors.message.contains("authorization-bin"));
    assert!(!errors.message.contains("not-binary"));

    builder.config.headers.clear();
    assert_eq!(
        otel_otlp_metric_exporter_builder_add_header(
            &mut errors,
            Some(&mut builder),
            sv("x-tenant"),
            sv("integration")
        ),
        OtelStatus::Success
    );
    assert_eq!(
        metric_build(&mut errors, LINKED, Some(&builder), &mut exporter),
        OtelStatus::Success
    );
    assert!(exporter.is_some());
    metric_destroy(&mut exporter);

    builder.config.headers.clear();
    assert_eq!(
        otel_otlp_metric_exporter_builder_add_header(
            &mut errors,
            Some(&mut builder),
            sv("x-secret"),
            sv("private\nvalue")
        ),
        OtelStatus::Success
    );
    assert_eq!(
        metric_build(&mut errors, LINKED, Some(&builder), &mut exporter),
        OtelStatus::InvalidArgument
    );
    assert!(exporter.is_none());
    assert!(errors.message.contains("x-secret"));
    assert!(!errors.message.contains("private"));
}

#[test]
fn grpc_rejects_invalid_endpoint() {
    let mut errors = ErrorState::new();
    let mut builder = otel_otlp_metric_exporter_builder_new(&mut errors);
    assert_eq!(
        otel_otlp_metric_exporter_builder_set_transport(&mut errors, Some(&mut builder), 1),
        OtelStatus::Success
    );
    assert_eq!(
        otel_otlp_metric_exporter_builder_set_endpoint(
            &mut errors,
            Some(&mut builder),
            sv("not a URI")
        ),
        OtelStatus::Success
    );
    let mut exporter = None;
    assert_eq!(
        metric_build(&mut errors, LINKED, Some(&builder), &mut exporter),
        OtelStatus::InvalidConfig
    );
    assert!(exporter.is_none());
    assert!(errors
        .message
        .starts_with("failed to build OTLP gRPC metric exporter: "));
}

#[test]
fn grpc_https_requires_tls_feature() {
    let mut errors = ErrorState::new();
    let mut builder = otel_otlp_metric_exporter_builder_new(&mut errors);
    assert_eq!(
        otel_otlp_metric_exporter_builder_set_transport(&mut errors, Some(&mut builder), 1),
        OtelStatus::Success
    );
    assert_eq!(
        otel_otlp_metric_exporter_builder_set_endpoint(
            &mut errors,
            Some(&mut builder),
            sv("https://localhost:4317")
        ),
        OtelStatus::Success
    );
    let mut exporter = None;
    assert_eq!(
        metric_build(&mut errors, LINKED, Some(&builder), &mut exporter),
        OtelStatus::InvalidConfig
    );
    assert!(exporter.is_none());
}

#[test]
fn grpc_rejects_unavailable_compression() {
    let mut errors = ErrorState::new();
    let mut builder = otel_otlp_metric_exporter_builder_new(&mut errors);
    assert_eq!(
        otel_otlp_metric_exporter_builder_set_transport(&mut errors, Some(&mut builder), 1),
        OtelStatus::Success
    );
    assert_eq!(
        otel_otlp_metric_exporter_builder_set_compression(&mut errors, Some(&mut builder), 1),
        OtelStatus::Success
    );
    let mut exporter = None;
    assert_eq!(
        metric_build(&mut errors, LINKED, Some(&builder), &mut exporter),
        OtelStatus::InvalidConfig
    );
    assert!(exporter.is_none());
}

#[test]
fn setters_validate_temporality_and_duplicate_headers() {
    let mut errors = ErrorState::new();
    let mut builder = otel_otlp_metric_exporter_builder_new(&mut errors);
    assert_eq!(
        otel_otlp_metric_exporter_builder_set_temporality(&mut errors, Some(&mut builder), 4),
        OtelStatus::InvalidArgument
    );
    assert_eq!(
        otel_otlp_metric_exporter_builder_add_header(
            &mut errors,
            Some(&mut builder),
            sv("x-test"),
            sv("one")
        ),
        OtelStatus::Success
    );
    assert_eq!(
        otel_otlp_metric_exporter_builder_add_header(
            &mut errors,
            Some(&mut builder),
            sv("X-Test"),
            sv("two")
        ),
        OtelStatus::InvalidArgument
    );
}

fn exported_temporalities(
    preference: u32,
) -> (sdk_metrics::Temporality, sdk_metrics::Temporality) {
    let selected = configured_temporality(preference)
        .map(sdk_temporality)
        .unwrap_or_default();
    let exporter = InMemoryMetricExporterBuilder::new()
        .with_temporality(selected)
        .build();
    let reader = PeriodicReader::builder(exporter.clone()).build();
    let provider = SdkMeterProvider::builder().with_reader(reader).build();
    let meter = provider.meter("temporality");
    meter.u64_counter("counter").build().add(3, &[]);
    meter.i64_up_down_counter("up_down").build().add(-2, &[]);
    provider.force_flush().unwrap();
    let metrics = exporter.get_finished_metrics().unwrap();
    let mut counter = None;
    let mut up_down = None;
    for metric in metrics
        .iter()
        .flat_map(|resource| resource.scope_metrics())
        .flat_map(|scope| scope.metrics())
    {
        match (metric.name(), metric.data()) {
            ("counter", AggregatedMetrics::U64(MetricData::Sum(sum))) => {
                counter = Some(sum.temporality())
            }
            ("up_down", AggregatedMetrics::I64(MetricData::Sum(sum))) => {
                up_down = Some(sum.temporality())
            }
            _ => {}
        }
    }
    provider.shutdown().unwrap();
    (counter.unwrap(), up_down.unwrap())
}

#[test]
fn configured_temporality_drives_exported_aggregation() {
    use_temporality(1, sdk_metrics::Temporality::Cumulative);
    use_temporality(2, sdk_metrics::Temporality::Delta);
    use_temporality(3, sdk_metrics::Temporality::Delta);
}

fn use_temporality(preference: u32, counter: sdk_metrics::Temporality) {
    assert_eq!(
        exported_temporalities(preference),
        (counter, sdk_metrics::Temporality::Cumulative)
    );
}

#[test]
fn plans_carry_every_setting() {
    let mut errors = ErrorState::new();
    let mut builder = otel_otlp_metric_exporter_builder_new(&mut errors);
    otel_otlp_metric_exporter_builder_set_endpoint(&mut errors, Some(&mut builder), sv("e"));
    otel_otlp_metric_exporter_builder_set_timeout_millis(&mut errors, Some(&mut builder), 5);
    otel_otlp_metric_exporter_builder_set_temporality(&mut errors, Some(&mut builder), 3);
    otel_otlp_metric_exporter_builder_set_compression(&mut errors, Some(&mut builder), 2);
    otel_otlp_metric_exporter_builder_add_header(
        &mut errors,
        Some(&mut builder),
        sv("k"),
        sv("v"),
    );
    let mut out: Option<OtelMetricExporter<()>> = None;
    let features = Features {
        otlp_http_zstd: true,
        ..LINKED
    };
    match otel_otlp_metric_exporter_builder_build(
        &mut errors,
        features,
        Some(&builder),
        Some(&mut out),
    ) {
        Ok(OtlpPlan::Http {
            settings:
                OtlpSettings {
                    endpoint,
                    timeout,
                    compression,
                    temporality,
                },
            headers,
        }) => {
            assert_eq!(endpoint.map(String::as_str), Some("e"));
            assert_eq!(timeout, Some(Duration::from_millis(5)));
            assert_eq!(compression, Some(OtlpCompression::Zstd));
            assert_eq!(temporality, Some(Temporality::LowMemory));
            assert_eq!(headers, &[("k".to_owned(), "v".to_owned())]);
        }
        _ => panic!("expected an HTTP plan"),
    }
    assert!(configured_temporality(0).is_none());
}

#[test]
fn build_failures_have_their_status_and_message() {
    let mut errors = ErrorState::new();
    assert_eq!(
        fail_build(&mut errors, "trace", &BuildFailure::Http("x".to_owned())),
        OtelStatus::InvalidConfig
    );
    assert_eq!(
        errors.message,
        "failed to build OTLP HTTP trace exporter: x"
    );
    assert_eq!(
        fail_build(&mut errors, "metric", &BuildFailure::Grpc("y".to_owned())),
        OtelStatus::InvalidConfig
    );
    assert_eq!(
        errors.message,
        "failed to build OTLP gRPC metric exporter: y"
    );
    assert_eq!(
        fail_build(
            &mut errors,
            "metric",
            &BuildFailure::Runtime("z".to_owned())
        ),
        OtelStatus::InternalError
    );
    assert_eq!(
        errors.message,
        "failed to create OTLP gRPC runtime: z"
    );
}

#[test]
fn a_runtime_is_disposed_of_where_that_cannot_block() {
    assert_eq!(dispose_grpc_runtime(None, 7), RuntimeDisposal::Inline);
    assert_eq!(
        dispose_grpc_runtime(Some(8), 7),
        RuntimeDisposal::NeutralThread
    );
    assert_eq!(dispose_grpc_runtime(Some(7), 7), RuntimeDisposal::Background);
    assert!(grpc_export_gate("Metrics", false).is_ok());
    match grpc_export_gate("Metrics", true) {
        Err(OTelSdkError::InternalFailure(message)) => assert_eq!(
            message,
            "synchronous OTLP gRPC Metrics export cannot call block_on from an entered Tokio \
             runtime"
        ),
        _ => panic!("expected a failure"),
    }
}
