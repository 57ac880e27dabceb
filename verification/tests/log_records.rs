use std::time::{Duration, UNIX_EPOCH};

use opentelemetry::logs::{
    AnyValue as SdkAnyValue, LogRecord as _, Logger as _, LoggerProvider as _,
    Severity as SdkSeverity,
};
use opentelemetry::{Key, SpanId, TraceFlags, TraceId};
use opentelemetry_sdk::logs::in_memory_exporter::LogDataWithResource;
use opentelemetry_sdk::logs::{
    InMemoryLogExporter, SdkLogger, SdkLoggerProvider, SimpleLogProcessor,
};

use opentelemetry_c_sdk::abi::{AbiError, OtelArrayView, OtelStatus, OtelStringView};
use opentelemetry_c_sdk::error::ErrorState;
use opentelemetry_c_sdk::log_emit::{
    emit_record, logger_emit, logger_enabled, report_emission, LogRecord, OtelLogRecordView,
    OtelLogTraceContext, RecordFault, RepresentableTimes, OTEL_LOG_FIELD_OBSERVED_TIMESTAMP, OTEL_LOG_FIELD_TIMESTAMP,
    OTEL_LOG_FIELD_TRACE_CONTEXT,
};
use opentelemetry_c_sdk::log_severity::{severity_from_u32, severity_number, Severity};
use opentelemetry_c_sdk::log_validate::PoolFault;
use opentelemetry_c_sdk::log_value::{
    AnyValue, OtelLogBytesView, OtelLogValue, OtelLogValueNode, OtelLogValuePayload,
    OtelLogValueRange, OtelLogValueType, OTEL_LOG_MAX_ARRAY_ELEMENTS, OTEL_LOG_MAX_ATTRIBUTES,
    OTEL_LOG_MAX_BYTES_LEN, OTEL_LOG_MAX_MAP_ENTRIES, OTEL_LOG_MAX_STRING_LEN,
    OTEL_LOG_MAX_VALUE_DEPTH, OTEL_LOG_MAX_VALUE_NODES,
};
use opentelemetry_c_sdk::memory::reserve;
use opentelemetry_c_sdk::scope::{provider_get_logger, OtelScopeConfig};

/// The size of the record structure on a 64-bit platform.
const VIEW_SIZE: u64 = 160;

const EVERY_TIME: RepresentableTimes = RepresentableTimes {
    timestamp: true,
    observed_timestamp: true,
};

fn sv(value: &str) -> OtelStringView<'_> {
    OtelStringView::of(value)
}

fn payload<'a>() -> OtelLogValuePayload<'a> {
    OtelLogValuePayload {
        string_value: OtelStringView::empty(),
        bytes_value: OtelLogBytesView { bytes: Some(&[]) },
        bool_value: 0,
        int64_value: 0,
        double_value: 0,
        children: OtelLogValueRange { first: 0, count: 0 },
    }
}

fn value(tag: OtelLogValueType, payload: OtelLogValuePayload<'_>) -> OtelLogValue<'_> {
    OtelLogValue {
        value_type: tag.as_u32(),
        reserved: 0,
        value: payload,
    }
}

fn v_string(s: &str) -> OtelLogValue<'_> {
    value(
        OtelLogValueType::String,
        OtelLogValuePayload {
            string_value: sv(s),
            ..payload()
        },
    )
}

fn v_raw_string(bytes: Option<&[u8]>) -> OtelLogValue<'_> {
    value(
        OtelLogValueType::String,
        OtelLogValuePayload {
            string_value: OtelStringView { bytes },
            ..payload()
        },
    )
}

fn v_int<'a>(i: i64) -> OtelLogValue<'a> {
    value(
        OtelLogValueType::Int64,
        OtelLogValuePayload {
            int64_value: i,
            ..payload()
        },
    )
}

fn v_bool<'a>(b: bool) -> OtelLogValue<'a> {
    value(
        OtelLogValueType::Bool,
        OtelLogValuePayload {
            bool_value: u32::from(b),
            ..payload()
        },
    )
}

fn v_double<'a>(d: f64) -> OtelLogValue<'a> {
    value(
        OtelLogValueType::Double,
        OtelLogValuePayload {
            double_value: d.to_bits(),
            ..payload()
        },
    )
}

fn v_bytes(b: &[u8]) -> OtelLogValue<'_> {
    value(
        OtelLogValueType::Bytes,
        OtelLogValuePayload {
            bytes_value: OtelLogBytesView { bytes: Some(b) },
            ..payload()
        },
    )
}

fn v_container<'a>(tag: OtelLogValueType, first: u32, count: u32) -> OtelLogValue<'a> {
    value(
        tag,
        OtelLogValuePayload {
            children: OtelLogValueRange { first, count },
            ..payload()
        },
    )
}

fn v_empty<'a>() -> OtelLogValue<'a> {
    value(OtelLogValueType::Empty, payload())
}

fn element(value: OtelLogValue<'_>) -> OtelLogValueNode<'_> {
    OtelLogValueNode {
        key: OtelStringView::empty(),
        value,
    }
}

fn entry<'a>(key: &'a str, value: OtelLogValue<'a>) -> OtelLogValueNode<'a> {
    OtelLogValueNode {
        key: sv(key),
        value,
    }
}

fn record<'a>() -> OtelLogRecordView<'a> {
    OtelLogRecordView {
        struct_size: VIEW_SIZE,
        present_fields: 0,
        timestamp_unix_nanos: 0,
        observed_timestamp_unix_nanos: 0,
        severity_number: 0,
        reserved_flags: 0,
        body: v_empty(),
        attributes: OtelArrayView::Data(&[]),
        value_nodes: OtelArrayView::Data(&[]),
        trace_context: OtelLogTraceContext {
            trace_id: [0; 16],
            span_id: [0; 8],
            trace_flags: 0,
            reserved: [0; 7],
        },
        reserved: [0; 4],
    }
}

fn sdk_severity(severity: Severity) -> SdkSeverity {
    match severity {
        Severity::Trace => SdkSeverity::Trace,
        Severity::Trace2 => SdkSeverity::Trace2,
        Severity::Trace3 => SdkSeverity::Trace3,
        Severity::Trace4 => SdkSeverity::Trace4,
        Severity::Debug => SdkSeverity::Debug,
        Severity::Debug2 => SdkSeverity::Debug2,
        Severity::Debug3 => SdkSeverity::Debug3,
        Severity::Debug4 => SdkSeverity::Debug4,
        Severity::Info => SdkSeverity::Info,
        Severity::Info2 => SdkSeverity::Info2,
        Severity::Info3 => SdkSeverity::Info3,
        Severity::Info4 => SdkSeverity::Info4,
        Severity::Warn => SdkSeverity::Warn,
        Severity::Warn2 => SdkSeverity::Warn2,
        Severity::Warn3 => SdkSeverity::Warn3,
        Severity::Warn4 => SdkSeverity::Warn4,
        Severity::Error => SdkSeverity::Error,
        Severity::Error2 => SdkSeverity::Error2,
        Severity::Error3 => SdkSeverity::Error3,
        Severity::Error4 => SdkSeverity::Error4,
        Severity::Fatal => SdkSeverity::Fatal,
        Severity::Fatal2 => SdkSeverity::Fatal2,
        Severity::Fatal3 => SdkSeverity::Fatal3,
        Severity::Fatal4 => SdkSeverity::Fatal4,
    }
}

fn sdk_value(value: AnyValue) -> SdkAnyValue {
    match value {
        AnyValue::Int(v) => SdkAnyValue::Int(v),
        AnyValue::Double(v) => SdkAnyValue::Double(f64::from_bits(v)),
        AnyValue::String(v) => SdkAnyValue::String(v.into()),
        AnyValue::Boolean(v) => SdkAnyValue::Boolean(v),
        AnyValue::Bytes(v) => SdkAnyValue::Bytes(Box::new(v)),
        AnyValue::ListAny(items) => {
            SdkAnyValue::ListAny(Box::new(items.into_iter().map(sdk_value).collect()))
        }
        AnyValue::KvMap(entries) => SdkAnyValue::Map(Box::new(
            entries
                .into_iter()
                .map(|(key, value)| (Key::from(key), sdk_value(value)))
                .collect(),
        )),
        AnyValue::Unknown => panic!("a converted value has a known kind"),
    }
}

struct Harness {
    exporter: InMemoryLogExporter,
    _provider: SdkLoggerProvider,
    logger: SdkLogger,
}

impl Harness {
    fn new() -> Self {
        let exporter = InMemoryLogExporter::default();
        let provider = SdkLoggerProvider::builder()
            .with_log_processor(SimpleLogProcessor::new(exporter.clone()))
            .build();
        let scope = OtelScopeConfig {
            name: sv("scope"),
            version: sv("1.2.3"),
            schema_url: OtelStringView::empty(),
        };
        let mut errors = ErrorState::new();
        let scope = provider_get_logger(&mut errors, true, Some(&scope)).expect("scope");
        let mut builder = opentelemetry::InstrumentationScope::builder(scope.name);
        if let Some(version) = scope.version {
            builder = builder.with_version(version);
        }
        if let Some(schema_url) = scope.schema_url {
            builder = builder.with_schema_url(schema_url);
        }
        let logger = provider.logger_with_scope(builder.build());
        Self {
            exporter,
            _provider: provider,
            logger,
        }
    }

    fn emit(&self, view: &OtelLogRecordView<'_>) -> OtelStatus {
        let mut errors = ErrorState::new();
        match logger_emit(&mut errors, true, Some(view), VIEW_SIZE, EVERY_TIME) {
            Err(status) => {
                assert_eq!(errors.last_status, status);
                assert!(!errors.message.is_empty());
                status
            }
            Ok(record) => {
                self.forward(record);
                OtelStatus::Success
            }
        }
    }

    fn forward(&self, record: LogRecord) {
        let mut target = self.logger.create_log_record();
        if let Some(nanos) = record.timestamp_unix_nanos {
            target.set_timestamp(UNIX_EPOCH + Duration::from_nanos(nanos));
        }
        if let Some(nanos) = record.observed_timestamp_unix_nanos {
            target.set_observed_timestamp(UNIX_EPOCH + Duration::from_nanos(nanos));
        }
        if let Some(severity) = record.severity {
            target.set_severity_number(sdk_severity(severity));
        }
        if let Some(text) = record.severity_text {
            target.set_severity_text(text);
        }
        if let Some(context) = record.trace_context {
            target.set_trace_context(
                TraceId::from_bytes(context.trace_id),
                SpanId::from_bytes(context.span_id),
                Some(TraceFlags::new(context.trace_flags)),
            );
        }
        if let Some(body) = record.body {
            target.set_body(sdk_value(body));
        }
        for (key, value) in record.attributes {
            target.add_attribute(key, sdk_value(value));
        }
        self.logger.emit(target);
    }

    fn enabled(&self, number: u32) -> bool {
        match logger_enabled(true, number) {
            Some(severity) => self
                .logger
                .event_enabled(sdk_severity(severity), "", None),
            None => false,
        }
    }

    fn emitted(&self) -> Vec<LogDataWithResource> {
        self.exporter.get_emitted_logs().expect("emitted logs")
    }

    fn only(&self) -> LogDataWithResource {
        let mut logs = self.emitted();
        assert_eq!(logs.len(), 1, "expected exactly one emitted record");
        logs.pop().unwrap()
    }
}

fn fault(view: &OtelLogRecordView<'_>) -> RecordFault {
    match emit_record(view, EVERY_TIME) {
        Ok(_) => panic!("expected a refusal"),
        Err(fault) => fault,
    }
}

#[test]
fn scope_is_forwarded_verbatim() {
    let harness = Harness::new();
    let view = record();
    assert_eq!(harness.emit(&view), OtelStatus::Success);
    let log = harness.only();
    assert_eq!(log.instrumentation.name(), "scope");
    assert_eq!(log.instrumentation.version(), Some("1.2.3"));
    assert_eq!(log.instrumentation.schema_url(), None);
    // No target is exposed, so the scope name must survive into export unchanged.
    assert!(log.record.body().is_none());
    assert!(log.record.severity_number().is_none());
    assert!(log.record.severity_text().is_none());
    // `event_name` is not expressible in this version.
    assert!(log.record.event_name().is_none());
}

#[test]
fn every_severity_gets_its_canonical_text() {
    for number in 1..=24u32 {
        let harness = Harness::new();
        let mut view = record();
        view.severity_number = number;
        assert_eq!(harness.emit(&view), OtelStatus::Success);
        let log = harness.only();
        let severity = sdk_severity(severity_from_u32(number).expect("mapped severity"));
        assert_eq!(log.record.severity_number(), Some(severity));
        assert_eq!(log.record.severity_text(), Some(severity.name()));
    }
}

#[test]
fn severity_zero_sets_neither_number_nor_text() {
    let harness = Harness::new();
    let mut view = record();
    view.severity_number = 0;
    assert_eq!(harness.emit(&view), OtelStatus::Success);
    let log = harness.only();
    assert!(log.record.severity_number().is_none());
    assert!(log.record.severity_text().is_none());
}

#[test]
fn out_of_range_severity_is_rejected_and_nothing_is_emitted() {
    let harness = Harness::new();
    for number in [25u32, 100, u32::MAX] {
        let mut view = record();
        view.severity_number = number;
        assert_eq!(harness.emit(&view), OtelStatus::InvalidArgument);
    }
    assert!(harness.emitted().is_empty());
}

#[test]
fn timestamps_round_trip_and_observed_defaults_when_absent() {
    let harness = Harness::new();
    let mut view = record();
    view.present_fields = OTEL_LOG_FIELD_TIMESTAMP;
    view.timestamp_unix_nanos = 1_700_000_000_123_456_789;
    assert_eq!(harness.emit(&view), OtelStatus::Success);
    let log = harness.only();
    assert_eq!(
        log.record.timestamp(),
        Some(UNIX_EPOCH + Duration::from_nanos(1_700_000_000_123_456_789))
    );
    // The pinned `SdkLogger::emit` fills the observed timestamp when the record omits it.
    assert!(log.record.observed_timestamp().is_some());
}

#[test]
fn explicit_observed_timestamp_is_preserved() {
    let harness = Harness::new();
    let mut view = record();
    view.present_fields = OTEL_LOG_FIELD_OBSERVED_TIMESTAMP;
    view.observed_timestamp_unix_nanos = 42;
    assert_eq!(harness.emit(&view), OtelStatus::Success);
    let log = harness.only();
    assert_eq!(
        log.record.observed_timestamp(),
        Some(UNIX_EPOCH + Duration::from_nanos(42))
    );
    assert!(log.record.timestamp().is_none());
}

#[test]
fn timestamp_zero_is_a_real_instant_only_when_its_presence_bit_is_set() {
    let harness = Harness::new();
    let mut view = record();
    assert_eq!(harness.emit(&view), OtelStatus::Success);
    assert!(harness.only().record.timestamp().is_none());

    view.present_fields = OTEL_LOG_FIELD_TIMESTAMP;
    view.timestamp_unix_nanos = 0;
    assert_eq!(harness.emit(&view), OtelStatus::Success);
    assert_eq!(
        harness.emitted().last().unwrap().record.timestamp(),
        Some(UNIX_EPOCH)
    );
}

#[test]
fn unknown_presence_bits_and_non_zero_reserved_fields_are_rejected() {
    let harness = Harness::new();
    let mut view = record();
    view.present_fields = 1 << 8;
    assert_eq!(harness.emit(&view), OtelStatus::InvalidConfig);

    let mut view = record();
    view.reserved_flags = 1;
    assert_eq!(harness.emit(&view), OtelStatus::InvalidArgument);

    let mut view = record();
    view.reserved[2] = 7;
    assert_eq!(harness.emit(&view), OtelStatus::InvalidArgument);
    assert!(harness.emitted().is_empty());
}

#[test]
fn trace_context_is_set_explicitly_and_validated() {
    let harness = Harness::new();
    let mut view = record();
    view.present_fields = OTEL_LOG_FIELD_TRACE_CONTEXT;
    view.trace_context.trace_id = [1u8; 16];
    view.trace_context.span_id = [2u8; 8];
    view.trace_context.trace_flags = 0x03;
    assert_eq!(harness.emit(&view), OtelStatus::Success);
    let log = harness.only();
    let ctx = log.record.trace_context().expect("trace context");
    assert_eq!(ctx.trace_id, TraceId::from_bytes([1u8; 16]));
    assert_eq!(ctx.span_id, SpanId::from_bytes([2u8; 8]));
    assert_eq!(ctx.trace_flags, Some(TraceFlags::new(0x03)));

    let mut bad = view;
    bad.trace_context.trace_id = [0u8; 16];
    assert_eq!(harness.emit(&bad), OtelStatus::InvalidArgument);
    let mut bad = view;
    bad.trace_context.span_id = [0u8; 8];
    assert_eq!(harness.emit(&bad), OtelStatus::InvalidArgument);
    let mut bad = view;
    bad.trace_context.trace_flags = 0x80;
    assert_eq!(harness.emit(&bad), OtelStatus::InvalidConfig);
    let mut bad = view;
    bad.trace_context.reserved[0] = 1;
    assert_eq!(harness.emit(&bad), OtelStatus::InvalidArgument);
}

#[test]
fn omitting_the_trace_context_bit_leaves_the_record_uncorrelated() {
    let harness = Harness::new();
    let mut view = record();
    // Garbage in the unread field must be ignored, not consulted.
    view.trace_context.trace_id = [9u8; 16];
    view.trace_context.reserved = [7u8; 7];
    assert_eq!(harness.emit(&view), OtelStatus::Success);
    // The pinned SDK falls back to the ambient Rust `Context`, which is empty here, so a
    // C caller never gets a silently-attached correlation.
    assert!(harness.only().record.trace_context().is_none());
}

#[test]
fn scalar_bodies_and_attributes_round_trip() {
    let harness = Harness::new();
    let attrs = [
        entry("s", v_string("text")),
        entry("i", v_int(-5)),
        entry("b", v_bool(true)),
        entry("d", v_double(2.5)),
        entry("raw", v_bytes(&[0xDE, 0xAD, 0xBE, 0xEF])),
    ];
    let mut view = record();
    view.body = v_string("hello");
    view.attributes = OtelArrayView::Data(&attrs);
    assert_eq!(harness.emit(&view), OtelStatus::Success);

    let log = harness.only();
    assert_eq!(log.record.body(), Some(&SdkAnyValue::String("hello".into())));
    let found: std::collections::HashMap<_, _> = log
        .record
        .attributes_iter()
        .map(|(k, v)| (k.as_str().to_owned(), v.clone()))
        .collect();
    assert_eq!(found["s"], SdkAnyValue::String("text".into()));
    assert_eq!(found["i"], SdkAnyValue::Int(-5));
    assert_eq!(found["b"], SdkAnyValue::Boolean(true));
    assert_eq!(found["d"], SdkAnyValue::Double(2.5));
    assert_eq!(
        found["raw"],
        SdkAnyValue::Bytes(Box::new(vec![0xDE, 0xAD, 0xBE, 0xEF]))
    );
}

#[test]
fn nested_containers_convert_bottom_up() {
    let harness = Harness::new();
    // body = ["one", {"k": [2]}]
    let nodes = [
        element(v_string("one")),                               // 0
        element(v_container(OtelLogValueType::KvMap, 2, 1)),      // 1
        entry("k", v_container(OtelLogValueType::Array, 3, 1)), // 2
        element(v_int(2)),                                      // 3
    ];
    let mut view = record();
    view.body = v_container(OtelLogValueType::Array, 0, 2);
    view.value_nodes = OtelArrayView::Data(&nodes);
    assert_eq!(harness.emit(&view), OtelStatus::Success);

    let log = harness.only();
    let SdkAnyValue::ListAny(items) = log.record.body().expect("body").clone() else {
        panic!("expected a list body");
    };
    assert_eq!(items.len(), 2);
    assert_eq!(items[0], SdkAnyValue::String("one".into()));
    let SdkAnyValue::Map(map) = items[1].clone() else {
        panic!("expected a map");
    };
    assert_eq!(
        map[&Key::from("k")],
        SdkAnyValue::ListAny(Box::new(vec![SdkAnyValue::Int(2)]))
    );
}

#[test]
fn backward_and_self_child_ranges_are_rejected() {
    let harness = Harness::new();
    // Node 1 points back at node 0: a cycle would need this, so it must be refused.
    let nodes = [
        element(v_container(OtelLogValueType::Array, 1, 1)),
        element(v_container(OtelLogValueType::Array, 0, 1)),
    ];
    let mut view = record();
    view.body = v_container(OtelLogValueType::Array, 0, 1);
    view.value_nodes = OtelArrayView::Data(&nodes);
    assert_eq!(harness.emit(&view), OtelStatus::InvalidArgument);

    let self_ref = [element(v_container(OtelLogValueType::Array, 0, 1))];
    let mut view = record();
    view.body = v_container(OtelLogValueType::Array, 0, 1);
    view.value_nodes = OtelArrayView::Data(&self_ref);
    assert_eq!(harness.emit(&view), OtelStatus::InvalidArgument);
    assert!(harness.emitted().is_empty());
}

#[test]
fn out_of_range_and_shared_child_ranges_are_rejected() {
    let harness = Harness::new();
    let nodes = [element(v_container(OtelLogValueType::Array, 1, 5))];
    let mut view = record();
    view.body = v_container(OtelLogValueType::Array, 0, 1);
    view.value_nodes = OtelArrayView::Data(&nodes);
    assert_eq!(harness.emit(&view), OtelStatus::InvalidArgument);

    // Two parents claiming the same child.
    let shared = [
        element(v_container(OtelLogValueType::Array, 2, 1)),
        element(v_container(OtelLogValueType::Array, 2, 1)),
        element(v_int(1)),
    ];
    let mut view = record();
    view.body = v_container(OtelLogValueType::Array, 0, 2);
    view.value_nodes = OtelArrayView::Data(&shared);
    assert_eq!(harness.emit(&view), OtelStatus::InvalidArgument);
    assert!(harness.emitted().is_empty());
}

#[test]
fn unreferenced_pool_nodes_are_rejected() {
    let harness = Harness::new();
    let nodes = [element(v_int(1)), element(v_int(2))];
    let mut view = record();
    view.body = v_container(OtelLogValueType::Array, 0, 1);
    view.value_nodes = OtelArrayView::Data(&nodes);
    assert_eq!(harness.emit(&view), OtelStatus::InvalidArgument);
}

#[test]
fn map_and_array_key_rules_are_enforced() {
    let harness = Harness::new();
    // Array element carrying a key.
    let nodes = [entry("nope", v_int(1))];
    let mut view = record();
    view.body = v_container(OtelLogValueType::Array, 0, 1);
    view.value_nodes = OtelArrayView::Data(&nodes);
    assert_eq!(harness.emit(&view), OtelStatus::InvalidArgument);

    // Map entry without a key.
    let nodes = [element(v_int(1))];
    let mut view = record();
    view.body = v_container(OtelLogValueType::KvMap, 0, 1);
    view.value_nodes = OtelArrayView::Data(&nodes);
    assert_eq!(harness.emit(&view), OtelStatus::InvalidArgument);

    // Duplicate map keys would be silently collapsed by the pinned `HashMap`.
    let nodes = [entry("k", v_int(1)), entry("k", v_int(2))];
    let mut view = record();
    view.body = v_container(OtelLogValueType::KvMap, 0, 2);
    view.value_nodes = OtelArrayView::Data(&nodes);
    assert_eq!(harness.emit(&view), OtelStatus::InvalidArgument);
    assert!(harness.emitted().is_empty());
}

#[test]
fn duplicate_top_level_attribute_keys_are_preserved() {
    let harness = Harness::new();
    let attrs = [entry("k", v_int(1)), entry("k", v_int(2))];
    let mut view = record();
    view.attributes = OtelArrayView::Data(&attrs);
    assert_eq!(harness.emit(&view), OtelStatus::Success);
    let log = harness.only();
    let values: Vec<_> = log
        .record
        .attributes_iter()
        .filter(|(k, _)| k.as_str() == "k")
        .map(|(_, v)| v.clone())
        .collect();
    assert_eq!(values, vec![SdkAnyValue::Int(1), SdkAnyValue::Int(2)]);
}

#[test]
fn empty_values_are_rejected_outside_an_absent_body() {
    let harness = Harness::new();
    let attrs = [entry("k", v_empty())];
    let mut view = record();
    view.attributes = OtelArrayView::Data(&attrs);
    assert_eq!(harness.emit(&view), OtelStatus::InvalidArgument);

    let nodes = [element(v_empty())];
    let mut view = record();
    view.body = v_container(OtelLogValueType::Array, 0, 1);
    view.value_nodes = OtelArrayView::Data(&nodes);
    assert_eq!(harness.emit(&view), OtelStatus::InvalidArgument);
    assert!(harness.emitted().is_empty());
}

#[test]
fn unknown_value_tags_and_non_zero_value_reserved_words_are_rejected() {
    let harness = Harness::new();
    let mut view = record();
    view.body = v_int(1);
    view.body.value_type = 0x1000;
    assert_eq!(harness.emit(&view), OtelStatus::InvalidArgument);

    let mut view = record();
    view.body = v_int(1);
    view.body.reserved = 1;
    assert_eq!(harness.emit(&view), OtelStatus::InvalidArgument);

    let mut view = record();
    view.body.reserved = 1;
    assert_eq!(harness.emit(&view), OtelStatus::InvalidArgument);
    assert!(harness.emitted().is_empty());
}

#[test]
fn depth_and_count_limits_are_enforced_at_their_boundaries() {
    // A chain of `OTEL_LOG_MAX_VALUE_DEPTH` containers is the deepest accepted shape:
    // the body is depth 1, so it needs MAX-1 pool containers under it.
    let build = |containers: usize| {
        let mut nodes = Vec::new();
        for index in 0..containers {
            nodes.push(element(v_container(
                OtelLogValueType::Array,
                index as u32 + 1,
                1,
            )));
        }
        nodes.push(element(v_int(0)));
        nodes
    };

    let harness = Harness::new();
    let nodes = build(OTEL_LOG_MAX_VALUE_DEPTH - 2);
    let mut view = record();
    view.body = v_container(OtelLogValueType::Array, 0, 1);
    view.value_nodes = OtelArrayView::Data(&nodes);
    assert_eq!(harness.emit(&view), OtelStatus::Success);

    let nodes = build(OTEL_LOG_MAX_VALUE_DEPTH - 1);
    let mut view = record();
    view.body = v_container(OtelLogValueType::Array, 0, 1);
    view.value_nodes = OtelArrayView::Data(&nodes);
    assert_eq!(harness.emit(&view), OtelStatus::InvalidArgument);

    // Attribute and node budgets.
    let attrs: Vec<_> = (0..OTEL_LOG_MAX_ATTRIBUTES + 1)
        .map(|_| entry("k", v_int(1)))
        .collect();
    let mut view = record();
    view.attributes = OtelArrayView::Data(&attrs);
    assert_eq!(harness.emit(&view), OtelStatus::InvalidArgument);

    let nodes: Vec<_> = (0..OTEL_LOG_MAX_VALUE_NODES + 1)
        .map(|_| element(v_int(1)))
        .collect();
    let mut view = record();
    view.value_nodes = OtelArrayView::Data(&nodes);
    assert_eq!(harness.emit(&view), OtelStatus::InvalidArgument);
}

#[test]
fn array_and_map_element_budgets_are_enforced() {
    let harness = Harness::new();
    let nodes: Vec<_> = (0..OTEL_LOG_MAX_ARRAY_ELEMENTS + 1)
        .map(|_| element(v_int(1)))
        .collect();
    let mut view = record();
    view.body = v_container(OtelLogValueType::Array, 0, nodes.len() as u32);
    view.value_nodes = OtelArrayView::Data(&nodes);
    assert_eq!(harness.emit(&view), OtelStatus::InvalidArgument);

    let keys: Vec<String> = (0..OTEL_LOG_MAX_MAP_ENTRIES + 1)
        .map(|index| format!("k{index}"))
        .collect();
    let nodes: Vec<_> = keys.iter().map(|k| entry(k, v_int(1))).collect();
    let mut view = record();
    view.body = v_container(OtelLogValueType::KvMap, 0, nodes.len() as u32);
    view.value_nodes = OtelArrayView::Data(&nodes);
    assert_eq!(harness.emit(&view), OtelStatus::InvalidArgument);
    assert!(harness.emitted().is_empty());
}

#[test]
fn invalid_utf8_and_null_pointer_views_are_rejected() {
    let harness = Harness::new();
    let invalid = [0xFFu8, 0xFE];
    let mut view = record();
    view.body = v_raw_string(Some(&invalid));
    assert_eq!(harness.emit(&view), OtelStatus::InvalidUtf8);

    let mut view = record();
    view.attributes = OtelArrayView::Null(3);
    assert_eq!(harness.emit(&view), OtelStatus::InvalidArgument);

    let mut view = record();
    view.value_nodes = OtelArrayView::Null(3);
    assert_eq!(harness.emit(&view), OtelStatus::InvalidArgument);

    let mut view = record();
    view.body = v_raw_string(None);
    assert_eq!(harness.emit(&view), OtelStatus::InvalidArgument);
    assert!(harness.emitted().is_empty());
}

#[test]
fn empty_attribute_keys_are_rejected() {
    let harness = Harness::new();
    let attrs = [element(v_int(1))];
    let mut view = record();
    view.attributes = OtelArrayView::Data(&attrs);
    assert_eq!(harness.emit(&view), OtelStatus::InvalidArgument);
}

#[test]
fn null_contexts_and_undersized_records_are_rejected() {
    let harness = Harness::new();
    let view = record();
    let mut errors = ErrorState::new();
    assert_eq!(
        logger_emit(&mut errors, false, Some(&view), VIEW_SIZE, EVERY_TIME).err(),
        Some(OtelStatus::InvalidArgument)
    );
    assert_eq!(
        logger_emit(&mut errors, true, None, VIEW_SIZE, EVERY_TIME).err(),
        Some(OtelStatus::InvalidArgument)
    );
    let mut small = record();
    small.struct_size -= 1;
    assert_eq!(harness.emit(&small), OtelStatus::InvalidArgument);

    assert!(logger_enabled(false, 9).is_none());
    assert!(provider_get_logger(&mut errors, false, None).is_none());
}

#[test]
fn a_larger_caller_struct_size_is_accepted() {
    let harness = Harness::new();
    let mut extended = record();
    extended.struct_size = VIEW_SIZE + 32;
    extended.severity_number = 9;
    assert_eq!(harness.emit(&extended), OtelStatus::Success);
    assert_eq!(
        harness.only().record.severity_number(),
        Some(SdkSeverity::Info)
    );
}

#[test]
fn enabled_reports_false_for_severities_the_pinned_check_cannot_express() {
    let harness = Harness::new();
    assert!(!harness.enabled(0));
    assert!(!harness.enabled(25));
    // With a processor that does not override `event_enabled`, everything in range is on.
    for severity in 1..=24u32 {
        assert!(harness.enabled(severity));
    }
}

#[test]
fn severity_numbers_and_names_agree_with_the_sdk() {
    assert!(severity_from_u32(0).is_none());
    assert!(severity_from_u32(25).is_none());
    for number in 1..=24u32 {
        let severity = severity_from_u32(number).expect("mapped severity");
        assert_eq!(severity_number(severity), number);
        assert_eq!(severity.name(), sdk_severity(severity).name());
        assert_eq!(sdk_severity(severity) as u32, number);
    }
}

#[test]
fn every_pool_fault_has_an_input() {
    let array = |first: u32, count: u32| v_container(OtelLogValueType::Array, first, count);
    let map = |first: u32, count: u32| v_container(OtelLogValueType::KvMap, first, count);
    let with = |body: OtelLogValue<'static>, nodes: &[OtelLogValueNode<'_>]| {
        let mut view = record();
        view.body = body;
        view.value_nodes = OtelArrayView::Data(nodes);
        match fault(&view) {
            RecordFault::Pool(fault) => fault,
            other => panic!("unexpected fault {other:?}"),
        }
    };
    let mut reserved = v_int(1);
    reserved.reserved = 1;
    assert!(matches!(with(array(0, 1), &[element(reserved)]), PoolFault::ValueReserved));
    let mut unknown = v_int(1);
    unknown.value_type = 8;
    assert!(matches!(with(array(0, 1), &[element(unknown)]), PoolFault::UnknownTag));
    assert!(matches!(with(array(0, 1), &[element(v_empty())]), PoolFault::EmptyValue));
    assert!(matches!(
        with(array(0, 1), &[element(v_raw_string(None))]),
        PoolFault::View(AbiError::NullData)
    ));
    assert!(matches!(
        with(array(0, 1), &[element(v_raw_string(Some(&[0xC0])))]),
        PoolFault::View(AbiError::InvalidUtf8)
    ));
    let long = "x".repeat(OTEL_LOG_MAX_STRING_LEN + 1);
    assert!(matches!(with(array(0, 1), &[element(v_string(&long))]), PoolFault::StringTooLong));
    let bytes = vec![0u8; OTEL_LOG_MAX_BYTES_LEN + 1];
    assert!(matches!(with(array(0, 1), &[element(v_bytes(&bytes))]), PoolFault::BytesTooLong));
    assert!(matches!(with(array(0, 1025), &[]), PoolFault::ContainerTooLarge));
    assert!(matches!(with(array(1, 1), &[element(v_int(1))]), PoolFault::RangeOutside));
    assert!(matches!(
        with(array(0, 1), &[element(array(0, 1))]),
        PoolFault::NotForward
    ));
    assert!(matches!(
        with(
            array(0, 2),
            &[element(array(2, 1)), element(array(2, 1)), element(v_int(1))]
        ),
        PoolFault::Shared
    ));
    assert!(matches!(with(array(0, 1), &[entry("k", v_int(1))]), PoolFault::ArrayKey));
    assert!(matches!(with(map(0, 1), &[element(v_int(1))]), PoolFault::EmptyMapKey));
    assert!(matches!(with(map(0, 1), &[entry(&long, v_int(1))]), PoolFault::MapKeyTooLong));
    assert!(matches!(
        with(map(0, 2), &[entry("k", v_int(1)), entry("k", v_int(2))]),
        PoolFault::DuplicateKey
    ));
    let fault = with(array(0, 1), &[element(v_int(1)), element(v_int(2))]);
    assert!(matches!(fault, PoolFault::Unreferenced(1)));
    assert_eq!(
        fault.message(),
        "log value node 1 is not referenced by any container or root"
    );
}

#[test]
fn record_faults_carry_their_status_and_message() {
    let mut view = record();
    view.reserved_flags = 1;
    assert!(matches!(fault(&view), RecordFault::RecordReserved));

    let mut view = record();
    view.present_fields = 8;
    let unknown = fault(&view);
    assert!(matches!(unknown, RecordFault::UnknownFields));
    assert_eq!(unknown.status(), OtelStatus::InvalidConfig);

    let mut view = record();
    view.severity_number = 25;
    assert!(matches!(fault(&view), RecordFault::SeverityRange));

    let mut view = record();
    view.attributes = OtelArrayView::Null(OTEL_LOG_MAX_ATTRIBUTES + 1);
    assert!(matches!(fault(&view), RecordFault::TooManyAttributes));

    let mut view = record();
    view.value_nodes = OtelArrayView::Null(OTEL_LOG_MAX_VALUE_NODES + 1);
    assert!(matches!(fault(&view), RecordFault::TooManyNodes));

    let mut view = record();
    view.attributes = OtelArrayView::Null(1);
    assert!(matches!(fault(&view), RecordFault::NullAttributes));

    let mut view = record();
    view.value_nodes = OtelArrayView::Null(1);
    assert!(matches!(fault(&view), RecordFault::NullNodes));

    let unreadable = [OtelLogValueNode {
        key: OtelStringView { bytes: Some(&[0xFF]) },
        value: v_int(1),
    }];
    let mut view = record();
    view.attributes = OtelArrayView::Data(&unreadable);
    assert!(matches!(
        fault(&view),
        RecordFault::AttributeView(AbiError::InvalidUtf8)
    ));
    assert_eq!(fault(&view).status(), OtelStatus::InvalidUtf8);

    let long = "x".repeat(OTEL_LOG_MAX_STRING_LEN + 1);
    let attributes = [entry(&long, v_int(1))];
    let mut view = record();
    view.attributes = OtelArrayView::Data(&attributes);
    assert!(matches!(fault(&view), RecordFault::AttributeKeyTooLong));

    let mut view = record();
    view.present_fields = OTEL_LOG_FIELD_TRACE_CONTEXT;
    assert!(matches!(fault(&view), RecordFault::ZeroTraceId));
    view.trace_context.trace_id = [1; 16];
    assert!(matches!(fault(&view), RecordFault::ZeroSpanId));
    view.trace_context.trace_flags = 4;
    assert!(matches!(fault(&view), RecordFault::TraceFlags));
    view.trace_context.reserved = [1; 7];
    assert!(matches!(fault(&view), RecordFault::TraceReserved));

    let mut view = record();
    view.present_fields = OTEL_LOG_FIELD_TIMESTAMP | OTEL_LOG_FIELD_OBSERVED_TIMESTAMP;
    let neither = RepresentableTimes {
        timestamp: false,
        observed_timestamp: false,
    };
    let early = RepresentableTimes {
        timestamp: true,
        observed_timestamp: false,
    };
    assert!(matches!(emit_record(&view, neither), Err(RecordFault::TimestampRange)));
    assert!(matches!(emit_record(&view, early), Err(RecordFault::ObservedTimestampRange)));
}

#[test]
fn an_absent_field_needs_no_representable_time() {
    let neither = RepresentableTimes {
        timestamp: false,
        observed_timestamp: false,
    };
    let record = emit_record(&record(), neither).expect("record");
    assert!(record.timestamp_unix_nanos.is_none());
    assert!(record.observed_timestamp_unix_nanos.is_none());
}

#[test]
fn the_outcome_of_a_conversion_is_reported() {
    let mut errors = ErrorState::new();
    let mut view = record();
    view.severity_number = 9;
    let emitted = report_emission(&mut errors, emit_record(&view, EVERY_TIME)).expect("record");
    assert_eq!(emitted.severity.map(severity_number), Some(9));
    assert_eq!(errors.last_status, OtelStatus::Success);
    assert_eq!(errors.message, "");

    for fault in [
        RecordFault::UnknownFields,
        RecordFault::ZeroSpanId,
        RecordFault::Pool(PoolFault::Shared),
    ] {
        assert_eq!(
            report_emission(&mut errors, Err(fault)).err(),
            Some(fault.status())
        );
        assert_eq!(errors.last_status, fault.status());
        assert_eq!(errors.message, fault.message());
    }

    let mut none: Vec<u64> = vec![];
    let failure = reserve(&mut none, usize::MAX).expect_err("no room");
    assert_eq!(
        report_emission(&mut errors, Err(RecordFault::RootMemory(failure))).err(),
        Some(OtelStatus::InternalError)
    );
    assert_eq!(errors.last_status, OtelStatus::InternalError);
    assert_eq!(errors.message, "failed to allocate log record root list");
}

#[test]
fn a_record_that_needs_no_room_is_answered_exactly() {
    let mut errors = ErrorState::new();
    let mut view = record();
    view.present_fields = OTEL_LOG_FIELD_TIMESTAMP;
    let emitted = logger_emit(&mut errors, true, Some(&view), VIEW_SIZE, EVERY_TIME).expect("record");
    assert_eq!(emitted.timestamp_unix_nanos, Some(0));

    view.present_fields = 0;
    view.trace_context.trace_flags = 0xff;
    view.trace_context.reserved = [1; 7];
    let emitted = logger_emit(&mut errors, true, Some(&view), VIEW_SIZE, EVERY_TIME).expect("record");
    assert!(emitted.trace_context.is_none());

    view.present_fields = OTEL_LOG_FIELD_TRACE_CONTEXT;
    assert_eq!(
        logger_emit(&mut errors, true, Some(&view), VIEW_SIZE, EVERY_TIME).err(),
        Some(OtelStatus::InvalidArgument)
    );
    view.trace_context.reserved = [0; 7];
    assert_eq!(
        logger_emit(&mut errors, true, Some(&view), VIEW_SIZE, EVERY_TIME).err(),
        Some(OtelStatus::InvalidConfig)
    );
    view.present_fields = 1 << 40;
    view.reserved[3] = 1;
    assert_eq!(
        logger_emit(&mut errors, true, Some(&view), VIEW_SIZE, EVERY_TIME).err(),
        Some(OtelStatus::InvalidArgument)
    );
}

#[test]
fn the_record_size_is_that_of_the_platform() {
    let mut errors = ErrorState::new();
    let mut view = record();
    view.struct_size = 136;
    assert!(logger_emit(&mut errors, true, Some(&view), 136, EVERY_TIME).is_ok());
    assert_eq!(
        logger_emit(&mut errors, true, Some(&view), 137, EVERY_TIME).err(),
        Some(OtelStatus::InvalidArgument)
    );
}
