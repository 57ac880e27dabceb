use opentelemetry_c_sdk::abi::{OtelArrayView, OtelStatus};
use opentelemetry_c_sdk::export_error::{ConversionError, MemoryUse, OTEL_LOG_EXPORT_MAX_RECORDS};
use opentelemetry_c_sdk::log_emit::{
    emit_record, OtelLogRecordView, RecordFault, RepresentableTimes,
};
use opentelemetry_c_sdk::log_export::{
    convert_batch, convert_record, convert_scope, timestamp_nanos, BatchEntry, ExportViewSizes, ExportedRecord,
    ExportedTraceContext, InstrumentationScope, OtelLogExportRecordView, Resource,
    OTEL_LOG_EXPORT_FIELD_BODY, OTEL_LOG_EXPORT_FIELD_TARGET,
    OTEL_LOG_EXPORT_FIELD_TIMESTAMP, OTEL_LOG_EXPORT_FIELD_TRACE_CONTEXT,
};
use opentelemetry_c_sdk::log_flatten::{Array, Value};
use opentelemetry_c_sdk::log_severity::Severity;
use opentelemetry_c_sdk::log_validate::PoolFault;
use opentelemetry_c_sdk::log_value::{
    AnyValue, OtelLogValue, OtelLogValueNode, OtelLogValueType, OTEL_LOG_MAX_ARRAY_ELEMENTS,
    OTEL_LOG_MAX_ATTRIBUTES, OTEL_LOG_MAX_BYTES_LEN, OTEL_LOG_MAX_MAP_ENTRIES,
    OTEL_LOG_MAX_STRING_LEN, OTEL_LOG_MAX_VALUE_DEPTH,
};
use opentelemetry_c_sdk::time::SystemTime;

/// The sizes of the structures on a 64-bit platform.
const SIZES: ExportViewSizes = ExportViewSizes {
    scope: 104,
    record: 216,
    batch: 104,
};

fn record() -> ExportedRecord {
    ExportedRecord {
        timestamp: None,
        observed_timestamp: None,
        severity_number: None,
        severity_text: None,
        event_name: None,
        target: None,
        body: None,
        attributes: vec![],
        trace_context: None,
    }
}

fn with_body(body: AnyValue) -> ExportedRecord {
    ExportedRecord {
        body: Some(body),
        ..record()
    }
}

fn text(value: &str) -> AnyValue {
    AnyValue::String(value.to_owned())
}

fn entries(pairs: Vec<(&str, AnyValue)>) -> AnyValue {
    AnyValue::KvMap(
        pairs
            .into_iter()
            .map(|(key, value)| (key.to_owned(), value))
            .collect(),
    )
}

fn kind(value: &OtelLogValue<'_>) -> OtelLogValueType {
    OtelLogValueType::from_u32(value.value_type).expect("known kind")
}

fn keys(view: &OtelLogExportRecordView<'_>, value: &OtelLogValue<'_>) -> Vec<String> {
    let range = value.value.children;
    view.value_nodes[range.first as usize..(range.first + range.count) as usize]
        .iter()
        .map(|node| node.key.to_string_strict().unwrap())
        .collect()
}

#[test]
fn containers_are_flattened_breadth_first() {
    let record = with_body(AnyValue::ListAny(vec![
        AnyValue::ListAny(vec![AnyValue::Int(1), AnyValue::Int(2)]),
        text("leaf"),
        AnyValue::ListAny(vec![AnyValue::ListAny(vec![AnyValue::Boolean(true)])]),
    ]));
    let view = convert_record(&record, 0, SIZES).expect("view");
    assert_eq!(view.body.value.children.first, 0);
    assert_eq!(view.body.value.children.count, 3);
    let ranges: Vec<(u32, u32)> = view
        .value_nodes
        .iter()
        .filter(|node| kind(&node.value) == OtelLogValueType::Array)
        .map(|node| {
            (
                node.value.value.children.first,
                node.value.value.children.count,
            )
        })
        .collect();
    assert_eq!(ranges, [(3, 2), (5, 1), (6, 1)]);
    assert_eq!(view.value_nodes.len(), 7);
    assert_eq!(view.value_nodes[1].value.value.string_value.as_str(), Ok("leaf"));
    assert_eq!(view.value_nodes[4].value.value.int64_value, 2);
    assert_eq!(view.value_nodes[6].value.value.bool_value, 1);
}

#[test]
fn maps_come_out_in_key_order_at_every_level() {
    let record = with_body(entries(vec![
        ("b", entries(vec![("z", AnyValue::Int(1)), ("", AnyValue::Int(2))])),
        ("\u{e9}", AnyValue::Int(3)),
        ("a", AnyValue::Int(4)),
        ("Z", AnyValue::Int(5)),
    ]));
    let view = convert_record(&record, 0, SIZES).expect("view");
    assert_eq!(keys(&view, &view.body), ["Z", "a", "b", "\u{e9}"]);
    // An exported key may be empty.
    assert_eq!(keys(&view, &view.value_nodes[2].value), ["", "z"]);

    let other = with_body(entries(vec![
        ("Z", AnyValue::Int(5)),
        ("a", AnyValue::Int(4)),
        ("\u{e9}", AnyValue::Int(3)),
        ("b", entries(vec![("", AnyValue::Int(2)), ("z", AnyValue::Int(1))])),
    ]));
    let again = convert_record(&other, 0, SIZES).expect("view");
    assert_eq!(format!("{:?}", view.value_nodes), format!("{:?}", again.value_nodes));
}

#[test]
fn every_node_is_referenced_once_and_beyond_its_parent() {
    let mut record = with_body(entries(vec![
        ("x", AnyValue::ListAny(vec![text("1"), entries(vec![("k", text("2"))])])),
        ("y", AnyValue::Bytes(vec![1, 2])),
    ]));
    record.attributes = vec![
        ("a".to_owned(), AnyValue::ListAny(vec![AnyValue::Int(1)])),
        ("a".to_owned(), AnyValue::Double(2.5f64.to_bits())),
    ];
    let view = convert_record(&record, 0, SIZES).expect("view");
    let mut seen = vec![0; view.value_nodes.len()];
    let mut claim = |value: &OtelLogValue<'_>, floor: i64| {
        if matches!(
            kind(value),
            OtelLogValueType::Array | OtelLogValueType::KvMap
        ) {
            let range = value.value.children;
            for index in range.first..range.first + range.count {
                assert!(i64::from(index) > floor);
                seen[index as usize] += 1;
            }
        }
    };
    claim(&view.body, -1);
    for attribute in &view.attributes {
        claim(&attribute.value, -1);
    }
    for (index, node) in view.value_nodes.iter().enumerate() {
        claim(&node.value, index as i64);
    }
    assert!(seen.iter().all(|count| *count == 1));
    // Repeated attribute keys are kept.
    assert_eq!(view.attributes.len(), 2);
    assert_eq!(view.attributes[1].value.value.double_value, 2.5f64.to_bits());
}

#[test]
fn fields_are_marked_and_shown() {
    let mut record = record();
    record.timestamp = Some(SystemTime {
        nanos_since_epoch: 0,
    });
    record.target = Some(String::new());
    record.severity_number = Some(Severity::Warn2);
    record.trace_context = Some(ExportedTraceContext {
        trace_id: [1; 16],
        span_id: [2; 8],
        trace_flags: None,
    });
    let view = convert_record(&record, 9, SIZES).expect("view");
    assert_eq!(view.struct_size, 216);
    assert_eq!(
        view.present_fields,
        OTEL_LOG_EXPORT_FIELD_TIMESTAMP
            | OTEL_LOG_EXPORT_FIELD_TARGET
            | OTEL_LOG_EXPORT_FIELD_TRACE_CONTEXT
    );
    assert_eq!(view.present_fields & OTEL_LOG_EXPORT_FIELD_BODY, 0);
    assert_eq!(kind(&view.body), OtelLogValueType::Empty);
    assert_eq!(view.severity_number, 14);
    assert_eq!(view.severity_text.as_str(), Ok(""));
    assert_eq!(view.trace_context.trace_id, [1; 16]);
    assert_eq!(view.trace_context.trace_flags, 0);
    assert_eq!(view.scope, 9);
}

#[test]
fn scopes_are_shown_once_in_the_order_of_their_first_record() {
    let records = [record(), record(), record()];
    let scope = |name: &str| InstrumentationScope {
        name: name.to_owned(),
        version: None,
        schema_url: None,
        attributes: vec![(
            "list".to_owned(),
            Value::Array(Array::String(vec!["x".to_owned(), "y".to_owned()])),
        )],
    };
    let (a, b) = (scope("a"), scope("b"));
    let batch = [
        BatchEntry {
            record: &records[0],
            scope_key: 20,
            scope: &b,
        },
        BatchEntry {
            record: &records[1],
            scope_key: 10,
            scope: &a,
        },
        BatchEntry {
            record: &records[2],
            scope_key: 20,
            scope: &b,
        },
    ];
    let resource = Resource {
        schema_url: Some("schema".to_owned()),
        attributes: vec![("service.name".to_owned(), Value::String("svc".to_owned()))],
    };
    let view = convert_batch(&batch, &resource, SIZES).expect("view");
    assert_eq!(view.struct_size, 104);
    let names: Vec<_> = view
        .scopes
        .iter()
        .map(|scope| scope.name.to_string_strict().unwrap())
        .collect();
    assert_eq!(names, ["b", "a"]);
    let indices: Vec<_> = view.records.iter().map(|record| record.scope).collect();
    assert_eq!(indices, [0, 1, 0]);
    assert_eq!(view.resource_schema_url.as_str(), Ok("schema"));
    assert_eq!(view.resource_attributes.len(), 1);
    let shown = convert_scope(&b, SIZES).expect("scope");
    assert_eq!(kind(&shown.attributes[0].value), OtelLogValueType::Array);
    assert_eq!(shown.value_nodes.len(), 2);
    assert_eq!(shown.value_nodes[1].value.value.string_value.as_str(), Ok("y"));
}

fn refusal(record: &ExportedRecord) -> ConversionError {
    match convert_record(record, 0, SIZES) {
        Ok(_) => panic!("expected a refusal"),
        Err(error) => error,
    }
}

#[test]
fn every_conversion_error_has_an_input() {
    let long = "x".repeat(OTEL_LOG_MAX_STRING_LEN + 1);
    let error = refusal(&with_body(text(&long)));
    assert!(matches!(error, ConversionError::StringTooLong(n) if n == OTEL_LOG_MAX_STRING_LEN + 1));
    assert_eq!(error.status(), OtelStatus::ExportFailed);
    assert!(matches!(
        refusal(&with_body(AnyValue::Bytes(vec![0; OTEL_LOG_MAX_BYTES_LEN + 1]))),
        ConversionError::BytesTooLong(_)
    ));
    let ints = |n: usize| (0..n).map(|i| AnyValue::Int(i as i64)).collect::<Vec<_>>();
    assert!(matches!(
        refusal(&with_body(AnyValue::ListAny(ints(
            OTEL_LOG_MAX_ARRAY_ELEMENTS + 1
        )))),
        ConversionError::ArrayTooLarge(_)
    ));
    assert!(matches!(
        refusal(&with_body(AnyValue::KvMap(
            (0..OTEL_LOG_MAX_MAP_ENTRIES + 1)
                .map(|i| (format!("{i}"), AnyValue::Int(0)))
                .collect()
        ))),
        ConversionError::MapTooLarge(_)
    ));
    assert!(matches!(
        refusal(&with_body(AnyValue::Unknown)),
        ConversionError::UnknownKind
    ));
    let mut many = record();
    many.attributes = (0..OTEL_LOG_MAX_ATTRIBUTES + 1)
        .map(|_| ("k".to_owned(), AnyValue::Int(0)))
        .collect();
    assert!(matches!(refusal(&many), ConversionError::TooManyAttributes(_)));
    let wide = AnyValue::ListAny(
        (0..9)
            .map(|_| AnyValue::ListAny(ints(OTEL_LOG_MAX_ARRAY_ELEMENTS)))
            .collect(),
    );
    assert!(matches!(
        refusal(&with_body(wide)),
        ConversionError::TooManyNodes(_)
    ));
    let nest = |depth: usize| {
        let mut value = AnyValue::Int(0);
        for _ in 1..depth {
            value = AnyValue::ListAny(vec![value]);
        }
        value
    };
    assert!(convert_record(&with_body(nest(OTEL_LOG_MAX_VALUE_DEPTH)), 0, SIZES).is_ok());
    assert!(matches!(
        refusal(&with_body(nest(OTEL_LOG_MAX_VALUE_DEPTH + 1))),
        ConversionError::TooDeep
    ));
    let before = SystemTime {
        nanos_since_epoch: -1,
    };
    assert!(matches!(
        timestamp_nanos(before, "timestamp"),
        Err(ConversionError::PredatesEpoch("timestamp"))
    ));
    let late = SystemTime {
        nanos_since_epoch: u64::MAX as i128 + 1,
    };
    assert!(matches!(
        timestamp_nanos(late, "timestamp"),
        Err(ConversionError::TimeRange("timestamp"))
    ));
    let scope = |value: Value| InstrumentationScope {
        name: "s".to_owned(),
        version: None,
        schema_url: None,
        attributes: vec![("k".to_owned(), value)],
    };
    assert!(matches!(
        convert_scope(&scope(Value::Unknown), SIZES).err(),
        Some(ConversionError::UnknownAttribute)
    ));
    assert!(matches!(
        convert_scope(&scope(Value::Array(Array::Unknown)), SIZES).err(),
        Some(ConversionError::UnknownArrayElement)
    ));
    assert!(matches!(
        convert_scope(&scope(Value::Array(Array::I64(vec![
            0;
            OTEL_LOG_MAX_ARRAY_ELEMENTS + 1
        ]))), SIZES)
        .err(),
        Some(ConversionError::AttributeArrayTooLarge(_))
    ));
    let one = record();
    let plain = scope(Value::Bool(true));
    let entry = BatchEntry {
        record: &one,
        scope_key: 1,
        scope: &plain,
    };
    let resource = Resource {
        schema_url: None,
        attributes: vec![],
    };
    let batch = vec![entry; OTEL_LOG_EXPORT_MAX_RECORDS + 1];
    assert!(matches!(
        convert_batch(&batch, &resource, SIZES).err(),
        Some(ConversionError::TooManyRecords)
    ));
    assert!(MemoryUse::WorkQueue.message().contains("allocate"));
}

#[test]
fn what_is_emitted_comes_out_again() {
    let exported = with_body(entries(vec![
        ("b", AnyValue::ListAny(vec![text("t"), AnyValue::Int(-7)])),
        ("a", AnyValue::Double(0.25f64.to_bits())),
        ("c", AnyValue::Bytes(vec![9, 8])),
    ]));
    let shown = convert_record(&exported, 0, SIZES).expect("view");
    let attributes: [OtelLogValueNode<'_>; 0] = [];
    let input = OtelLogRecordView {
        struct_size: 160,
        present_fields: 0,
        timestamp_unix_nanos: 0,
        observed_timestamp_unix_nanos: 0,
        severity_number: 0,
        reserved_flags: 0,
        body: shown.body,
        attributes: OtelArrayView::Data(&attributes),
        value_nodes: OtelArrayView::Data(&shown.value_nodes),
        trace_context: shown.trace_context,
        reserved: [0; 4],
    };
    let times = RepresentableTimes {
        timestamp: true,
        observed_timestamp: true,
    };
    let emitted = emit_record(&input, times).expect("an exported pool is acceptable");
    let again = with_body(emitted.body.expect("body"));
    let view = convert_record(&again, 0, SIZES).expect("view");
    assert_eq!(
        format!("{:?}", view.value_nodes),
        format!("{:?}", shown.value_nodes)
    );
    assert_eq!(format!("{:?}", view.body), format!("{:?}", shown.body));
}

#[test]
fn exported_values_convert_back_to_the_same_trees() {
    let exported = ExportedRecord {
        attributes: vec![
            ("k".to_owned(), AnyValue::Boolean(true)),
            (
                "m".to_owned(),
                entries(vec![("x", text("")), ("y", AnyValue::ListAny(vec![]))]),
            ),
        ],
        ..with_body(AnyValue::ListAny(vec![
            AnyValue::Boolean(false),
            AnyValue::Int(3),
        ]))
    };
    let shown = convert_record(&exported, 0, SIZES).expect("view");
    let words: Vec<u32> = shown
        .value_nodes
        .iter()
        .chain(shown.attributes.iter())
        .filter(|node| node.value.value_type == OtelLogValueType::Bool.as_u32())
        .map(|node| node.value.value.bool_value)
        .collect();
    assert_eq!(words, [0, 1]);
    let again = OtelLogRecordView {
        struct_size: 160,
        present_fields: 0,
        timestamp_unix_nanos: 0,
        observed_timestamp_unix_nanos: 0,
        severity_number: 0,
        reserved_flags: 0,
        body: shown.body,
        attributes: OtelArrayView::Data(&shown.attributes),
        value_nodes: OtelArrayView::Data(&shown.value_nodes),
        trace_context: shown.trace_context,
        reserved: [0; 4],
    };
    let times = RepresentableTimes {
        timestamp: true,
        observed_timestamp: true,
    };
    let emitted = emit_record(&again, times).expect("an exported pool is acceptable");
    assert_eq!(
        format!("{:?}", emitted.body),
        format!("{:?}", exported.body)
    );
    assert_eq!(
        format!("{:?}", emitted.attributes),
        format!("{:?}", exported.attributes)
    );
}

#[test]
fn records_of_a_batch_are_shown_with_their_scopes() {
    let one = record();
    let scope = |name: &str| InstrumentationScope {
        name: name.to_owned(),
        version: None,
        schema_url: None,
        attributes: vec![],
    };
    let (a, b) = (scope("a"), scope("b"));
    let entry = |scope_key, scope| BatchEntry {
        record: &one,
        scope_key,
        scope,
    };
    let batch = [entry(5, &a), entry(9, &b), entry(5, &a)];
    let resource = Resource {
        schema_url: None,
        attributes: vec![],
    };
    let view = convert_batch(&batch, &resource, SIZES).expect("view");
    let names: Vec<&str> = view
        .records
        .iter()
        .map(|record| view.scopes[record.scope].name.as_str().expect("name"))
        .collect();
    assert_eq!(names, ["a", "b", "a"]);
    assert_eq!(view.scopes.len(), 2);
}

#[test]
fn views_announce_the_sizes_of_the_platform() {
    let sizes = ExportViewSizes {
        scope: 72,
        record: 184,
        batch: 72,
    };
    let one = record();
    let scope = InstrumentationScope {
        name: "s".to_owned(),
        version: None,
        schema_url: None,
        attributes: vec![],
    };
    let batch = [BatchEntry {
        record: &one,
        scope_key: 1,
        scope: &scope,
    }];
    let resource = Resource {
        schema_url: None,
        attributes: vec![],
    };
    let view = convert_batch(&batch, &resource, sizes).expect("view");
    assert_eq!(view.struct_size, 72);
    assert_eq!(view.records[0].struct_size, 184);
    assert_eq!(view.scopes[0].struct_size, 72);
}

#[test]
fn a_pool_with_an_empty_map_key_is_exported_and_not_taken_again() {
    let take = |key: &str| {
        let exported = with_body(AnyValue::ListAny(vec![entries(vec![
            (key, AnyValue::Int(1)),
            ("z", AnyValue::Int(2)),
        ])]));
        let shown = convert_record(&exported, 0, SIZES).expect("view");
        let again = OtelLogRecordView {
            struct_size: 160,
            present_fields: 0,
            timestamp_unix_nanos: 0,
            observed_timestamp_unix_nanos: 0,
            severity_number: 0,
            reserved_flags: 0,
            body: shown.body,
            attributes: OtelArrayView::Data(&[]),
            value_nodes: OtelArrayView::Data(&shown.value_nodes),
            trace_context: shown.trace_context,
            reserved: [0; 4],
        };
        let times = RepresentableTimes {
            timestamp: true,
            observed_timestamp: true,
        };
        emit_record(&again, times)
    };
    assert!(take("a").is_ok());
    assert!(matches!(
        take("").err(),
        Some(RecordFault::Pool(PoolFault::EmptyMapKey))
    ));
}
