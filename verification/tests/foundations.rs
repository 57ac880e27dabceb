use opentelemetry_c_sdk::abi::{AbiError, OtelArrayView, OtelStatus, OtelStringView};
use opentelemetry_c_sdk::callback::{CallbackStep, ShutdownStep};
use opentelemetry_c_sdk::custom_trace_exporter::{
    otel_custom_trace_exporter_new, read_callbacks, CustomTraceExporter, SpanConversionError,
    TraceCallbackLayout,
};
use opentelemetry_c_sdk::error::{ErrorState, OTelSdkError};
use opentelemetry_c_sdk::key_order::insert_ordered;
use opentelemetry_c_sdk::log_export::Resource;
use opentelemetry_c_sdk::memory::reserve;
use opentelemetry_c_sdk::text::{
    lower, numbered_text, same_bytes, same_text, same_text_ignoring_case, text_less,
};
use opentelemetry_c_sdk::time::{duration_text, Duration};
use opentelemetry_c_sdk::trace_exporter::{
    otel_trace_exporter_destroy, OtelTraceExporter, TraceExporterImpl, TraceRelease,
};

/// Where the members of a callback table end on a 64-bit platform.
const LAYOUT: TraceCallbackLayout = TraceCallbackLayout {
    export_spans_end: 16,
    force_flush_end: 24,
    shutdown_end: 32,
    state_destroy_end: 40,
};

const EXPORT: usize = 11;
const FLUSH: usize = 12;
const SHUTDOWN: usize = 13;
const DESTROY: usize = 14;
const USER_DATA: usize = 5;

fn callbacks() -> [usize; 5] {
    [LAYOUT.state_destroy_end, EXPORT, FLUSH, SHUTDOWN, DESTROY]
}

fn truncated_table(prefix_size: usize) -> Vec<usize> {
    let word = 8;
    assert_eq!(prefix_size % word, 0);
    let mut table = callbacks()[..prefix_size / word].to_vec();
    table[0] = prefix_size;
    table
}

#[test]
fn construction_validates_callback_table() {
    let mut errors = ErrorState::new();
    assert_eq!(
        otel_custom_trace_exporter_new::<()>(&mut errors, Some(&callbacks()), LAYOUT, 0, None),
        OtelStatus::InvalidArgument
    );
    let mut exporter: Option<OtelTraceExporter<()>> = None;
    assert_eq!(
        otel_custom_trace_exporter_new(&mut errors, None, LAYOUT, 0, Some(&mut exporter)),
        OtelStatus::InvalidArgument
    );
    let mut short = callbacks();
    short[0] = 0;
    assert_eq!(
        otel_custom_trace_exporter_new(&mut errors, Some(&short), LAYOUT, 0, Some(&mut exporter)),
        OtelStatus::InvalidConfig
    );
    let mut missing = callbacks();
    missing[1] = 0;
    assert_eq!(
        otel_custom_trace_exporter_new(&mut errors, Some(&missing), LAYOUT, 0, Some(&mut exporter)),
        OtelStatus::InvalidConfig
    );
    assert!(exporter.is_none());
}

#[test]
fn required_prefix_omits_optional_callbacks() {
    let table = truncated_table(LAYOUT.export_spans_end);
    let parsed = read_callbacks(&table, LAYOUT.export_spans_end, LAYOUT);
    assert!(parsed.export_spans.is_some());
    assert!(parsed.force_flush.is_none());
    assert!(parsed.shutdown.is_none());
    assert!(parsed.state_destroy.is_none());
}

#[test]
fn a_table_shows_the_callbacks_that_its_size_covers() {
    let full = callbacks();
    let parsed = read_callbacks(&full, LAYOUT.force_flush_end, LAYOUT);
    assert_eq!(
        (parsed.export_spans, parsed.force_flush, parsed.shutdown),
        (Some(EXPORT), Some(FLUSH), None)
    );
    let parsed = read_callbacks(&full, LAYOUT.shutdown_end, LAYOUT);
    assert_eq!(
        (parsed.shutdown, parsed.state_destroy),
        (Some(SHUTDOWN), None)
    );
    let parsed = read_callbacks(&full, LAYOUT.shutdown_end + 1, LAYOUT);
    assert_eq!(parsed.state_destroy, None);
    let parsed = read_callbacks(&full, LAYOUT.state_destroy_end, LAYOUT);
    assert_eq!(parsed.state_destroy, Some(DESTROY));
}

#[test]
fn owns_state_only_after_success() {
    let mut errors = ErrorState::new();
    let mut exporter: Option<OtelTraceExporter<()>> = None;
    assert_eq!(
        otel_custom_trace_exporter_new(
            &mut errors,
            Some(&callbacks()),
            LAYOUT,
            USER_DATA,
            Some(&mut exporter)
        ),
        OtelStatus::Success
    );
    match otel_trace_exporter_destroy(&mut exporter) {
        Some(TraceRelease::Run(plan)) => {
            match plan.shutdown {
                ShutdownStep::Invoke {
                    callback,
                    user_data,
                    ..
                } => assert_eq!((callback, user_data), (SHUTDOWN, USER_DATA)),
                ShutdownStep::Done(_) => panic!("expected a shutdown"),
            }
            assert_eq!((plan.destroy, plan.user_data), (Some(DESTROY), USER_DATA));
        }
        _ => panic!("expected a release plan"),
    }
    assert!(otel_trace_exporter_destroy(&mut exporter).is_none());

    let mut invalid = callbacks();
    invalid[0] = 0;
    assert_eq!(
        otel_custom_trace_exporter_new(
            &mut errors,
            Some(&invalid),
            LAYOUT,
            USER_DATA,
            Some(&mut exporter)
        ),
        OtelStatus::InvalidConfig
    );
    assert!(exporter.is_none());
}

#[test]
fn no_trace_callback_runs_after_shutdown() {
    let mut errors = ErrorState::new();
    let mut exporter = CustomTraceExporter {
        callbacks: read_callbacks(&callbacks(), LAYOUT.state_destroy_end, LAYOUT),
        user_data: USER_DATA,
        resource: Resource {
            schema_url: None,
            attributes: vec![],
        },
        shutdown: false,
    };
    assert!(matches!(
        exporter.export(&mut errors, Ok(())),
        CallbackStep::Invoke {
            callback: EXPORT,
            user_data: USER_DATA
        }
    ));
    match exporter.export(
        &mut errors,
        Err(SpanConversionError {
            status: OtelStatus::InternalError,
            message: "too many spans".to_owned(),
        }),
    ) {
        CallbackStep::Done(Err(OTelSdkError::InternalFailure(message))) => {
            assert!(message.contains("too many spans"))
        }
        _ => panic!("expected a failure"),
    }
    assert_eq!(errors.last_status, OtelStatus::InternalError);
    assert!(matches!(
        exporter.force_flush(),
        CallbackStep::Invoke {
            callback: FLUSH,
            ..
        }
    ));
    assert!(matches!(
        exporter.shutdown(Duration::from_secs(2)),
        ShutdownStep::Invoke {
            callback: SHUTDOWN,
            timeout_millis: 2000,
            ..
        }
    ));
    assert!(matches!(
        exporter.export(&mut errors, Ok(())),
        CallbackStep::Done(Err(OTelSdkError::AlreadyShutdown))
    ));
    assert!(matches!(
        exporter.force_flush(),
        CallbackStep::Done(Err(OTelSdkError::AlreadyShutdown))
    ));
    assert!(matches!(
        TraceExporterImpl::<()>::Custom(exporter).release(),
        TraceRelease::Run(_)
    ));
}

#[test]
fn statuses_and_codes_correspond() {
    for status in [
        OtelStatus::Success,
        OtelStatus::InvalidArgument,
        OtelStatus::InvalidUtf8,
        OtelStatus::InvalidConfig,
        OtelStatus::AlreadyShutdown,
        OtelStatus::Timeout,
        OtelStatus::ExportFailed,
        OtelStatus::InternalError,
        OtelStatus::Other(4_000),
    ] {
        assert_eq!(OtelStatus::from_code(status.code()), status);
    }
    assert_eq!(OtelStatus::Success.code(), 0);
}

#[test]
fn string_views_are_read_strictly() {
    let text = "h\u{e9}llo \u{1F600}";
    assert_eq!(OtelStringView::of(text).as_str(), Ok(text));
    assert_eq!(OtelStringView::empty().as_str(), Ok(""));
    assert_eq!(
        OtelStringView { bytes: None }.as_str(),
        Err(AbiError::NullData)
    );
    for bytes in [
        &[0xFFu8][..],
        &[0xC0, 0x80],
        &[0xED, 0xA0, 0x80],
        &[0xE2, 0x82],
        &[0xF4, 0x90, 0x80, 0x80],
    ] {
        let view = OtelStringView { bytes: Some(bytes) };
        assert_eq!(view.as_str(), Err(AbiError::InvalidUtf8));
        assert!(view.to_string_strict().is_err());
    }
    assert_eq!(OtelArrayView::<u8>::Null(3).count(), 3);
    assert!(OtelArrayView::<u8>::Null(3).is_dangling());
    assert!(!OtelArrayView::<u8>::Null(0).is_dangling());
    assert_eq!(OtelArrayView::Data(&[1u8, 2]).count(), 2);
}

#[test]
fn texts_compare_by_bytes() {
    let samples = ["", "a", "A", "aa", "b", "z", "\u{e9}", "\u{FFFF}", "\u{10000}"];
    for a in samples {
        for b in samples {
            assert_eq!(text_less(a, b), a.as_bytes() < b.as_bytes());
            assert_eq!(same_text(a, b), a == b);
            assert_eq!(same_bytes(a.as_bytes(), b.as_bytes()), a == b);
            assert_eq!(same_text_ignoring_case(a, b), a.eq_ignore_ascii_case(b));
        }
    }
    for byte in 0..=255u8 {
        assert_eq!(lower(byte), byte.to_ascii_lowercase());
    }
    assert_eq!(numbered_text("<", 0, ">"), "<0>");
    assert_eq!(numbered_text("", u64::MAX, ""), u64::MAX.to_string());
}

#[test]
fn ordered_insertion_keeps_equal_keys_in_place() {
    let mut entries: Vec<(&str, &i32)> = Vec::new();
    for (key, value) in [("b", &1), ("a", &2), ("b", &3), ("", &4), ("a", &5)] {
        insert_ordered(&mut entries, key, value);
    }
    assert_eq!(
        entries,
        [("", &4), ("a", &2), ("a", &5), ("b", &1), ("b", &3)]
    );
}

#[test]
fn durations_are_written_as_std_writes_them() {
    for (secs, nanos) in [
        (0, 0),
        (0, 1),
        (0, 1_500),
        (0, 2_000_000),
        (1, 500_000_000),
        (90, 0),
        (u64::MAX, 999_999_999),
    ] {
        assert_eq!(
            duration_text(Duration { secs, nanos }),
            format!("{:?}", std::time::Duration::new(secs, nanos))
        );
    }
    assert_eq!(
        Duration::from_millis(1_234),
        Duration {
            secs: 1,
            nanos: 234_000_000
        }
    );
    assert_eq!(Duration::from_secs(3).millis_saturating(), 3_000);
    let longest = Duration {
        secs: u64::MAX,
        nanos: 0,
    };
    assert_eq!(longest.millis_saturating(), u64::MAX);
}

#[test]
fn reservations_keep_the_elements() {
    let mut items = vec![1u64, 2];
    assert!(reserve(&mut items, 100).is_ok());
    assert_eq!(items, [1, 2]);
    assert!(items.capacity() >= 102);
    assert!(reserve(&mut items, usize::MAX).is_err());
    assert_eq!(items, [1, 2]);
    assert!(reserve(&mut items, 0).is_ok());
    assert_eq!(items, [1, 2]);
}

#[test]
fn callback_tables_are_read_by_the_layout_of_the_platform() {
    let narrow = TraceCallbackLayout {
        export_spans_end: 8,
        force_flush_end: 12,
        shutdown_end: 16,
        state_destroy_end: 20,
    };
    let parsed = read_callbacks(&callbacks(), 12, narrow);
    assert_eq!(parsed.force_flush, Some(FLUSH));
    assert_eq!(parsed.shutdown, None);
    let mut errors = ErrorState::new();
    let mut exporter: Option<OtelTraceExporter<()>> = None;
    let table = [8, EXPORT];
    assert_eq!(
        otel_custom_trace_exporter_new(&mut errors, Some(&table), narrow, 0, Some(&mut exporter)),
        OtelStatus::Success
    );
    assert_eq!(
        otel_custom_trace_exporter_new(&mut errors, Some(&table), LAYOUT, 0, Some(&mut exporter)),
        OtelStatus::InvalidConfig
    );
}
