use opentelemetry::logs::{LogRecord as _, Logger as _, LoggerProvider as _, Severity};
use opentelemetry::InstrumentationScope;
use opentelemetry_sdk::logs::{InMemoryLogExporter, SdkLoggerProvider, SimpleLogProcessor};

use opentelemetry_c_sdk::abi::{AbiError, OtelStatus};
use opentelemetry_c_sdk::callback::{callback_outcome, ShutdownStep, StatusPolicy};
use opentelemetry_c_sdk::custom_log_exporter::{
    export_step, otel_custom_log_exporter_new, CustomLogExporter, LogExportStep,
    OtelCustomLogExporterCallbacks,
};
use opentelemetry_c_sdk::error::{
    clear_last_error, fail, fail_abi, fail_owned, last_status_or, reset_last_status,
    set_last_error, status_from_export_pipeline_error, ErrorState, OTelSdkError,
};
use opentelemetry_c_sdk::handle::{
    caught_panic, checked_mut, checked_ref, destroy, into_raw, take, HasHandleHeader,
    OtelHandleHeader, OTEL_HANDLE_KIND_LOG_EXPORTER, OTEL_HANDLE_KIND_LOG_PROCESSOR,
};
use opentelemetry_c_sdk::export_error::{ConversionError, MemoryUse};
use opentelemetry_c_sdk::log_export::{
    convert_batch, BatchEntry, ExportViewSizes, ExportedRecord, Resource,
};
use opentelemetry_c_sdk::log_exporter::{
    otel_log_exporter_destroy, LogExporterImpl, LogRelease, OtelLogExporter,
};
use opentelemetry_c_sdk::log_processor::{
    builder_has_exporter, otel_batch_log_processor_builder_build,
    otel_batch_log_processor_builder_destroy, otel_batch_log_processor_builder_new,
    otel_batch_log_processor_builder_set_exporter,
    otel_batch_log_processor_builder_set_max_export_batch_size,
    otel_batch_log_processor_builder_set_max_queue_size,
    otel_batch_log_processor_builder_set_scheduled_delay_millis, otel_log_processor_destroy,
    otel_simple_log_processor_create, LogProcessorImpl, OtelBatchLogProcessorBuilder,
    OtelLogProcessor,
};
use opentelemetry_c_sdk::memory::reserve;
use opentelemetry_c_sdk::time::Duration;

/// The size of the callback table on a 64-bit platform.
const TABLE_SIZE: usize = 32;

/// The sizes of the exported structures on a 64-bit platform.
const SIZES: ExportViewSizes = ExportViewSizes {
    scope: 104,
    record: 216,
    batch: 104,
};

#[test]
fn sdk_pipeline_error_statuses_follow_public_policy() {
    let mut errors = ErrorState::new();
    assert_eq!(
        status_from_export_pipeline_error(&mut errors, &OTelSdkError::AlreadyShutdown),
        OtelStatus::AlreadyShutdown
    );
    assert_eq!(
        status_from_export_pipeline_error(
            &mut errors,
            &OTelSdkError::Timeout(Duration::from_millis(1))
        ),
        OtelStatus::Timeout
    );
    assert_eq!(
        status_from_export_pipeline_error(
            &mut errors,
            &OTelSdkError::InternalFailure("exporter rejected batch".to_owned())
        ),
        OtelStatus::ExportFailed
    );
}

#[test]
fn pipeline_errors_record_their_detail() {
    let cases = [
        (
            OTelSdkError::AlreadyShutdown,
            "operation failed: provider already shut down",
        ),
        (
            OTelSdkError::Timeout(Duration::from_millis(1_500)),
            "operation timed out after 1.5s",
        ),
        (
            OTelSdkError::InternalFailure("exporter rejected batch".to_owned()),
            "internal failure: exporter rejected batch",
        ),
    ];
    for (error, message) in cases {
        let mut errors = ErrorState::new();
        let status = status_from_export_pipeline_error(&mut errors, &error);
        assert_eq!(errors.last_status, status);
        assert_eq!(errors.message, message);
    }
}

#[test]
fn the_error_slot_keeps_status_and_message_apart() {
    let mut errors = ErrorState::new();
    assert_eq!(errors.last_status, OtelStatus::Success);
    assert_eq!(errors.message, "");
    assert_eq!(
        fail(&mut errors, OtelStatus::Timeout, "late"),
        OtelStatus::Timeout
    );
    assert_eq!(errors.message, "late");
    assert_eq!(
        last_status_or(&errors, OtelStatus::InternalError),
        OtelStatus::Timeout
    );
    set_last_error(&mut errors, "other");
    assert_eq!(errors.last_status, OtelStatus::Timeout);
    assert_eq!(errors.message, "other");
    reset_last_status(&mut errors);
    assert_eq!(errors.last_status, OtelStatus::Success);
    assert_eq!(errors.message, "other");
    assert_eq!(
        last_status_or(&errors, OtelStatus::InternalError),
        OtelStatus::InternalError
    );
    assert_eq!(
        fail_owned(&mut errors, OtelStatus::ExportFailed, "gone".to_owned()),
        OtelStatus::ExportFailed
    );
    clear_last_error(&mut errors);
    assert_eq!(errors.last_status, OtelStatus::Success);
    assert_eq!(errors.message, "");
    assert_eq!(
        fail_abi(&mut errors, AbiError::InvalidUtf8),
        OtelStatus::InvalidUtf8
    );
    assert_eq!(errors.last_status, OtelStatus::InvalidUtf8);
    assert_eq!(errors.message, AbiError::InvalidUtf8.message());
}

type Dummy = OtelLogExporter<u32>;

#[test]
fn prefix_validation_rejects_live_wrong_type_before_typed_access() {
    let mut errors = ErrorState::new();
    let mut other = Some(Dummy {
        header: OtelHandleHeader::new(OTEL_HANDLE_KIND_LOG_PROCESSOR),
        exporter: LogExporterImpl::Otlp(0),
    });
    assert!(checked_ref::<Dummy>(&mut errors, other.as_ref()).is_none());
    assert_eq!(
        errors.message,
        "handle failed validation: wrong OpenTelemetry C handle type"
    );
    assert!(checked_mut::<Dummy>(&mut errors, other.as_mut()).is_none());
    assert!(take::<Dummy>(&mut errors, &mut other).is_none());
    assert!(other.is_some());

    let mut dummy = Some(*into_raw(Dummy {
        header: OtelHandleHeader::new(Dummy::type_kind()),
        exporter: LogExporterImpl::Otlp(7),
    }));
    assert!(matches!(
        checked_ref(&mut errors, dummy.as_ref()).unwrap().exporter,
        LogExporterImpl::Otlp(7)
    ));
    let released = destroy(&mut dummy).expect("live handle");
    assert!(dummy.is_none());
    assert!(!released.header.is_live());
    assert_eq!(released.header.kind(), OTEL_HANDLE_KIND_LOG_EXPORTER);
    assert!(checked_ref(&mut errors, Some(&released)).is_none());
    assert_eq!(
        errors.message,
        "handle failed validation: not a live OpenTelemetry C handle"
    );
    assert!(checked_ref::<Dummy>(&mut errors, None).is_none());
    assert_eq!(errors.message, "null handle passed to OpenTelemetry C API");
    assert_eq!(caught_panic(&mut errors), OtelStatus::InternalError);
    assert_eq!(errors.message, "caught panic at FFI boundary");
}

fn in_memory_exporter() -> (
    Option<OtelLogExporter<InMemoryLogExporter>>,
    InMemoryLogExporter,
) {
    let exporter = InMemoryLogExporter::default();
    (
        Some(OtelLogExporter::new(LogExporterImpl::Otlp(
            exporter.clone(),
        ))),
        exporter,
    )
}

#[test]
fn simple_processor_rejects_null_out_and_leaves_exporter_owned() {
    let mut errors = ErrorState::new();
    let (mut exporter, _probe) = in_memory_exporter();
    assert_eq!(
        otel_simple_log_processor_create(&mut errors, &mut exporter, None),
        OtelStatus::InvalidArgument
    );
    // Nothing was consumed, so the caller can still release it exactly once.
    assert!(matches!(
        otel_log_exporter_destroy(&mut exporter),
        Some(LogRelease::Drop(_))
    ));
    assert!(otel_log_exporter_destroy(&mut exporter).is_none());
}

#[test]
fn simple_processor_takes_ownership_only_on_success() {
    let mut errors = ErrorState::new();
    let (mut exporter, _probe) = in_memory_exporter();
    let mut processor: Option<OtelLogProcessor<InMemoryLogExporter>> = None;

    // Failure path: an already-destroyed exporter handle is rejected and no processor is
    // produced.
    let (mut stale, _stale_probe) = in_memory_exporter();
    let mut header = stale.as_ref().unwrap().header;
    header.poison();
    stale.as_mut().unwrap().header = header;
    assert_eq!(
        otel_simple_log_processor_create(&mut errors, &mut stale, Some(&mut processor)),
        OtelStatus::InvalidArgument
    );
    assert!(processor.is_none());

    // Success path: ownership moves into the processor; destroying the processor is the only
    // release needed.
    assert_eq!(
        otel_simple_log_processor_create(&mut errors, &mut exporter, Some(&mut processor)),
        OtelStatus::Success
    );
    assert!(exporter.is_none());
    assert!(processor.is_some());
    assert!(matches!(
        otel_log_processor_destroy(&mut processor),
        Some(LogProcessorImpl::Simple(LogExporterImpl::Otlp(_)))
    ));
}

#[test]
fn batch_builder_rejects_bad_arguments_without_consuming_the_exporter() {
    let mut errors = ErrorState::new();
    let mut builder = Some(otel_batch_log_processor_builder_new(&mut errors));
    let (mut exporter, _probe) = in_memory_exporter();
    let (status, replaced) =
        otel_batch_log_processor_builder_set_exporter(&mut errors, None, &mut exporter);
    assert_eq!(status, OtelStatus::InvalidArgument);
    assert!(replaced.is_none());
    // Rejected before the transfer, so the exporter is still ours.
    assert!(exporter.is_some());
    let (status, replaced) = otel_batch_log_processor_builder_set_exporter(
        &mut errors,
        builder.as_mut(),
        &mut exporter,
    );
    assert_eq!(status, OtelStatus::Success);
    assert!(replaced.is_none());
    assert!(builder_has_exporter(&mut errors, builder.as_ref()));

    // Matching the trace builder, a second exporter replaces (and frees) the first rather than
    // erroring, so a caller reconfiguring a builder cannot leak.
    let (mut second, _second_probe) = in_memory_exporter();
    let (status, replaced) = otel_batch_log_processor_builder_set_exporter(
        &mut errors,
        builder.as_mut(),
        &mut second,
    );
    assert_eq!(status, OtelStatus::Success);
    assert!(replaced.is_some());
    assert!(builder_has_exporter(&mut errors, builder.as_ref()));

    assert_eq!(
        otel_batch_log_processor_builder_set_max_queue_size(&mut errors, builder.as_mut(), 2048),
        OtelStatus::Success
    );
    assert!(otel_batch_log_processor_builder_destroy(&mut builder).is_some());
    assert!(builder.is_none());
}

#[test]
fn batch_builder_rejects_batch_size_larger_than_queue_size_and_stays_reusable() {
    let mut errors = ErrorState::new();
    let mut builder = Some(otel_batch_log_processor_builder_new(&mut errors));
    let (mut exporter, _probe) = in_memory_exporter();
    assert_eq!(
        otel_batch_log_processor_builder_set_exporter(
            &mut errors,
            builder.as_mut(),
            &mut exporter
        )
        .0,
        OtelStatus::Success
    );
    assert_eq!(
        otel_batch_log_processor_builder_set_max_queue_size(&mut errors, builder.as_mut(), 8),
        OtelStatus::Success
    );
    assert_eq!(
        otel_batch_log_processor_builder_set_max_export_batch_size(
            &mut errors,
            builder.as_mut(),
            16
        ),
        OtelStatus::Success
    );
    let mut processor: Option<OtelLogProcessor<InMemoryLogExporter>> = None;
    assert_eq!(
        otel_batch_log_processor_builder_build(
            &mut errors,
            builder.as_mut(),
            Some(&mut processor)
        ),
        OtelStatus::InvalidConfig
    );
    assert!(processor.is_none());
    // The exporter must NOT have been consumed by the failed build.
    assert!(builder_has_exporter(&mut errors, builder.as_ref()));

    // Fixing the configuration makes the very same builder usable.
    assert_eq!(
        otel_batch_log_processor_builder_set_max_export_batch_size(
            &mut errors,
            builder.as_mut(),
            4
        ),
        OtelStatus::Success
    );
    assert_eq!(
        otel_batch_log_processor_builder_set_scheduled_delay_millis(
            &mut errors,
            builder.as_mut(),
            25
        ),
        OtelStatus::Success
    );
    assert_eq!(
        otel_batch_log_processor_builder_build(
            &mut errors,
            builder.as_mut(),
            Some(&mut processor)
        ),
        OtelStatus::Success
    );
    assert!(processor.is_some());
    // Build consumed the exporter; a second build must fail rather than reuse it.
    assert!(!builder_has_exporter(&mut errors, builder.as_ref()));
    let mut second: Option<OtelLogProcessor<InMemoryLogExporter>> = None;
    assert_eq!(
        otel_batch_log_processor_builder_build(&mut errors, builder.as_mut(), Some(&mut second)),
        OtelStatus::InvalidConfig
    );
    assert!(second.is_none());

    match otel_log_processor_destroy(&mut processor) {
        Some(LogProcessorImpl::Batch { config, .. }) => {
            assert_eq!(config.max_queue_size, Some(8));
            assert_eq!(config.max_export_batch_size, Some(4));
            assert_eq!(config.scheduled_delay, Some(Duration::from_millis(25)));
        }
        _ => panic!("expected a batch processor"),
    }
    assert!(otel_batch_log_processor_builder_destroy(&mut builder).is_none());
}

#[test]
fn batch_builder_requires_an_exporter() {
    let mut errors = ErrorState::new();
    let mut builder: Option<OtelBatchLogProcessorBuilder<InMemoryLogExporter>> =
        Some(otel_batch_log_processor_builder_new(&mut errors));
    let mut processor: Option<OtelLogProcessor<InMemoryLogExporter>> = None;
    assert_eq!(
        otel_batch_log_processor_builder_build(
            &mut errors,
            builder.as_mut(),
            Some(&mut processor)
        ),
        OtelStatus::InvalidConfig
    );
    assert!(processor.is_none());
    assert_eq!(
        otel_batch_log_processor_builder_build(&mut errors, builder.as_mut(), None),
        OtelStatus::InvalidArgument
    );
    otel_batch_log_processor_builder_destroy(&mut builder);
}

#[test]
fn a_second_build_needs_a_new_exporter() {
    let mut errors = ErrorState::new();
    let mut builder: Option<OtelBatchLogProcessorBuilder<InMemoryLogExporter>> =
        Some(otel_batch_log_processor_builder_new(&mut errors));
    otel_batch_log_processor_builder_set_max_queue_size(&mut errors, builder.as_mut(), 7);
    for _ in 0..2 {
        let mut processor: Option<OtelLogProcessor<InMemoryLogExporter>> = None;
        assert_eq!(
            otel_batch_log_processor_builder_build(
                &mut errors,
                builder.as_mut(),
                Some(&mut processor)
            ),
            OtelStatus::InvalidConfig
        );
        assert_eq!(errors.message, "batch log processor requires an exporter");
        let (mut exporter, _probe) = in_memory_exporter();
        otel_batch_log_processor_builder_set_exporter(
            &mut errors,
            builder.as_mut(),
            &mut exporter,
        );
        assert_eq!(
            otel_batch_log_processor_builder_build(
                &mut errors,
                builder.as_mut(),
                Some(&mut processor)
            ),
            OtelStatus::Success
        );
        match otel_log_processor_destroy(&mut processor) {
            Some(LogProcessorImpl::Batch { config, .. }) => {
                assert_eq!(config.max_queue_size, Some(7));
            }
            other => panic!("unexpected processor {other:?}"),
        }
    }
}

#[test]
fn a_handle_is_given_up_once() {
    let mut errors = ErrorState::new();
    let (mut exporter, _probe) = in_memory_exporter();
    let given_up = take(&mut errors, &mut exporter).expect("handle");
    assert!(exporter.is_none());
    assert!(!given_up.header.is_live());
    assert!(take(&mut errors, &mut exporter).is_none());
    assert!(destroy(&mut exporter).is_none());
    let mut again = Some(given_up);
    assert!(take(&mut errors, &mut again).is_none());
    assert!(destroy(&mut again).is_none());
    assert!(again.is_some());
}

#[test]
fn null_and_destroyed_handles_are_rejected_by_every_setter() {
    let mut errors = ErrorState::new();
    assert_eq!(
        otel_batch_log_processor_builder_set_max_queue_size::<InMemoryLogExporter>(
            &mut errors,
            None,
            1
        ),
        OtelStatus::InvalidArgument
    );
    assert_eq!(
        otel_batch_log_processor_builder_set_max_export_batch_size::<InMemoryLogExporter>(
            &mut errors,
            None,
            1
        ),
        OtelStatus::InvalidArgument
    );
    assert_eq!(
        otel_batch_log_processor_builder_set_scheduled_delay_millis::<InMemoryLogExporter>(
            &mut errors,
            None,
            1
        ),
        OtelStatus::InvalidArgument
    );
    // Destroy is a no-op on NULL for both handle kinds.
    let mut builder: Option<OtelBatchLogProcessorBuilder<InMemoryLogExporter>> = None;
    assert!(otel_batch_log_processor_builder_destroy(&mut builder).is_none());
    let mut processor: Option<OtelLogProcessor<InMemoryLogExporter>> = None;
    assert!(otel_log_processor_destroy(&mut processor).is_none());
    let mut exporter: Option<OtelLogExporter<InMemoryLogExporter>> = None;
    assert!(otel_log_exporter_destroy(&mut exporter).is_none());
}

#[test]
fn batch_settings_are_kept_by_the_builder() {
    let mut errors = ErrorState::new();
    let mut builder: OtelBatchLogProcessorBuilder<InMemoryLogExporter> =
        otel_batch_log_processor_builder_new(&mut errors);
    otel_batch_log_processor_builder_set_max_queue_size(&mut errors, Some(&mut builder), 8);
    otel_batch_log_processor_builder_set_max_export_batch_size(&mut errors, Some(&mut builder), 4);
    otel_batch_log_processor_builder_set_scheduled_delay_millis(
        &mut errors,
        Some(&mut builder),
        25,
    );
    assert_eq!(builder.config.max_queue_size, Some(8));
    assert_eq!(builder.config.max_export_batch_size, Some(4));
    assert_eq!(builder.config.scheduled_delay_millis, Some(25));
}

#[test]
fn simple_processor_exports_records_end_to_end() {
    let mut errors = ErrorState::new();
    let (mut handle, exporter) = in_memory_exporter();
    let mut processor: Option<OtelLogProcessor<InMemoryLogExporter>> = None;
    assert_eq!(
        otel_simple_log_processor_create(&mut errors, &mut handle, Some(&mut processor)),
        OtelStatus::Success
    );
    let inner = match otel_log_processor_destroy(&mut processor) {
        Some(LogProcessorImpl::Simple(LogExporterImpl::Otlp(inner))) => inner,
        _ => panic!("expected a simple processor"),
    };
    let provider = SdkLoggerProvider::builder()
        .with_log_processor(SimpleLogProcessor::new(inner))
        .build();
    let logger = provider.logger_with_scope(InstrumentationScope::builder("probe").build());
    let mut record = logger.create_log_record();
    record.set_severity_number(Severity::Warn);
    logger.emit(record);

    let emitted = exporter.get_emitted_logs().expect("logs must be readable");
    assert_eq!(emitted.len(), 1);
    assert_eq!(emitted[0].record.severity_number(), Some(Severity::Warn));
    let _ = provider.shutdown();
}

fn no_resource() -> Resource {
    Resource {
        schema_url: None,
        attributes: vec![],
    }
}

fn log_callbacks() -> OtelCustomLogExporterCallbacks {
    OtelCustomLogExporterCallbacks {
        struct_size: TABLE_SIZE,
        export_logs: Some(10),
        shutdown: Some(20),
        state_destroy: Some(30),
    }
}

#[test]
fn custom_log_exporters_validate_their_callback_table() {
    let mut errors = ErrorState::new();
    assert_eq!(
        otel_custom_log_exporter_new::<()>(&mut errors, Some(log_callbacks()), TABLE_SIZE, 1, None),
        OtelStatus::InvalidArgument
    );
    let mut exporter: Option<OtelLogExporter<()>> = None;
    assert_eq!(
        otel_custom_log_exporter_new(&mut errors, None, TABLE_SIZE, 1, Some(&mut exporter)),
        OtelStatus::InvalidArgument
    );
    let mut short = log_callbacks();
    short.struct_size -= 1;
    assert_eq!(
        otel_custom_log_exporter_new(&mut errors, Some(short), TABLE_SIZE, 1, Some(&mut exporter)),
        OtelStatus::InvalidConfig
    );
    let mut missing = log_callbacks();
    missing.export_logs = None;
    assert_eq!(
        otel_custom_log_exporter_new(&mut errors, Some(missing), TABLE_SIZE, 1, Some(&mut exporter)),
        OtelStatus::InvalidConfig
    );
    assert!(exporter.is_none());
    assert_eq!(
        otel_custom_log_exporter_new(&mut errors, Some(log_callbacks()), TABLE_SIZE, 1, Some(&mut exporter)),
        OtelStatus::Success
    );
    match otel_log_exporter_destroy(&mut exporter) {
        Some(LogRelease::Run(plan)) => {
            assert!(matches!(
                plan.shutdown,
                ShutdownStep::Invoke {
                    callback: 20,
                    user_data: 1,
                    ..
                }
            ));
            assert_eq!(plan.destroy, Some(30));
            assert_eq!(plan.user_data, 1);
        }
        _ => panic!("expected a release plan"),
    }
}

#[test]
fn no_log_callback_runs_after_shutdown() {
    let mut errors = ErrorState::new();
    let mut exporter = CustomLogExporter {
        callbacks: log_callbacks(),
        user_data: 7,
        resource: no_resource(),
        shutdown: false,
    };
    match exporter.export(&mut errors, &[], SIZES) {
        LogExportStep::Invoke {
            callback,
            user_data,
            view,
        } => {
            assert_eq!((callback, user_data), (10, 7));
            assert!(view.records.is_empty());
        }
        LogExportStep::Done(_) => panic!("expected a callback"),
    }
    match exporter.shutdown(Duration::from_millis(17)) {
        ShutdownStep::Invoke {
            callback,
            user_data,
            timeout_millis,
        } => assert_eq!((callback, user_data, timeout_millis), (20, 7, 17)),
        ShutdownStep::Done(_) => panic!("expected a callback"),
    }
    assert!(matches!(
        exporter.shutdown(Duration::from_millis(17)),
        ShutdownStep::Done(Err(OTelSdkError::AlreadyShutdown))
    ));
    assert!(matches!(
        exporter.export(&mut errors, &[], SIZES),
        LogExportStep::Done(Err(OTelSdkError::AlreadyShutdown))
    ));
    let plan = exporter.release();
    assert!(matches!(plan.shutdown, ShutdownStep::Done(_)));
    assert_eq!(plan.destroy, Some(30));
}

#[test]
fn a_batch_that_cannot_be_shown_fails_the_export() {
    let mut errors = ErrorState::new();
    let exporter = CustomLogExporter {
        callbacks: log_callbacks(),
        user_data: 7,
        resource: no_resource(),
        shutdown: false,
    };
    let record = ExportedRecord {
        timestamp: Some(opentelemetry_c_sdk::time::SystemTime {
            nanos_since_epoch: -1,
        }),
        observed_timestamp: None,
        severity_number: None,
        severity_text: None,
        event_name: None,
        target: None,
        body: None,
        attributes: vec![],
        trace_context: None,
    };
    let scope = opentelemetry_c_sdk::log_export::InstrumentationScope {
        name: "scope".to_owned(),
        version: None,
        schema_url: None,
        attributes: vec![],
    };
    let entries = [BatchEntry {
        record: &record,
        scope_key: 1,
        scope: &scope,
    }];
    match exporter.export(&mut errors, &entries, SIZES) {
        LogExportStep::Done(Err(OTelSdkError::InternalFailure(message))) => {
            assert!(message.contains("timestamp"));
        }
        _ => panic!("expected a failure"),
    }
    assert_ne!(errors.last_status, OtelStatus::Success);
}

#[test]
fn the_outcome_of_a_batch_conversion_decides_the_export() {
    let mut errors = ErrorState::new();
    let resource = no_resource();
    match export_step(&mut errors, 10, 7, convert_batch(&[], &resource, SIZES)) {
        LogExportStep::Invoke {
            callback,
            user_data,
            view,
        } => {
            assert_eq!((callback, user_data), (10, 7));
            assert!(view.records.is_empty());
        }
        LogExportStep::Done(_) => panic!("expected an invocation"),
    }
    assert_eq!(errors.last_status, OtelStatus::Success);

    let mut none: Vec<u64> = vec![];
    let failure = reserve(&mut none, usize::MAX).expect_err("no room");
    for error in [
        ConversionError::TooDeep,
        ConversionError::Memory(failure, MemoryUse::WorkQueue),
    ] {
        match export_step(&mut errors, 10, 7, Err(error)) {
            LogExportStep::Done(Err(OTelSdkError::InternalFailure(message))) => {
                assert_eq!(message, error.message());
            }
            _ => panic!("expected a failure"),
        }
        assert_eq!(errors.last_status, OtelStatus::ExportFailed);
        assert_eq!(errors.message, error.message());
    }
}

#[test]
fn an_empty_batch_is_always_shown() {
    let mut errors = ErrorState::new();
    let exporter = CustomLogExporter {
        callbacks: log_callbacks(),
        user_data: 7,
        resource: no_resource(),
        shutdown: false,
    };
    assert!(matches!(
        exporter.export(&mut errors, &[], SIZES),
        LogExportStep::Invoke { user_data: 7, .. }
    ));
    assert_eq!(errors.last_status, OtelStatus::Success);
}

#[test]
fn callback_outcomes_follow_the_policy() {
    let limit = Duration::from_secs(1);
    let strict = |outcome: Option<OtelStatus>| {
        callback_outcome("log", "export", limit, outcome, StatusPolicy::Strict)
    };
    assert!(strict(Some(OtelStatus::Success)).is_ok());
    assert!(matches!(
        strict(Some(OtelStatus::AlreadyShutdown)),
        Err(OTelSdkError::AlreadyShutdown)
    ));
    assert!(matches!(
        strict(Some(OtelStatus::Timeout)),
        Err(OTelSdkError::Timeout(d)) if d == limit
    ));
    match strict(None) {
        Err(OTelSdkError::InternalFailure(message)) => {
            assert_eq!(message, "custom log exporter export callback panicked")
        }
        _ => panic!("expected a failure"),
    }
    let code = OtelStatus::ExportFailed.code();
    match strict(Some(OtelStatus::ExportFailed)) {
        Err(OTelSdkError::InternalFailure(message)) => assert_eq!(
            message,
            format!("custom log exporter export callback failed with status {code}")
        ),
        _ => panic!("expected a failure"),
    }
    match strict(Some(OtelStatus::Other(99))) {
        Err(OTelSdkError::InternalFailure(message)) => assert_eq!(
            message,
            "custom log exporter export callback returned status 99, which is not a valid result \
             for this callback"
        ),
        _ => panic!("expected a failure"),
    }
    match callback_outcome(
        "log",
        "export",
        limit,
        Some(OtelStatus::Other(99)),
        StatusPolicy::Lenient,
    ) {
        Err(OTelSdkError::InternalFailure(message)) => assert_eq!(
            message,
            "custom log exporter export callback failed with status 99"
        ),
        _ => panic!("expected a failure"),
    }
}
