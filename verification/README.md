# opentelemetry_c_sdk

The decisions behind a C SDK for OpenTelemetry, written and proved in Verus: what a C caller may
hand in, what it is answered, and what the SDK is told to do.

- `src/` is the verified library. Pointers that may be NULL are `Option`s, callbacks and callback
  state are addresses, doubles are bit patterns, and the error slot of a thread is an argument.
  Where outside work comes in (a callback, an exporter, a collection), a function takes the
  outcome so far and gives the next step.
- `app/` carries the steps out: the C entry points, the vtables, the locks, the threads, and the
  OpenTelemetry SDK.
- `tests/` runs the library on concrete values, with the real SDK crates around it.

| Area | Modules |
| --- | --- |
| Views, statuses, handles, errors | `abi`, `handle`, `error`, `memory`, `text`, `time`, `double_bits` |
| Emitting log records | `log_value`, `log_severity`, `log_validate`, `log_convert`, `log_emit`, `scope` |
| Exporting log records | `key_order`, `log_flatten`, `log_export`, `export_error`, `custom_log_exporter`, `log_exporter`, `log_processor`, `log_laws`, `log_round_trip` |
| Metrics | `metric_kind`, `metric_instrument`, `metric_view`, `metric_data`, `metric_batch`, `metric_visit`, `custom_metric_exporter`, `metric_exporter`, `periodic_metric_reader`, `manual_metric_reader` |
| Traces | `custom_trace_exporter`, `trace_exporter` |
| OTLP | `env_config`, `features`, `otlp_config`, `grpc_metadata`, `grpc_runtime`, `otlp_exporter`, `otlp_metric_exporter` |
| Callbacks of exporters | `callback` |
