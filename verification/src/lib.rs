//! The C SDK of OpenTelemetry: builders, exporters, processors, readers and views behind a C
//! boundary, for Traces, Metrics and Logs.

pub mod abi;
pub mod base_laws;
pub mod callback;
pub mod custom_log_exporter;
pub mod custom_metric_exporter;
pub mod custom_trace_exporter;
pub mod diagnostic_laws;
pub mod double_bits;
pub mod env_config;
pub mod error;
pub mod export_error;
pub mod export_laws;
pub mod exporter_laws;
pub mod features;
pub mod grpc_metadata;
pub mod grpc_runtime;
pub mod handle;
pub mod instrument_laws;
pub mod key_order;
pub mod log_convert;
pub mod log_emit;
pub mod log_export;
pub mod log_exporter;
pub mod log_flatten;
pub mod log_laws;
pub mod log_processor;
pub mod log_round_trip;
pub mod log_severity;
pub mod log_validate;
pub mod log_value;
pub mod manual_metric_reader;
pub mod memory;
pub mod metric_batch;
pub mod metric_data;
pub mod metric_exporter;
pub mod metric_instrument;
pub mod metric_kind;
pub mod metric_laws;
pub mod metric_view;
pub mod metric_visit;
pub mod otlp_config;
pub mod otlp_exporter;
pub mod otlp_laws;
pub mod otlp_metric_exporter;
pub mod periodic_metric_reader;
pub mod pipeline_laws;
pub mod pool_laws;
pub mod record_laws;
pub mod refusal_laws;
pub mod scope;
pub mod text;
pub mod time;
pub mod trace_exporter;
pub mod view_laws;
