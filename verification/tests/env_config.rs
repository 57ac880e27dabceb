use std::collections::HashMap;

use opentelemetry_c_sdk::env_config::{
    otlp_protocol, protocol_from, sdk_disabled, sdk_disabled_from, OtlpProtocol,
    OTEL_EXPORTER_OTLP_LOGS_PROTOCOL, OTEL_EXPORTER_OTLP_METRICS_PROTOCOL,
    OTEL_EXPORTER_OTLP_PROTOCOL, OTEL_EXPORTER_OTLP_TRACES_PROTOCOL,
};

fn values(entries: &[(&str, &str)]) -> HashMap<String, String> {
    entries
        .iter()
        .map(|(key, value)| ((*key).to_owned(), (*value).to_owned()))
        .collect()
}

#[test]
fn signal_protocol_precedes_generic_and_is_case_insensitive() {
    let env = values(&[
        (OTEL_EXPORTER_OTLP_PROTOCOL, "http/protobuf"),
        (OTEL_EXPORTER_OTLP_TRACES_PROTOCOL, "GRPC"),
    ]);
    assert_eq!(
        protocol_from(OTEL_EXPORTER_OTLP_TRACES_PROTOCOL, |name| env
            .get(name)
            .cloned()),
        OtlpProtocol::Grpc
    );
}

#[test]
fn invalid_or_empty_specific_protocol_falls_back_to_generic() {
    for specific in ["", "http/json", "unknown"] {
        let env = values(&[
            (OTEL_EXPORTER_OTLP_PROTOCOL, "grpc"),
            (OTEL_EXPORTER_OTLP_LOGS_PROTOCOL, specific),
        ]);
        assert_eq!(
            protocol_from(OTEL_EXPORTER_OTLP_LOGS_PROTOCOL, |name| env
                .get(name)
                .cloned()),
            OtlpProtocol::Grpc
        );
    }
}

#[test]
fn protocol_defaults_to_http_protobuf() {
    assert_eq!(
        protocol_from(OTEL_EXPORTER_OTLP_METRICS_PROTOCOL, |_| None),
        OtlpProtocol::HttpProtobuf
    );
}

#[test]
fn sdk_disabled_accepts_only_true_as_enabled_value() {
    for value in ["true", "TRUE", "True"] {
        assert!(sdk_disabled_from(|_| Some(value.to_owned())));
    }
    for value in ["false", "FALSE", "", "1", "yes"] {
        assert!(!sdk_disabled_from(|_| Some(value.to_owned())));
    }
    assert!(!sdk_disabled_from(|_| None));
}

#[test]
fn unrecognized_protocols_are_named_in_warnings() {
    let (protocol, warnings) = otlp_protocol(
        OTEL_EXPORTER_OTLP_LOGS_PROTOCOL,
        Some("http/json".to_owned()),
        Some("carrier-pigeon".to_owned()),
    );
    assert_eq!(protocol, OtlpProtocol::HttpProtobuf);
    assert_eq!(
        warnings,
        vec![
            "ignoring unrecognized OTEL_EXPORTER_OTLP_LOGS_PROTOCOL value; supported values are grpc and http/protobuf".to_owned(),
            "ignoring unrecognized OTEL_EXPORTER_OTLP_PROTOCOL value; supported values are grpc and http/protobuf".to_owned(),
        ]
    );
    let (protocol, warnings) = otlp_protocol(
        OTEL_EXPORTER_OTLP_LOGS_PROTOCOL,
        Some("Grpc".to_owned()),
        Some("carrier-pigeon".to_owned()),
    );
    assert_eq!(protocol, OtlpProtocol::Grpc);
    assert!(warnings.is_empty());
}

#[test]
fn only_an_invalid_disable_switch_deserves_a_warning() {
    assert_eq!(sdk_disabled(Some("TrUe".to_owned())), (true, None));
    assert_eq!(sdk_disabled(Some("FALSE".to_owned())), (false, None));
    assert_eq!(sdk_disabled(Some(String::new())), (false, None));
    assert_eq!(sdk_disabled(None), (false, None));
    assert_eq!(
        sdk_disabled(Some("1".to_owned())),
        (
            false,
            Some("ignoring invalid OTEL_SDK_DISABLED value; only true and false are valid")
        )
    );
}
