//! The builder of OTLP Traces exporters.
//!
//! A build decides which exporter is asked for; the caller brings it about and hands it back.

use vstd::prelude::*;

use crate::abi::{text_fault, OtelStatus, OtelStringView};
use crate::env_config::{
    ignored_variables, otlp_protocol, protocol_warning, selected_protocol,
    OTEL_EXPORTER_OTLP_TRACES_PROTOCOL,
};
use crate::error::{clear_last_error, fail, fail_abi, ErrorState};
use crate::features::Features;
use crate::grpc_metadata::{
    build_grpc_metadata, first_bad_header, header_fault, header_message, header_refused,
    metadata_entries, metadata_of, metadata_overflowed, GRPC_METADATA_MAX_HEADERS,
};
use crate::handle::{
    checked_mut, checked_ref, destroy, is_valid, refused_handle, HasHandleHeader,
    OtelHandleHeader, OTEL_HANDLE_KIND_OTLP_TRACE_EXPORTER_BUILDER,
};
use crate::otlp_config::{
    add_header, build_failure_message, build_failure_status, compression_of,
    configured_compression, fail_build, handed_compression, header_added, header_refusal,
    headers_distinct, selected_compression, selected_transport, transport_fault, transport_of,
    validate_transport_available, BuildFailure, Compression, OtlpPlan, OtlpSettings, Transport,
};
use crate::otlp_config::{
    compression_fault, protocol_transport, transport_for, validate_compression_available,
};
use crate::time::Duration;
use crate::trace_exporter::{OtelTraceExporter, TraceExporterImpl};

verus! {

/// The accumulated configuration of an exporter.
#[derive(Debug)]
pub struct OtlpExporterConfig {
    pub endpoint: Option<String>,
    pub headers: Vec<(String, String)>,
    pub timeout: Option<Duration>,
    pub transport: Transport,
    pub transport_set: bool,
    pub compression: Compression,
}

impl OtlpExporterConfig {
    /// What the setters keep: header keys are distinct.
    pub open spec fn wf(self) -> bool {
        headers_distinct(self.headers@)
    }
}

/// A builder of OTLP Traces exporters. Confined to one thread.
#[derive(Debug)]
pub struct OtelOtlpTraceExporterBuilder {
    pub header: OtelHandleHeader,
    pub config: OtlpExporterConfig,
}

impl HasHandleHeader for OtelOtlpTraceExporterBuilder {
    open spec fn spec_type_kind() -> u64 {
        OTEL_HANDLE_KIND_OTLP_TRACE_EXPORTER_BUILDER
    }

    open spec fn spec_header(&self) -> OtelHandleHeader {
        self.header
    }

    open spec fn with_header(self, header: OtelHandleHeader) -> Self {
        OtelOtlpTraceExporterBuilder { header, ..self }
    }

    fn type_kind() -> u64 {
        OTEL_HANDLE_KIND_OTLP_TRACE_EXPORTER_BUILDER
    }

    fn header(&self) -> OtelHandleHeader {
        self.header
    }

    fn set_header(&mut self, header: OtelHandleHeader) {
        self.header = header;
    }
}

/// Creates a builder with the default settings.
pub fn otel_otlp_trace_exporter_builder_new(errors: &mut ErrorState) -> (r: OtelOtlpTraceExporterBuilder)
    ensures
        is_valid(r),
        r.config.wf(),
        r.config.endpoint is None,
        r.config.headers@.len() == 0,
        r.config.timeout is None,
        r.config.transport == Transport::HttpProtobuf,
        !r.config.transport_set,
        r.config.compression == Compression::Off,
        final(errors).is_clear(),
{
    clear_last_error(errors);
    OtelOtlpTraceExporterBuilder {
        header: OtelHandleHeader::new(OTEL_HANDLE_KIND_OTLP_TRACE_EXPORTER_BUILDER),
        config: OtlpExporterConfig {
            endpoint: None,
            headers: Vec::new(),
            timeout: None,
            transport: Transport::HttpProtobuf,
            transport_set: false,
            compression: Compression::Off,
        },
    }
}

/// Destroys a builder. Anything but a valid handle is left alone.
pub fn otel_otlp_trace_exporter_builder_destroy(builder: &mut Option<OtelOtlpTraceExporterBuilder>)
    ensures
        *final(builder) == (if *old(builder) matches Some(handle) && is_valid(handle) {
            None
        } else {
            *old(builder)
        }),
{
    destroy(builder);
}

/// The endpoint is this text, and the rest of the configuration is as it was.
pub open spec fn trace_endpoint_set(
    before: OtelOtlpTraceExporterBuilder,
    after: OtelOtlpTraceExporterBuilder,
    text: Seq<char>,
) -> bool {
    &&& after.config.endpoint matches Some(endpoint)
    &&& endpoint@ == text
    &&& after == (OtelOtlpTraceExporterBuilder {
        config: OtlpExporterConfig { endpoint: after.config.endpoint, ..before.config },
        ..before
    })
}

/// Sets the endpoint, which is used as it is. A text that cannot be read leaves the builder as it is.
pub fn otel_otlp_trace_exporter_builder_set_endpoint(
    errors: &mut ErrorState,
    builder: Option<&mut OtelOtlpTraceExporterBuilder>,
    endpoint: OtelStringView,
) -> (r: OtelStatus)
    ensures
        match builder {
            None => refused_handle(None::<OtelOtlpTraceExporterBuilder>, r, *final(errors)),
            Some(b) => if !is_valid(*b) {
                refused_handle(Some(*b), r, *final(errors)) && *final(b) == *b
            } else {
                match text_fault(endpoint.text()) {
                    Some((status, message)) => {
                        &&& r == status
                        &&& final(errors).holds(status, message)
                        &&& *final(b) == *b
                    },
                    None => {
                        &&& r == OtelStatus::Success
                        &&& final(errors).is_clear()
                        &&& trace_endpoint_set(*b, *final(b), endpoint.text()->Ok_0)
                    },
                }
            },
        },
        builder matches Some(b) ==> b.config.wf() ==> final(b).config.wf(),
{
    clear_last_error(errors);
    let builder = match checked_mut(errors, builder) {
        Some(builder) => builder,
        None => return OtelStatus::InvalidArgument,
    };
    match endpoint.to_string_strict() {
        Ok(endpoint) => {
            builder.config.endpoint = Some(endpoint);
            OtelStatus::Success
        },
        Err(e) => fail_abi(errors, e),
    }
}

/// One header was added, and the rest of the configuration is as it was.
pub open spec fn trace_header_set(
    before: OtelOtlpTraceExporterBuilder,
    after: OtelOtlpTraceExporterBuilder,
    key: Seq<char>,
    value: Seq<char>,
) -> bool {
    &&& header_added(before.config.headers@, after.config.headers@, key, value)
    &&& after == (OtelOtlpTraceExporterBuilder {
        config: OtlpExporterConfig { headers: after.config.headers, ..before.config },
        ..before
    })
}

/// Adds a header that is sent with every request. A key that is equal to an earlier one up to
/// ASCII case is refused, so that no value replaces another.
pub fn otel_otlp_trace_exporter_builder_add_header(
    errors: &mut ErrorState,
    builder: Option<&mut OtelOtlpTraceExporterBuilder>,
    key: OtelStringView,
    value: OtelStringView,
) -> (r: OtelStatus)
    ensures
        match builder {
            None => refused_handle(None::<OtelOtlpTraceExporterBuilder>, r, *final(errors)),
            Some(b) => if !is_valid(*b) {
                refused_handle(Some(*b), r, *final(errors)) && *final(b) == *b
            } else {
                match header_refusal(
                    b.config.headers@,
                    key.text(),
                    value.text(),
                    "OTLP header key must not be empty"@,
                    "OTLP header key already exists: "@,
                ) {
                    Some((status, message)) => {
                        &&& r == status
                        &&& final(errors).holds(status, message)
                        &&& final(b).config.headers@ == b.config.headers@
                        &&& *final(b) == (OtelOtlpTraceExporterBuilder {
                            config: OtlpExporterConfig {
                                headers: final(b).config.headers,
                                ..b.config
                            },
                            ..*b
                        })
                    },
                    None => {
                        &&& r == OtelStatus::Success
                        &&& final(errors).is_clear()
                        &&& trace_header_set(*b, *final(b), key.text()->Ok_0, value.text()->Ok_0)
                    },
                }
            },
        },
        builder matches Some(b) ==> b.config.wf() ==> final(b).config.wf(),
{
    clear_last_error(errors);
    let builder = match checked_mut(errors, builder) {
        Some(builder) => builder,
        None => return OtelStatus::InvalidArgument,
    };
    add_header(
        errors,
        &mut builder.config.headers,
        key,
        value,
        "OTLP header key must not be empty",
        "OTLP header key already exists: ",
    )
}

/// Sets the timeout of a request in milliseconds; zero leaves it to the default.
pub fn otel_otlp_trace_exporter_builder_set_timeout_millis(
    errors: &mut ErrorState,
    builder: Option<&mut OtelOtlpTraceExporterBuilder>,
    timeout_millis: u64,
) -> (r: OtelStatus)
    ensures
        match builder {
            None => refused_handle(None::<OtelOtlpTraceExporterBuilder>, r, *final(errors)),
            Some(b) => if is_valid(*b) {
                &&& r == OtelStatus::Success
                &&& final(errors).is_clear()
                &&& *final(b) == (OtelOtlpTraceExporterBuilder {
                    config: OtlpExporterConfig {
                        timeout: if timeout_millis == 0 {
                            None
                        } else {
                            Some(Duration::of_millis(timeout_millis))
                        },
                        ..b.config
                    },
                    ..*b
                })
            } else {
                refused_handle(Some(*b), r, *final(errors)) && *final(b) == *b
            },
        },
{
    clear_last_error(errors);
    match checked_mut(errors, builder) {
        Some(builder) => {
            builder.config.timeout = if timeout_millis == 0 {
                None
            } else {
                Some(Duration::from_millis(timeout_millis))
            };
            OtelStatus::Success
        },
        None => OtelStatus::InvalidArgument,
    }
}

/// Selects the transport: zero is HTTP/protobuf, one is gRPC. Any other code leaves the builder
/// as it is.
pub fn otel_otlp_trace_exporter_builder_set_transport(
    errors: &mut ErrorState,
    builder: Option<&mut OtelOtlpTraceExporterBuilder>,
    transport: u32,
) -> (r: OtelStatus)
    ensures
        match builder {
            None => refused_handle(None::<OtelOtlpTraceExporterBuilder>, r, *final(errors)),
            Some(b) => if !is_valid(*b) {
                refused_handle(Some(*b), r, *final(errors)) && *final(b) == *b
            } else {
                match (if transport_of(transport) is None {
                    Some(
                        (
                            OtelStatus::InvalidArgument,
                            "unknown OTLP trace transport value"@,
                        ),
                    )
                } else {
                    None
                }) {
                    Some((status, message)) => {
                        &&& r == status
                        &&& final(errors).holds(status, message)
                        &&& *final(b) == *b
                    },
                    None => {
                        &&& r == OtelStatus::Success
                        &&& final(errors).is_clear()
                        &&& *final(b) == (OtelOtlpTraceExporterBuilder {
                            config: OtlpExporterConfig {
                                transport: transport_of(transport)->0,
                                transport_set: true,
                                ..b.config
                            },
                            ..*b
                        })
                    },
                }
            },
        },
        builder matches Some(b) ==> b.config.wf() ==> final(b).config.wf(),
{
    clear_last_error(errors);
    let builder = match checked_mut(errors, builder) {
        Some(builder) => builder,
        None => return OtelStatus::InvalidArgument,
    };
    match selected_transport(transport) {
        Some(transport) => {
            builder.config.transport = transport;
            builder.config.transport_set = true;
            OtelStatus::Success
        },
        None => fail(
            errors,
            OtelStatus::InvalidArgument,
            "unknown OTLP trace transport value",
        ),
    }
}

/// Selects the compression: zero is none, one is gzip, two is zstd. Any other code leaves the
/// builder as it is.
pub fn otel_otlp_trace_exporter_builder_set_compression(
    errors: &mut ErrorState,
    builder: Option<&mut OtelOtlpTraceExporterBuilder>,
    compression: u32,
) -> (r: OtelStatus)
    ensures
        match builder {
            None => refused_handle(None::<OtelOtlpTraceExporterBuilder>, r, *final(errors)),
            Some(b) => if !is_valid(*b) {
                refused_handle(Some(*b), r, *final(errors)) && *final(b) == *b
            } else {
                match (if compression_of(compression) is None {
                    Some(
                        (
                            OtelStatus::InvalidArgument,
                            "unknown OTLP trace compression value"@,
                        ),
                    )
                } else {
                    None
                }) {
                    Some((status, message)) => {
                        &&& r == status
                        &&& final(errors).holds(status, message)
                        &&& *final(b) == *b
                    },
                    None => {
                        &&& r == OtelStatus::Success
                        &&& final(errors).is_clear()
                        &&& *final(b) == (OtelOtlpTraceExporterBuilder {
                            config: OtlpExporterConfig {
                                compression: compression_of(compression)->0,
                                ..b.config
                            },
                            ..*b
                        })
                    },
                }
            },
        },
        builder matches Some(b) ==> b.config.wf() ==> final(b).config.wf(),
{
    clear_last_error(errors);
    let builder = match checked_mut(errors, builder) {
        Some(builder) => builder,
        None => return OtelStatus::InvalidArgument,
    };
    match selected_compression(compression) {
        Some(compression) => {
            builder.config.compression = compression;
            OtelStatus::Success
        },
        None => fail(
            errors,
            OtelStatus::InvalidArgument,
            "unknown OTLP trace compression value",
        ),
    }
}

/// The settings that a configuration hands to its transport.
pub open spec fn trace_settings(config: OtlpExporterConfig, settings: OtlpSettings) -> bool {
    &&& match config.endpoint {
        Some(endpoint) => settings.endpoint matches Some(e) && *e == endpoint,
        None => settings.endpoint is None,
    }
    &&& settings.timeout == config.timeout
    &&& settings.compression == handed_compression(config.compression)
    &&& settings.temporality == None::<crate::metric_data::Temporality>
}

/// The plan asks for the exporter of this configuration over this transport.
pub open spec fn trace_plan(config: OtlpExporterConfig, transport: Transport, plan: OtlpPlan) -> bool {
    match transport {
        Transport::HttpProtobuf => {
            &&& plan matches OtlpPlan::Http { settings, headers }
            &&& trace_settings(config, settings)
            &&& *headers == config.headers
        },
        Transport::Grpc => {
            &&& plan matches OtlpPlan::Grpc { settings, metadata }
            &&& trace_settings(config, settings)
            &&& metadata_entries(metadata) == metadata_of(
                config.headers@,
                config.headers@.len() as int,
            )
        },
    }
}

/// Why no exporter of this configuration can be asked for over this transport, if none can: the
/// status and the diagnostic.
pub open spec fn trace_build_fault(
    features: Features,
    config: OtlpExporterConfig,
    transport: Transport,
) -> Option<(OtelStatus, Seq<char>)> {
    if transport_fault("Traces"@, features, transport) is Some {
        Some((OtelStatus::InvalidConfig, transport_fault("Traces"@, features, transport)->0))
    } else if compression_fault(features, transport, config.compression) is Some {
        Some(
            (
                OtelStatus::InvalidConfig,
                compression_fault(features, transport, config.compression)->0,
            ),
        )
    } else if transport == Transport::HttpProtobuf {
        None
    } else {
        match first_bad_header(config.headers@, 0) {
            Some(i) => Some(
                (
                    OtelStatus::InvalidArgument,
                    header_message(
                        header_fault(config.headers@[i])->0,
                        config.headers@[i].0@,
                    ),
                ),
            ),
            None => None,
        }
    }
}

/// The outcome of asking for the exporter of this configuration over this transport: the fault, or
/// the plan with the error slot as it was kept before.
pub open spec fn trace_planned(
    features: Features,
    config: OtlpExporterConfig,
    transport: Transport,
    outcome: Result<OtlpPlan, OtelStatus>,
    kept: (OtelStatus, Seq<char>),
    errors: ErrorState,
) -> bool {
    match trace_build_fault(features, config, transport) {
        Some((status, message)) => {
            &&& outcome matches Err(s)
            &&& s == status
            &&& errors.holds(status, message)
        },
        None => {
            &&& outcome matches Ok(plan)
            &&& trace_plan(config, transport, plan)
            &&& errors.holds(kept.0, kept.1)
        },
    }
}

/// The headers of this configuration do not fit in the metadata of a gRPC exporter. It takes more
/// of them than [`GRPC_METADATA_MAX_HEADERS`].
pub open spec fn trace_overflowed(
    features: Features,
    config: OtlpExporterConfig,
    transport: Transport,
    outcome: Result<OtlpPlan, OtelStatus>,
    kept: (OtelStatus, Seq<char>),
    errors: ErrorState,
) -> bool {
    &&& transport == Transport::Grpc
    &&& config.headers@.len() > GRPC_METADATA_MAX_HEADERS
    &&& transport_fault("Traces"@, features, transport) is None
    &&& compression_fault(features, transport, config.compression) is None
    &&& outcome matches Err(status)
    &&& metadata_overflowed(config.headers@, status, kept.0, errors)
}

/// The configuration is planned, unless its headers do not fit in the metadata.
pub open spec fn trace_decided(
    features: Features,
    config: OtlpExporterConfig,
    transport: Transport,
    outcome: Result<OtlpPlan, OtelStatus>,
    kept: (OtelStatus, Seq<char>),
    errors: ErrorState,
) -> bool {
    ||| trace_planned(features, config, transport, outcome, kept, errors)
    ||| trace_overflowed(features, config, transport, outcome, kept, errors)
}

fn settings_of(config: &OtlpExporterConfig) -> (r: OtlpSettings<'_>)
    ensures
        trace_settings(*config, r),
{
    OtlpSettings {
        endpoint: config.endpoint.as_ref(),
        timeout: config.timeout,
        compression: configured_compression(config.compression),
        temporality: None,
    }
}

fn build_http_exporter(config: &OtlpExporterConfig) -> (r: OtlpPlan<'_>)
    ensures
        trace_plan(*config, Transport::HttpProtobuf, r),
{
    OtlpPlan::Http { settings: settings_of(config), headers: &config.headers }
}

fn build_grpc_exporter<'a>(errors: &mut ErrorState, config: &'a OtlpExporterConfig) -> (r: Result<
    OtlpPlan<'a>,
    OtelStatus,
>)
    ensures
        match r {
            Ok(plan) => {
                &&& first_bad_header(config.headers@, 0) is None
                &&& trace_plan(*config, Transport::Grpc, plan)
                &&& *final(errors) == *old(errors)
            },
            Err(status) => {
                ||| metadata_overflowed(
                    config.headers@,
                    status,
                    old(errors).last_status,
                    *final(errors),
                )
                ||| first_bad_header(config.headers@, 0) matches Some(i) && header_refused(
                    config.headers@[i],
                    status,
                    *final(errors),
                )
            },
        },
        config.headers@.len() <= GRPC_METADATA_MAX_HEADERS ==> match first_bad_header(
            config.headers@,
            0,
        ) {
            None => r is Ok,
            Some(i) => r matches Err(status) && header_refused(
                config.headers@[i],
                status,
                *final(errors),
            ),
        },
{
    let metadata = match build_grpc_metadata(errors, &config.headers) {
        Ok(metadata) => metadata,
        Err(status) => return Err(status),
    };
    Ok(OtlpPlan::Grpc { settings: settings_of(config), metadata })
}

/// The transport of a configuration: the selected one, else the one that the two variables name.
pub open spec fn chosen_transport(
    config: OtlpExporterConfig,
    specific: Option<String>,
    generic: Option<String>,
) -> Transport {
    if config.transport_set {
        config.transport
    } else {
        transport_for(selected_protocol(specific, generic))
    }
}

/// The warnings that are due on the values of the two variables, which count only where no
/// transport was selected.
pub open spec fn due_warnings(
    config: OtlpExporterConfig,
    specific: Option<String>,
    generic: Option<String>,
    warnings: Seq<String>,
) -> bool {
    let due = if config.transport_set {
        Seq::<Seq<char>>::empty()
    } else {
        ignored_variables(OTEL_EXPORTER_OTLP_TRACES_PROTOCOL@, specific, generic)
    };
    &&& warnings.len() == due.len()
    &&& forall|i: int|
        0 <= i < warnings.len() ==> (#[trigger] warnings[i])@ == protocol_warning(due[i])
}

/// Decides which exporter a configuration asks for, given the values of the two protocol
/// variables, and lists the warnings that are due on them.
pub fn build_exporter<'a>(
    errors: &mut ErrorState,
    features: Features,
    config: &'a OtlpExporterConfig,
    specific: Option<String>,
    generic: Option<String>,
) -> (r: (Result<OtlpPlan<'a>, OtelStatus>, Vec<String>))
    ensures
        due_warnings(*config, specific, generic, r.1@),
        trace_decided(
            features,
            *config,
            chosen_transport(*config, specific, generic),
            r.0,
            (old(errors).last_status, old(errors).message@),
            *final(errors),
        ),
        r.0 is Ok ==> *final(errors) == *old(errors),
{
    let mut warnings: Vec<String> = Vec::new();
    let transport = if config.transport_set {
        config.transport
    } else {
        let (protocol, due) = otlp_protocol(OTEL_EXPORTER_OTLP_TRACES_PROTOCOL, specific, generic);
        warnings = due;
        protocol_transport(protocol)
    };
    match validate_transport_available(errors, "Traces", features, transport) {
        Ok(_) => {},
        Err(status) => return (Err(status), warnings),
    }
    match validate_compression_available(errors, features, transport, config.compression) {
        Ok(_) => {},
        Err(status) => return (Err(status), warnings),
    }
    match transport {
        Transport::HttpProtobuf => (Ok(build_http_exporter(config)), warnings),
        Transport::Grpc => (build_grpc_exporter(errors, config), warnings),
    }
}

/// Starts a build: decides which exporter the builder asks for, and empties `out`. The builder
/// stays with the caller as it is.
pub fn otel_otlp_trace_exporter_builder_build<'a, E>(
    errors: &mut ErrorState,
    features: Features,
    builder: Option<&'a OtelOtlpTraceExporterBuilder>,
    specific: Option<String>,
    generic: Option<String>,
    out: Option<&mut Option<OtelTraceExporter<E>>>,
) -> (r: (Result<OtlpPlan<'a>, OtelStatus>, Vec<String>))
    ensures
        match out {
            None => {
                &&& r.0 matches Err(status)
                &&& status == OtelStatus::InvalidArgument
                &&& r.1@.len() == 0
                &&& final(errors).holds(
                    OtelStatus::InvalidArgument,
                    "out pointer must not be NULL"@,
                )
            },
            Some(slot) => {
                &&& *final(slot) is None
                &&& match builder {
                    None => {
                        &&& r.0 matches Err(status)
                        &&& r.1@.len() == 0
                        &&& refused_handle(
                            None::<OtelOtlpTraceExporterBuilder>,
                            status,
                            *final(errors),
                        )
                    },
                    Some(b) => if !is_valid(*b) {
                        &&& r.0 matches Err(status)
                        &&& r.1@.len() == 0
                        &&& refused_handle(Some(*b), status, *final(errors))
                    } else {
                        &&& due_warnings(b.config, specific, generic, r.1@)
                        &&& trace_decided(
                            features,
                            b.config,
                            chosen_transport(b.config, specific, generic),
                            r.0,
                            (OtelStatus::Success, Seq::empty()),
                            *final(errors),
                        )
                    },
                }
            },
        },
{
    clear_last_error(errors);
    let slot = match out {
        None => return (Err(
            fail(errors, OtelStatus::InvalidArgument, "out pointer must not be NULL"),
        ), Vec::new()),
        Some(slot) => slot,
    };
    *slot = None;
    let builder = match checked_ref(errors, builder) {
        Some(builder) => builder,
        None => return (Err(OtelStatus::InvalidArgument), Vec::new()),
    };
    build_exporter(errors, features, &builder.config, specific, generic)
}

/// Ends a build: the exporter that came about gets a handle, and a failure is recorded.
pub fn trace_exporter_built<E>(
    errors: &mut ErrorState,
    built: Result<E, BuildFailure>,
    out: &mut Option<OtelTraceExporter<E>>,
) -> (r: OtelStatus)
    ensures
        match built {
            Ok(exporter) => {
                &&& r == OtelStatus::Success
                &&& *final(errors) == *old(errors)
                &&& *final(out) matches Some(handle)
                &&& is_valid(handle)
                &&& handle.exporter == TraceExporterImpl::Otlp(exporter)
            },
            Err(failure) => {
                &&& r == build_failure_status(failure)
                &&& final(errors).holds(r, build_failure_message("trace"@, failure))
                &&& *final(out) == *old(out)
            },
        },
{
    match built {
        Ok(exporter) => {
            *out = Some(OtelTraceExporter::new(TraceExporterImpl::Otlp(exporter)));
            OtelStatus::Success
        },
        Err(failure) => fail_build(errors, "trace", &failure),
    }
}

/// Without a transport every build is refused as misconfigured, whatever the builder holds.
pub proof fn trace_builds_need_a_transport(
    features: Features,
    config: OtlpExporterConfig,
    transport: Transport,
)
    requires
        !features.spec_has_transport(),
    ensures
        trace_build_fault(features, config, transport) matches Some(fault) && fault.0
            == OtelStatus::InvalidConfig,
{
}

} // verus!
