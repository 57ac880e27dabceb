//! The builder of OTLP Metrics exporters.
//!
//! A build decides which exporter is asked for; the caller brings it about and hands it back.

use vstd::prelude::*;

use crate::abi::{text_fault, OtelStatus, OtelStringView};
use crate::error::{clear_last_error, fail, fail_abi, ErrorState};
use crate::features::Features;
use crate::grpc_metadata::{
    build_grpc_metadata, first_bad_header, header_fault, header_message, header_refused,
    metadata_entries, metadata_of, metadata_overflowed, GRPC_METADATA_MAX_HEADERS,
};
use crate::handle::{
    checked_mut, checked_ref, destroy, is_valid, refused_handle, HasHandleHeader,
    OtelHandleHeader, OTEL_HANDLE_KIND_OTLP_METRIC_EXPORTER_BUILDER,
};
use crate::metric_data::Temporality;
use crate::metric_exporter::{MetricExporterImpl, OtelMetricExporter};
use crate::otlp_config::{
    add_header, build_failure_message, build_failure_status, compression_of,
    configured_compression, fail_build, handed_compression, header_added, header_refusal,
    headers_distinct, selected_compression, selected_transport, transport_fault, transport_of,
    validate_transport_available, BuildFailure, Compression, OtlpPlan, OtlpSettings, Transport,
};
use crate::time::Duration;

verus! {

/// The accumulated configuration of an exporter.
#[derive(Debug)]
pub struct Config {
    pub endpoint: Option<String>,
    pub headers: Vec<(String, String)>,
    pub timeout: Option<Duration>,
    /// A code: the environment's choice, cumulative, delta or low-memory.
    pub temporality: u32,
    pub transport: Transport,
    pub compression: Compression,
}

impl Config {
    /// What the setters keep: header keys are distinct, and the temporality is a known code.
    pub open spec fn wf(self) -> bool {
        headers_distinct(self.headers@) && self.temporality <= 3
    }
}

/// A builder of OTLP Metrics exporters. Confined to one thread.
#[derive(Debug)]
pub struct OtelOtlpMetricExporterBuilder {
    pub header: OtelHandleHeader,
    pub config: Config,
}

impl HasHandleHeader for OtelOtlpMetricExporterBuilder {
    open spec fn spec_type_kind() -> u64 {
        OTEL_HANDLE_KIND_OTLP_METRIC_EXPORTER_BUILDER
    }

    open spec fn spec_header(&self) -> OtelHandleHeader {
        self.header
    }

    open spec fn with_header(self, header: OtelHandleHeader) -> Self {
        OtelOtlpMetricExporterBuilder { header, ..self }
    }

    fn type_kind() -> u64 {
        OTEL_HANDLE_KIND_OTLP_METRIC_EXPORTER_BUILDER
    }

    fn header(&self) -> OtelHandleHeader {
        self.header
    }

    fn set_header(&mut self, header: OtelHandleHeader) {
        self.header = header;
    }
}

/// Creates a builder with the default settings.
pub fn otel_otlp_metric_exporter_builder_new(errors: &mut ErrorState) -> (r: OtelOtlpMetricExporterBuilder)
    ensures
        is_valid(r),
        r.config.wf(),
        r.config.endpoint is None,
        r.config.headers@.len() == 0,
        r.config.timeout is None,
        r.config.temporality == 0,
        r.config.transport == Transport::HttpProtobuf,
        r.config.compression == Compression::Off,
        final(errors).is_clear(),
{
    clear_last_error(errors);
    OtelOtlpMetricExporterBuilder {
        header: OtelHandleHeader::new(OTEL_HANDLE_KIND_OTLP_METRIC_EXPORTER_BUILDER),
        config: Config {
            endpoint: None,
            headers: Vec::new(),
            timeout: None,
            temporality: 0,
            transport: Transport::HttpProtobuf,
            compression: Compression::Off,
        },
    }
}

/// Destroys a builder. Anything but a valid handle is left alone.
pub fn otel_otlp_metric_exporter_builder_destroy(builder: &mut Option<OtelOtlpMetricExporterBuilder>)
    ensures
        *final(builder) == (if *old(builder) matches Some(handle) && is_valid(handle) {
            None
        } else {
            *old(builder)
        }),
{
    destroy(builder);
}

/// The endpoint is this text, and the rest of the configuration is as it was.
pub open spec fn metric_endpoint_set(
    before: OtelOtlpMetricExporterBuilder,
    after: OtelOtlpMetricExporterBuilder,
    text: Seq<char>,
) -> bool {
    &&& after.config.endpoint matches Some(endpoint)
    &&& endpoint@ == text
    &&& after == (OtelOtlpMetricExporterBuilder {
        config: Config { endpoint: after.config.endpoint, ..before.config },
        ..before
    })
}

/// Sets the endpoint, which is used as it is. A text that cannot be read leaves the builder as it is.
pub fn otel_otlp_metric_exporter_builder_set_endpoint(
    errors: &mut ErrorState,
    builder: Option<&mut OtelOtlpMetricExporterBuilder>,
    endpoint: OtelStringView,
) -> (r: OtelStatus)
    ensures
        match builder {
            None => refused_handle(None::<OtelOtlpMetricExporterBuilder>, r, *final(errors)),
            Some(b) => if !is_valid(*b) {
                refused_handle(Some(*b), r, *final(errors)) && *final(b) == *b
            } else {
                match text_fault(endpoint.text()) {
                    Some((status, message)) => {
                        &&& r == status
                        &&& final(errors).holds(status, message)
                        &&& *final(b) == *b
                    },
                    None => {
                        &&& r == OtelStatus::Success
                        &&& final(errors).is_clear()
                        &&& metric_endpoint_set(*b, *final(b), endpoint.text()->Ok_0)
                    },
                }
            },
        },
        builder matches Some(b) ==> b.config.wf() ==> final(b).config.wf(),
{
    clear_last_error(errors);
    let builder = match checked_mut(errors, builder) {
        Some(builder) => builder,
        None => return OtelStatus::InvalidArgument,
    };
    match endpoint.to_string_strict() {
        Ok(endpoint) => {
            builder.config.endpoint = Some(endpoint);
            OtelStatus::Success
        },
        Err(e) => fail_abi(errors, e),
    }
}

/// One header was added, and the rest of the configuration is as it was.
pub open spec fn metric_header_set(
    before: OtelOtlpMetricExporterBuilder,
    after: OtelOtlpMetricExporterBuilder,
    key: Seq<char>,
    value: Seq<char>,
) -> bool {
    &&& header_added(before.config.headers@, after.config.headers@, key, value)
    &&& after == (OtelOtlpMetricExporterBuilder {
        config: Config { headers: after.config.headers, ..before.config },
        ..before
    })
}

/// Adds a header that is sent with every request. A key that is equal to an earlier one up to
/// ASCII case is refused, so that no value replaces another.
pub fn otel_otlp_metric_exporter_builder_add_header(
    errors: &mut ErrorState,
    builder: Option<&mut OtelOtlpMetricExporterBuilder>,
    key: OtelStringView,
    value: OtelStringView,
) -> (r: OtelStatus)
    ensures
        match builder {
            None => refused_handle(None::<OtelOtlpMetricExporterBuilder>, r, *final(errors)),
            Some(b) => if !is_valid(*b) {
                refused_handle(Some(*b), r, *final(errors)) && *final(b) == *b
            } else {
                match header_refusal(
                    b.config.headers@,
                    key.text(),
                    value.text(),
                    "OTLP metric header key must not be empty"@,
                    "OTLP metric header key already exists: "@,
                ) {
                    Some((status, message)) => {
                        &&& r == status
                        &&& final(errors).holds(status, message)
                        &&& final(b).config.headers@ == b.config.headers@
                        &&& *final(b) == (OtelOtlpMetricExporterBuilder {
                            config: Config {
                                headers: final(b).config.headers,
                                ..b.config
                            },
                            ..*b
                        })
                    },
                    None => {
                        &&& r == OtelStatus::Success
                        &&& final(errors).is_clear()
                        &&& metric_header_set(*b, *final(b), key.text()->Ok_0, value.text()->Ok_0)
                    },
                }
            },
        },
        builder matches Some(b) ==> b.config.wf() ==> final(b).config.wf(),
{
    clear_last_error(errors);
    let builder = match checked_mut(errors, builder) {
        Some(builder) => builder,
        None => return OtelStatus::InvalidArgument,
    };
    add_header(
        errors,
        &mut builder.config.headers,
        key,
        value,
        "OTLP metric header key must not be empty",
        "OTLP metric header key already exists: ",
    )
}

/// Sets the timeout of a request in milliseconds; zero leaves it to the default.
pub fn otel_otlp_metric_exporter_builder_set_timeout_millis(
    errors: &mut ErrorState,
    builder: Option<&mut OtelOtlpMetricExporterBuilder>,
    timeout_millis: u64,
) -> (r: OtelStatus)
    ensures
        match builder {
            None => refused_handle(None::<OtelOtlpMetricExporterBuilder>, r, *final(errors)),
            Some(b) => if is_valid(*b) {
                &&& r == OtelStatus::Success
                &&& final(errors).is_clear()
                &&& *final(b) == (OtelOtlpMetricExporterBuilder {
                    config: Config {
                        timeout: if timeout_millis == 0 {
                            None
                        } else {
                            Some(Duration::of_millis(timeout_millis))
                        },
                        ..b.config
                    },
                    ..*b
                })
            } else {
                refused_handle(Some(*b), r, *final(errors)) && *final(b) == *b
            },
        },
{
    clear_last_error(errors);
    match checked_mut(errors, builder) {
        Some(builder) => {
            builder.config.timeout = if timeout_millis == 0 {
                None
            } else {
                Some(Duration::from_millis(timeout_millis))
            };
            OtelStatus::Success
        },
        None => OtelStatus::InvalidArgument,
    }
}

/// Selects the transport: zero is HTTP/protobuf, one is gRPC. Any other code leaves the builder
/// as it is.
pub fn otel_otlp_metric_exporter_builder_set_transport(
    errors: &mut ErrorState,
    builder: Option<&mut OtelOtlpMetricExporterBuilder>,
    transport: u32,
) -> (r: OtelStatus)
    ensures
        match builder {
            None => refused_handle(None::<OtelOtlpMetricExporterBuilder>, r, *final(errors)),
            Some(b) => if !is_valid(*b) {
                refused_handle(Some(*b), r, *final(errors)) && *final(b) == *b
            } else {
                match (if transport_of(transport) is None {
                    Some(
                        (
                            OtelStatus::InvalidArgument,
                            "unknown OTLP metric transport value"@,
                        ),
                    )
                } else {
                    None
                }) {
                    Some((status, message)) => {
                        &&& r == status
                        &&& final(errors).holds(status, message)
                        &&& *final(b) == *b
                    },
                    None => {
                        &&& r == OtelStatus::Success
                        &&& final(errors).is_clear()
                        &&& *final(b) == (OtelOtlpMetricExporterBuilder {
                            config: Config {
                                transport: transport_of(transport)->0,
                                ..b.config
                            },
                            ..*b
                        })
                    },
                }
            },
        },
        builder matches Some(b) ==> b.config.wf() ==> final(b).config.wf(),
{
    clear_last_error(errors);
    let builder = match checked_mut(errors, builder) {
        Some(builder) => builder,
        None => return OtelStatus::InvalidArgument,
    };
    match selected_transport(transport) {
        Some(transport) => {
            builder.config.transport = transport;
            OtelStatus::Success
        },
        None => fail(
            errors,
            OtelStatus::InvalidArgument,
            "unknown OTLP metric transport value",
        ),
    }
}

/// Selects the compression: zero is none, one is gzip, two is zstd. Any other code leaves the
/// builder as it is.
pub fn otel_otlp_metric_exporter_builder_set_compression(
    errors: &mut ErrorState,
    builder: Option<&mut OtelOtlpMetricExporterBuilder>,
    compression: u32,
) -> (r: OtelStatus)
    ensures
        match builder {
            None => refused_handle(None::<OtelOtlpMetricExporterBuilder>, r, *final(errors)),
            Some(b) => if !is_valid(*b) {
                refused_handle(Some(*b), r, *final(errors)) && *final(b) == *b
            } else {
                match (if compression_of(compression) is None {
                    Some(
                        (
                            OtelStatus::InvalidArgument,
                            "unknown OTLP metric compression value"@,
                        ),
                    )
                } else {
                    None
                }) {
                    Some((status, message)) => {
                        &&& r == status
                        &&& final(errors).holds(status, message)
                        &&& *final(b) == *b
                    },
                    None => {
                        &&& r == OtelStatus::Success
                        &&& final(errors).is_clear()
                        &&& *final(b) == (OtelOtlpMetricExporterBuilder {
                            config: Config {
                                compression: compression_of(compression)->0,
                                ..b.config
                            },
                            ..*b
                        })
                    },
                }
            },
        },
        builder matches Some(b) ==> b.config.wf() ==> final(b).config.wf(),
{
    clear_last_error(errors);
    let builder = match checked_mut(errors, builder) {
        Some(builder) => builder,
        None => return OtelStatus::InvalidArgument,
    };
    match selected_compression(compression) {
        Some(compression) => {
            builder.config.compression = compression;
            OtelStatus::Success
        },
        None => fail(
            errors,
            OtelStatus::InvalidArgument,
            "unknown OTLP metric compression value",
        ),
    }
}

/// Selects the temporality: zero is the environment's choice, one is cumulative, two is delta, three is
/// low-memory. Any other code leaves the builder as it is.
pub fn otel_otlp_metric_exporter_builder_set_temporality(
    errors: &mut ErrorState,
    builder: Option<&mut OtelOtlpMetricExporterBuilder>,
    temporality: u32,
) -> (r: OtelStatus)
    ensures
        match builder {
            None => refused_handle(None::<OtelOtlpMetricExporterBuilder>, r, *final(errors)),
            Some(b) => if !is_valid(*b) {
                refused_handle(Some(*b), r, *final(errors)) && *final(b) == *b
            } else {
                match (if temporality > 3 {
                    Some(
                        (
                            OtelStatus::InvalidArgument,
                            "unknown metric temporality value"@,
                        ),
                    )
                } else {
                    None
                }) {
                    Some((status, message)) => {
                        &&& r == status
                        &&& final(errors).holds(status, message)
                        &&& *final(b) == *b
                    },
                    None => {
                        &&& r == OtelStatus::Success
                        &&& final(errors).is_clear()
                        &&& *final(b) == (OtelOtlpMetricExporterBuilder {
                            config: Config { temporality, ..b.config },
                            ..*b
                        })
                    },
                }
            },
        },
        builder matches Some(b) ==> b.config.wf() ==> final(b).config.wf(),
{
    clear_last_error(errors);
    let builder = match checked_mut(errors, builder) {
        Some(builder) => builder,
        None => return OtelStatus::InvalidArgument,
    };
    if temporality > 3 {
        return fail(errors, OtelStatus::InvalidArgument, "unknown metric temporality value");
    }
    builder.config.temporality = temporality;
    OtelStatus::Success
}

/// The temporality that a preference asks for; zero asks for none.
pub open spec fn preferred_temporality(preference: u32) -> Option<Temporality> {
    if preference == 1 {
        Some(Temporality::Cumulative)
    } else if preference == 2 {
        Some(Temporality::Delta)
    } else if preference == 3 {
        Some(Temporality::LowMemory)
    } else {
        None
    }
}

/// The temporality that a preference asks for.
pub fn configured_temporality(preference: u32) -> (r: Option<Temporality>)
    requires
        preference <= 3,
    ensures
        r == preferred_temporality(preference),
{
    match preference {
        1 => Some(Temporality::Cumulative),
        2 => Some(Temporality::Delta),
        3 => Some(Temporality::LowMemory),
        _ => None,
    }
}

/// The settings that a configuration hands to its transport.
pub open spec fn metric_settings(config: Config, settings: OtlpSettings) -> bool {
    &&& match config.endpoint {
        Some(endpoint) => settings.endpoint matches Some(e) && *e == endpoint,
        None => settings.endpoint is None,
    }
    &&& settings.timeout == config.timeout
    &&& settings.compression == handed_compression(config.compression)
    &&& settings.temporality == preferred_temporality(config.temporality)
}

/// The plan asks for the exporter of this configuration over this transport.
pub open spec fn metric_plan(config: Config, transport: Transport, plan: OtlpPlan) -> bool {
    match transport {
        Transport::HttpProtobuf => {
            &&& plan matches OtlpPlan::Http { settings, headers }
            &&& metric_settings(config, settings)
            &&& *headers == config.headers
        },
        Transport::Grpc => {
            &&& plan matches OtlpPlan::Grpc { settings, metadata }
            &&& metric_settings(config, settings)
            &&& metadata_entries(metadata) == metadata_of(
                config.headers@,
                config.headers@.len() as int,
            )
        },
    }
}

/// Why no exporter of this configuration can be asked for over this transport, if none can: the
/// status and the diagnostic.
pub open spec fn metric_build_fault(
    features: Features,
    config: Config,
    transport: Transport,
) -> Option<(OtelStatus, Seq<char>)> {
    if transport_fault("Metrics"@, features, transport) is Some {
        Some((OtelStatus::InvalidConfig, transport_fault("Metrics"@, features, transport)->0))
    } else if transport == Transport::HttpProtobuf {
        None
    } else {
        match first_bad_header(config.headers@, 0) {
            Some(i) => Some(
                (
                    OtelStatus::InvalidArgument,
                    header_message(
                        header_fault(config.headers@[i])->0,
                        config.headers@[i].0@,
                    ),
                ),
            ),
            None => None,
        }
    }
}

/// The outcome of asking for the exporter of this configuration over this transport: the fault, or
/// the plan with the error slot as it was kept before.
pub open spec fn metric_planned(
    features: Features,
    config: Config,
    transport: Transport,
    outcome: Result<OtlpPlan, OtelStatus>,
    kept: (OtelStatus, Seq<char>),
    errors: ErrorState,
) -> bool {
    match metric_build_fault(features, config, transport) {
        Some((status, message)) => {
            &&& outcome matches Err(s)
            &&& s == status
            &&& errors.holds(status, message)
        },
        None => {
            &&& outcome matches Ok(plan)
            &&& metric_plan(config, transport, plan)
            &&& errors.holds(kept.0, kept.1)
        },
    }
}

/// The headers of this configuration do not fit in the metadata of a gRPC exporter. It takes more
/// of them than [`GRPC_METADATA_MAX_HEADERS`].
pub open spec fn metric_overflowed(
    features: Features,
    config: Config,
    transport: Transport,
    outcome: Result<OtlpPlan, OtelStatus>,
    kept: (OtelStatus, Seq<char>),
    errors: ErrorState,
) -> bool {
    &&& transport == Transport::Grpc
    &&& config.headers@.len() > GRPC_METADATA_MAX_HEADERS
    &&& transport_fault("Metrics"@, features, transport) is None
    &&& outcome matches Err(status)
    &&& metadata_overflowed(config.headers@, status, kept.0, errors)
}

/// The configuration is planned, unless its headers do not fit in the metadata.
pub open spec fn metric_decided(
    features: Features,
    config: Config,
    transport: Transport,
    outcome: Result<OtlpPlan, OtelStatus>,
    kept: (OtelStatus, Seq<char>),
    errors: ErrorState,
) -> bool {
    ||| metric_planned(features, config, transport, outcome, kept, errors)
    ||| metric_overflowed(features, config, transport, outcome, kept, errors)
}

fn settings_of(config: &Config) -> (r: OtlpSettings<'_>)
    requires
        config.wf(),
    ensures
        metric_settings(*config, r),
{
    OtlpSettings {
        endpoint: config.endpoint.as_ref(),
        timeout: config.timeout,
        compression: configured_compression(config.compression),
        temporality: configured_temporality(config.temporality),
    }
}

fn build_http_exporter(config: &Config) -> (r: OtlpPlan<'_>)
    requires
        config.wf(),
    ensures
        metric_plan(*config, Transport::HttpProtobuf, r),
{
    OtlpPlan::Http { settings: settings_of(config), headers: &config.headers }
}

fn build_grpc_exporter<'a>(errors: &mut ErrorState, config: &'a Config) -> (r: Result<
    OtlpPlan<'a>,
    OtelStatus,
>)
    requires
        config.wf(),
    ensures
        match r {
            Ok(plan) => {
                &&& first_bad_header(config.headers@, 0) is None
                &&& metric_plan(*config, Transport::Grpc, plan)
                &&& *final(errors) == *old(errors)
            },
            Err(status) => {
                ||| metadata_overflowed(
                    config.headers@,
                    status,
                    old(errors).last_status,
                    *final(errors),
                )
                ||| first_bad_header(config.headers@, 0) matches Some(i) && header_refused(
                    config.headers@[i],
                    status,
                    *final(errors),
                )
            },
        },
        config.headers@.len() <= GRPC_METADATA_MAX_HEADERS ==> match first_bad_header(
            config.headers@,
            0,
        ) {
            None => r is Ok,
            Some(i) => r matches Err(status) && header_refused(
                config.headers@[i],
                status,
                *final(errors),
            ),
        },
{
    let metadata = match build_grpc_metadata(errors, &config.headers) {
        Ok(metadata) => metadata,
        Err(status) => return Err(status),
    };
    Ok(OtlpPlan::Grpc { settings: settings_of(config), metadata })
}

/// Decides which exporter a configuration asks for.
pub fn build_exporter<'a>(errors: &mut ErrorState, features: Features, config: &'a Config) -> (r:
    Result<OtlpPlan<'a>, OtelStatus>)
    requires
        config.wf(),
    ensures
        metric_decided(
            features,
            *config,
            config.transport,
            r,
            (old(errors).last_status, old(errors).message@),
            *final(errors),
        ),
        r is Ok ==> *final(errors) == *old(errors),
{
    match validate_transport_available(errors, "Metrics", features, config.transport) {
        Ok(_) => {},
        Err(status) => return Err(status),
    }
    match config.transport {
        Transport::HttpProtobuf => Ok(build_http_exporter(config)),
        Transport::Grpc => build_grpc_exporter(errors, config),
    }
}

/// Starts a build: decides which exporter the builder asks for, and empties `out`. The builder
/// stays with the caller as it is.
pub fn otel_otlp_metric_exporter_builder_build<'a, E>(
    errors: &mut ErrorState,
    features: Features,
    builder: Option<&'a OtelOtlpMetricExporterBuilder>,
    out: Option<&mut Option<OtelMetricExporter<E>>>,
) -> (r: Result<OtlpPlan<'a>, OtelStatus>)
    requires
        builder matches Some(b) ==> b.config.wf(),
    ensures
        match out {
            None => {
                &&& r matches Err(status)
                &&& status == OtelStatus::InvalidArgument
                &&& final(errors).holds(
                    OtelStatus::InvalidArgument,
                    "out pointer must not be NULL"@,
                )
            },
            Some(slot) => {
                &&& *final(slot) is None
                &&& match builder {
                    None => {
                        &&& r matches Err(status)
                        &&& refused_handle(
                            None::<OtelOtlpMetricExporterBuilder>,
                            status,
                            *final(errors),
                        )
                    },
                    Some(b) => if !is_valid(*b) {
                        &&& r matches Err(status)
                        &&& refused_handle(Some(*b), status, *final(errors))
                    } else {
                        metric_decided(
                            features,
                            b.config,
                            b.config.transport,
                            r,
                            (OtelStatus::Success, Seq::empty()),
                            *final(errors),
                        )
                    },
                }
            },
        },
{
    clear_last_error(errors);
    let slot = match out {
        None => return Err(
            fail(errors, OtelStatus::InvalidArgument, "out pointer must not be NULL"),
        ),
        Some(slot) => slot,
    };
    *slot = None;
    let builder = match checked_ref(errors, builder) {
        Some(builder) => builder,
        None => return Err(OtelStatus::InvalidArgument),
    };
    build_exporter(errors, features, &builder.config)
}

/// Ends a build: the exporter that came about gets a handle, and a failure is recorded.
pub fn metric_exporter_built<E>(
    errors: &mut ErrorState,
    built: Result<E, BuildFailure>,
    out: &mut Option<OtelMetricExporter<E>>,
) -> (r: OtelStatus)
    ensures
        match built {
            Ok(exporter) => {
                &&& r == OtelStatus::Success
                &&& *final(errors) == *old(errors)
                &&& *final(out) matches Some(handle)
                &&& is_valid(handle)
                &&& handle.exporter == MetricExporterImpl::Otlp(exporter)
            },
            Err(failure) => {
                &&& r == build_failure_status(failure)
                &&& final(errors).holds(r, build_failure_message("metric"@, failure))
                &&& *final(out) == *old(out)
            },
        },
{
    match built {
        Ok(exporter) => {
            *out = Some(OtelMetricExporter::new(MetricExporterImpl::Otlp(exporter)));
            OtelStatus::Success
        },
        Err(failure) => fail_build(errors, "metric", &failure),
    }
}

/// Without a transport every build is refused as misconfigured, whatever the builder holds.
pub proof fn metric_builds_need_a_transport(
    features: Features,
    config: Config,
    transport: Transport,
)
    requires
        !features.spec_has_transport(),
    ensures
        metric_build_fault(features, config, transport) matches Some(fault) && fault.0
            == OtelStatus::InvalidConfig,
{
}

} // verus!
