//! What the settings of an OTLP exporter builder come to: each setter keeps what it was given, and
//! a build hands every setting on to the exporter that it asks for, over either transport.

use vstd::prelude::*;
use vstd::utf8::encode_utf8;

use crate::abi::{OtelStatus, OtelStringView};
use crate::env_config::{
    decided, disables, otlp_protocol, parse_protocol, protocol_from, sdk_disabled,
    sdk_disabled_from, selected_protocol, OtlpProtocol, OTEL_EXPORTER_OTLP_PROTOCOL,
    OTEL_SDK_DISABLED,
};
use crate::error::ErrorState;
use crate::features::Features;
use crate::grpc_metadata::{
    build_grpc_metadata, first_bad_header, header_fault, lowered, metadata_entries, metadata_of,
};
use crate::handle::is_valid;
use crate::metric_data::Temporality;
use crate::metric_exporter::{MetricExporterImpl, OtelMetricExporter};
use crate::otlp_config::{
    headers_distinct, no_header_replaces_another, BuildFailure, Compression, OtlpCompression,
    OtlpPlan, OtlpSettings, Transport,
};
use crate::otlp_exporter::{
    otel_otlp_trace_exporter_builder_add_header, otel_otlp_trace_exporter_builder_build,
    otel_otlp_trace_exporter_builder_destroy, otel_otlp_trace_exporter_builder_new,
    otel_otlp_trace_exporter_builder_set_compression,
    otel_otlp_trace_exporter_builder_set_endpoint,
    otel_otlp_trace_exporter_builder_set_timeout_millis,
    otel_otlp_trace_exporter_builder_set_transport, trace_exporter_built,
    OtelOtlpTraceExporterBuilder, OtlpExporterConfig,
};
use crate::otlp_metric_exporter::{
    metric_exporter_built, otel_otlp_metric_exporter_builder_add_header,
    otel_otlp_metric_exporter_builder_build, otel_otlp_metric_exporter_builder_destroy,
    otel_otlp_metric_exporter_builder_new, otel_otlp_metric_exporter_builder_set_compression,
    otel_otlp_metric_exporter_builder_set_endpoint,
    otel_otlp_metric_exporter_builder_set_temporality,
    otel_otlp_metric_exporter_builder_set_timeout_millis,
    otel_otlp_metric_exporter_builder_set_transport, OtelOtlpMetricExporterBuilder,
};
use crate::trace_exporter::{OtelTraceExporter, TraceExporterImpl};

verus! {

/// The bytes with the letters from `A` to `Z` replaced by those from `a` to `z`.
pub open spec fn folded(bytes: Seq<u8>) -> Seq<u8> {
    Seq::new(
        bytes.len(),
        |i: int|
            if 65 <= bytes[i] <= 90 {
                (bytes[i] + 32) as u8
            } else {
                bytes[i]
            },
    )
}

/// The two keys are the same header name.
pub open spec fn same_name(a: Seq<char>, b: Seq<char>) -> bool {
    folded(encode_utf8(a)) == folded(encode_utf8(b))
}

/// The settings of a plan, whatever its transport.
pub open spec fn settings_in<'a>(plan: OtlpPlan<'a>) -> OtlpSettings<'a> {
    match plan {
        OtlpPlan::Http { settings, .. } => settings,
        OtlpPlan::Grpc { settings, .. } => settings,
    }
}

/// The plan sends each header under its own name with its own value, and nothing else: as it is
/// over HTTP, and under its lower-case name over gRPC.
pub open spec fn sends_headers(plan: OtlpPlan, headers: Seq<(String, String)>) -> bool {
    match plan {
        OtlpPlan::Http { headers: sent, .. } => sent@ == headers,
        OtlpPlan::Grpc { metadata, .. } => {
            &&& forall|i: int|
                0 <= i < headers.len() ==> {
                    let name = folded(encode_utf8((#[trigger] headers[i]).0@));
                    &&& metadata_entries(metadata).contains_key(name)
                    &&& metadata_entries(metadata)[name] == seq![encode_utf8(headers[i].1@)]
                }
            &&& forall|name: Seq<u8>| #[trigger]
                metadata_entries(metadata).contains_key(name) ==> exists|i: int|
                    0 <= i < headers.len() && name == folded(encode_utf8((#[trigger] headers[i]).0@))
        },
    }
}

/// The transport takes this compression.
pub open spec fn takes_compression(
    features: Features,
    transport: Transport,
    compression: Compression,
) -> bool {
    match (transport, compression) {
        (_, Compression::Off) => true,
        (Transport::HttpProtobuf, Compression::Gzip) => features.otlp_http_gzip,
        (Transport::HttpProtobuf, Compression::Zstd) => features.otlp_http_zstd,
        (Transport::Grpc, Compression::Gzip) => features.otlp_grpc_gzip,
        (Transport::Grpc, Compression::Zstd) => features.otlp_grpc_zstd,
    }
}

/// The byte may stand in a header name: a letter, a digit or a mark out of `!#$%&'*+-.^_`|~`.
pub open spec fn name_byte(b: u8) -> bool {
    ||| 97 <= b <= 122 || 65 <= b <= 90 || 48 <= b <= 57
    ||| b == 33 || b == 35 || b == 36 || b == 37 || b == 38 || b == 39 || b == 42 || b == 43
    ||| b == 45 || b == 46 || b == 94 || b == 95 || b == 96 || b == 124 || b == 126
}

/// The key names binary metadata: it ends in `-bin`, whatever its ASCII case.
pub open spec fn names_binary(key: Seq<char>) -> bool {
    let name = folded(encode_utf8(key));
    name.len() >= 4 && name[name.len() - 4] == 45 && name[name.len() - 3] == 98 && name[name.len()
        - 2] == 105 && name[name.len() - 1] == 110
}

/// The header can be sent over gRPC.
pub open spec fn sendable(header: (String, String)) -> bool {
    let key = encode_utf8(header.0@);
    let value = encode_utf8(header.1@);
    &&& 0 < key.len() <= 65_535
    &&& forall|i: int| 0 <= i < key.len() ==> name_byte(#[trigger] key[i])
    &&& !names_binary(header.0@)
    &&& forall|i: int|
        0 <= i < value.len() ==> #[trigger] value[i] == 9 || 32 <= value[i] < 127 || value[i] > 127
}

proof fn lemma_folded(bytes: Seq<u8>)
    ensures
        lowered(bytes) == folded(bytes),
{
    assert(lowered(bytes) =~= folded(bytes));
}

proof fn lemma_sendable(header: (String, String))
    ensures
        sendable(header) <==> header_fault(header) is None,
{
    let key = encode_utf8(header.0@);
    let value = encode_utf8(header.1@);
    lemma_folded(key);
    let name = folded(key);
    assert(name.len() == key.len());
    if key.len() >= 4 {
        let tail = lowered(key).subrange(key.len() - 4, key.len() as int);
        let bin = crate::grpc_metadata::binary_suffix();
        assert(tail.len() == 4 && bin.len() == 4);
        assert(tail[0] == name[name.len() - 4]);
        assert(tail[1] == name[name.len() - 3]);
        assert(tail[2] == name[name.len() - 2]);
        assert(tail[3] == name[name.len() - 1]);
        if names_binary(header.0@) {
            assert(tail =~= bin);
        }
        if tail == bin {
            assert(bin[0] == 45 && bin[1] == 98 && bin[2] == 105 && bin[3] == 110);
        }
    }
    assert(crate::grpc_metadata::is_binary_key(key) == names_binary(header.0@));
    assert forall|b: u8| #[trigger] name_byte(b) == crate::grpc_metadata::is_token_byte(b) by {}
    if forall|i: int| 0 <= i < key.len() ==> name_byte(#[trigger] key[i]) {
        assert forall|i: int| 0 <= i < key.len() implies crate::grpc_metadata::is_token_byte(
            #[trigger] key[i],
        ) by {
            assert(name_byte(key[i]));
        }
    }
    if crate::grpc_metadata::is_metadata_key(key) {
        assert forall|i: int| 0 <= i < key.len() implies name_byte(#[trigger] key[i]) by {
            assert(crate::grpc_metadata::is_token_byte(key[i]));
        }
    }
}

proof fn lemma_first_bad(headers: Seq<(String, String)>, i: int)
    requires
        0 <= i <= headers.len(),
    ensures
        first_bad_header(headers, i) is None <==> forall|k: int|
            i <= k < headers.len() ==> sendable(#[trigger] headers[k]),
        first_bad_header(headers, i) matches Some(k) ==> i <= k < headers.len() && !sendable(
            headers[k],
        ) && forall|j: int| i <= j < k ==> sendable(#[trigger] headers[j]),
    decreases headers.len() - i,
{
    if i < headers.len() {
        lemma_sendable(headers[i]);
        lemma_first_bad(headers, i + 1);
    }
}

proof fn lemma_metadata_names(headers: Seq<(String, String)>, n: int, name: Seq<u8>)
    requires
        0 <= n <= headers.len(),
        metadata_of(headers, n).contains_key(name),
    ensures
        exists|i: int|
            0 <= i < headers.len() && name == folded(encode_utf8((#[trigger] headers[i]).0@)),
    decreases n,
{
    if n > 0 {
        let own = encode_utf8(headers[n - 1].0@);
        lemma_folded(own);
        if name != lowered(own) {
            lemma_metadata_names(headers, n - 1, name);
        }
    }
}

proof fn lemma_sends(plan: OtlpPlan, headers: Seq<(String, String)>)
    requires
        headers_distinct(headers),
        plan matches OtlpPlan::Http { headers: sent, .. } ==> sent@ == headers,
        plan matches OtlpPlan::Grpc { metadata, .. } ==> metadata_entries(metadata) == metadata_of(
            headers,
            headers.len() as int,
        ),
    ensures
        sends_headers(plan, headers),
{
    let n = headers.len() as int;
    assert forall|i: int| 0 <= i < headers.len() implies metadata_of(headers, n).contains_key(
        folded(encode_utf8((#[trigger] headers[i]).0@)),
    ) && metadata_of(headers, n)[folded(encode_utf8(headers[i].0@))] == seq![
        encode_utf8(headers[i].1@),
    ] by {
        lemma_folded(encode_utf8(headers[i].0@));
        no_header_replaces_another(headers, i);
        lemma_metadata_holds(headers, n, i);
    }
    assert forall|name: Seq<u8>| #[trigger] metadata_of(headers, n).contains_key(
        name,
    ) implies exists|i: int|
        0 <= i < headers.len() && name == folded(encode_utf8((#[trigger] headers[i]).0@)) by {
        lemma_metadata_names(headers, n, name);
    }
}

proof fn lemma_metadata_holds(headers: Seq<(String, String)>, n: int, i: int)
    requires
        0 <= i < n <= headers.len(),
    ensures
        metadata_of(headers, n).contains_key(lowered(encode_utf8(headers[i].0@))),
    decreases n,
{
    if i < n - 1 {
        lemma_metadata_holds(headers, n - 1, i);
    }
}

proof fn lemma_same_name(a: Seq<char>, b: Seq<char>)
    ensures
        same_name(a, b) == crate::text::equal_ignoring_ascii_case(encode_utf8(a), encode_utf8(b)),
{
    let x = encode_utf8(a);
    let y = encode_utf8(b);
    if same_name(a, b) {
        assert(folded(x).len() == x.len() && folded(y).len() == y.len());
        assert forall|i: int| 0 <= i < x.len() implies crate::text::ascii_lower(#[trigger] x[i])
            == crate::text::ascii_lower(y[i]) by {
            assert(folded(x)[i] == folded(y)[i]);
        }
    } else if crate::text::equal_ignoring_ascii_case(x, y) {
        assert(folded(x) =~= folded(y));
    }
}

/// A header with this name is among the headers.
pub open spec fn names(headers: Seq<(String, String)>, key: Seq<char>) -> bool {
    exists|i: int| 0 <= i < headers.len() && same_name((#[trigger] headers[i]).0@, key)
}

proof fn lemma_names(headers: Seq<(String, String)>, key: Seq<char>)
    ensures
        names(headers, key) == crate::otlp_config::has_header(headers, key),
{
    assert forall|i: int| 0 <= i < headers.len() implies same_name((#[trigger] headers[i]).0@, key)
        == crate::text::equal_ignoring_ascii_case(
        encode_utf8(headers[i].0@),
        encode_utf8(key),
    ) by {
        lemma_same_name(headers[i].0@, key);
    }
    if names(headers, key) {
        let i = choose|i: int| 0 <= i < headers.len() && same_name((#[trigger] headers[i]).0@, key);
        assert(crate::text::equal_ignoring_ascii_case(
            encode_utf8(headers[i].0@),
            encode_utf8(key),
        ));
    }
    if crate::otlp_config::has_header(headers, key) {
        let i = choose|i: int|
            0 <= i < headers.len() && crate::text::equal_ignoring_ascii_case(
                encode_utf8((#[trigger] headers[i]).0@),
                encode_utf8(key),
            );
        assert(same_name(headers[i].0@, key));
    }
}

/// Metadata of headers with different names holds each of them under its lower-case name, and
/// nothing else. Up to the number of entries that a map takes in any case, it comes about exactly
/// when every header can be sent.
pub proof fn metadata_is_made_of_the_headers(
    errors: &mut ErrorState,
    headers: &Vec<(String, String)>,
    r: Result<tonic::metadata::MetadataMap, OtelStatus>,
)
    requires
        call_ensures(build_grpc_metadata, (errors, headers), r),
        headers_distinct(headers@),
    ensures
        r is Ok ==> forall|i: int| 0 <= i < headers@.len() ==> sendable(#[trigger] headers@[i]),
        headers@.len() <= 6_554 && (forall|i: int|
            0 <= i < headers@.len() ==> sendable(#[trigger] headers@[i])) ==> r is Ok,
        headers@.len() <= 6_554 && r is Err ==> r->Err_0 == OtelStatus::InvalidArgument,
        r matches Ok(metadata) ==> forall|i: int|
            0 <= i < headers@.len() ==> {
                let name = folded(encode_utf8((#[trigger] headers@[i]).0@));
                &&& metadata_entries(metadata).contains_key(name)
                &&& metadata_entries(metadata)[name] == seq![encode_utf8(headers@[i].1@)]
            },
        r matches Ok(metadata) ==> forall|name: Seq<u8>| #[trigger]
            metadata_entries(metadata).contains_key(name) ==> exists|i: int|
                0 <= i < headers@.len() && name == folded(encode_utf8((#[trigger] headers@[i]).0@)),
{
    lemma_first_bad(headers@, 0);
    let n = headers@.len() as int;
    assert forall|i: int| 0 <= i < headers@.len() implies metadata_of(headers@, n).contains_key(
        folded(encode_utf8((#[trigger] headers@[i]).0@)),
    ) && metadata_of(headers@, n)[folded(encode_utf8(headers@[i].0@))] == seq![
        encode_utf8(headers@[i].1@),
    ] by {
        lemma_folded(encode_utf8(headers@[i].0@));
        no_header_replaces_another(headers@, i);
        lemma_metadata_holds(headers@, n, i);
    }
    assert forall|name: Seq<u8>| #[trigger] metadata_of(headers@, n).contains_key(
        name,
    ) implies exists|i: int|
        0 <= i < headers@.len() && name == folded(encode_utf8((#[trigger] headers@[i]).0@)) by {
        lemma_metadata_names(headers@, n, name);
    }
}

/// A new Traces builder leaves every setting to its default: no endpoint, headers or timeout, no
/// compression, and HTTP unless another transport is asked for.
pub proof fn new_trace_builder_has_defaults(errors: &mut ErrorState, r: OtelOtlpTraceExporterBuilder)
    requires
        call_ensures(otel_otlp_trace_exporter_builder_new, (errors,), r),
    ensures
        is_valid(r),
        r.config.endpoint is None,
        r.config.headers@.len() == 0,
        r.config.timeout is None,
        r.config.transport is HttpProtobuf,
        !r.config.transport_set,
        r.config.compression is Off,
{
}

/// Setting the endpoint of a Traces builder keeps the text as it was given, and changes nothing else.
/// A text that cannot be read changes nothing.
pub proof fn trace_endpoint_is_kept(
    errors: &mut ErrorState,
    builder: &mut OtelOtlpTraceExporterBuilder,
    endpoint: OtelStringView,
    r: OtelStatus,
)
    requires
        is_valid(*old(builder)),
        call_ensures(otel_otlp_trace_exporter_builder_set_endpoint, (errors, Some(builder), endpoint), r),
    ensures
        is_valid(*final(builder)),
        r == OtelStatus::Success <==> endpoint.text() is Ok,
        match endpoint.text() {
            Ok(text) => final(builder).config.endpoint matches Some(kept) && kept@ == text,
            Err(_) => final(builder).config.endpoint == old(builder).config.endpoint,
        },
        final(builder).config.headers@ == old(builder).config.headers@,
        final(builder).config.timeout == old(builder).config.timeout,
        final(builder).config.transport == old(builder).config.transport,
        final(builder).config.transport_set == old(builder).config.transport_set,
        final(builder).config.compression == old(builder).config.compression,
{
}

/// A header that a Traces builder takes is kept last, with its key and its value as they were given.
/// One is taken exactly when both texts can be read and the key is neither empty nor the name of
/// an earlier header, whatever its ASCII case.
pub proof fn trace_header_is_kept(
    errors: &mut ErrorState,
    builder: &mut OtelOtlpTraceExporterBuilder,
    key: OtelStringView,
    value: OtelStringView,
    r: OtelStatus,
)
    requires
        is_valid(*old(builder)),
        call_ensures(otel_otlp_trace_exporter_builder_add_header, (errors, Some(builder), key, value), r),
    ensures
        is_valid(*final(builder)),
        r == OtelStatus::Success <==> (key.text() matches Ok(k) && k.len() > 0 && value.text() is Ok
            && !names(old(builder).config.headers@, k)),
        r == OtelStatus::Success ==> {
            let headers = final(builder).config.headers@;
            let before = old(builder).config.headers@;
            &&& headers.len() == before.len() + 1
            &&& forall|i: int| 0 <= i < before.len() ==> #[trigger] headers[i] == before[i]
            &&& key.text() matches Ok(k) && headers[before.len() as int].0@ == k
            &&& value.text() matches Ok(v) && headers[before.len() as int].1@ == v
        },
        r != OtelStatus::Success ==> final(builder).config.headers@ == old(builder).config.headers@,
        final(builder).config.endpoint == old(builder).config.endpoint,
        final(builder).config.timeout == old(builder).config.timeout,
        final(builder).config.transport == old(builder).config.transport,
        final(builder).config.transport_set == old(builder).config.transport_set,
        final(builder).config.compression == old(builder).config.compression,
{
    let before = old(builder).config.headers@;
    let headers = final(builder).config.headers@;
    if let Ok(k) = key.text() {
        lemma_names(before, k);
    }
    if r == OtelStatus::Success {
        assert(headers.drop_last() == before);
        assert forall|i: int| 0 <= i < before.len() implies #[trigger] headers[i] == before[i] by {
            assert(headers.drop_last()[i] == headers[i]);
        }
    }
}

/// Setting the timeout of a Traces builder keeps exactly so many milliseconds, or the default where
/// they are zero, and changes nothing else.
pub proof fn trace_timeout_is_kept(
    errors: &mut ErrorState,
    builder: &mut OtelOtlpTraceExporterBuilder,
    timeout_millis: u64,
    r: OtelStatus,
)
    requires
        is_valid(*old(builder)),
        call_ensures(otel_otlp_trace_exporter_builder_set_timeout_millis, (errors, Some(builder), timeout_millis), r),
    ensures
        is_valid(*final(builder)),
        r == OtelStatus::Success,
        timeout_millis == 0 <==> final(builder).config.timeout is None,
        final(builder).config.timeout matches Some(timeout) ==> timeout.lasts(timeout_millis as int),
        final(builder).config.endpoint == old(builder).config.endpoint,
        final(builder).config.headers@ == old(builder).config.headers@,
        final(builder).config.transport == old(builder).config.transport,
        final(builder).config.transport_set == old(builder).config.transport_set,
        final(builder).config.compression == old(builder).config.compression,
{
}

/// Selecting the transport of a Traces builder: zero is HTTP, one is gRPC, and any other code is
/// refused. Nothing else changes.
pub proof fn trace_transport_is_kept(
    errors: &mut ErrorState,
    builder: &mut OtelOtlpTraceExporterBuilder,
    transport: u32,
    r: OtelStatus,
)
    requires
        is_valid(*old(builder)),
        call_ensures(otel_otlp_trace_exporter_builder_set_transport, (errors, Some(builder), transport), r),
    ensures
        is_valid(*final(builder)),
        r == OtelStatus::Success <==> transport <= 1,
        r == OtelStatus::Success || r == OtelStatus::InvalidArgument,
        transport == 0 ==> final(builder).config.transport is HttpProtobuf,
        transport == 1 ==> final(builder).config.transport is Grpc,
        transport <= 1 ==> final(builder).config.transport_set,
        transport > 1 ==> final(builder).config.transport == old(builder).config.transport,
        transport > 1 ==> final(builder).config.transport_set == old(builder).config.transport_set,
        final(builder).config.endpoint == old(builder).config.endpoint,
        final(builder).config.headers@ == old(builder).config.headers@,
        final(builder).config.timeout == old(builder).config.timeout,
        final(builder).config.compression == old(builder).config.compression,
{
}

/// Selecting the compression of a Traces builder: zero is none, one is gzip, two is zstd, and any
/// other code is refused. Nothing else changes.
pub proof fn trace_compression_is_kept(
    errors: &mut ErrorState,
    builder: &mut OtelOtlpTraceExporterBuilder,
    compression: u32,
    r: OtelStatus,
)
    requires
        is_valid(*old(builder)),
        call_ensures(otel_otlp_trace_exporter_builder_set_compression, (errors, Some(builder), compression), r),
    ensures
        is_valid(*final(builder)),
        r == OtelStatus::Success <==> compression <= 2,
        r == OtelStatus::Success || r == OtelStatus::InvalidArgument,
        compression == 0 ==> final(builder).config.compression is Off,
        compression == 1 ==> final(builder).config.compression is Gzip,
        compression == 2 ==> final(builder).config.compression is Zstd,
        compression > 2 ==> final(builder).config.compression == old(builder).config.compression,
        final(builder).config.endpoint == old(builder).config.endpoint,
        final(builder).config.headers@ == old(builder).config.headers@,
        final(builder).config.timeout == old(builder).config.timeout,
        final(builder).config.transport == old(builder).config.transport,
        final(builder).config.transport_set == old(builder).config.transport_set,
{
}

/// What a Traces builder was set to reaches the exporter that it asks for, over either transport: the
/// endpoint, the timeout, the compression, the temporality and the headers are those of the
/// builder, and the transport is one that is built in.
pub proof fn trace_plan_has_every_setting<'a, E>(
    errors: &mut ErrorState,
    features: Features,
    builder: &'a OtelOtlpTraceExporterBuilder,
    specific: Option<String>,
    generic: Option<String>,
    out: Option<&mut Option<OtelTraceExporter<E>>>,
    plan: OtlpPlan<'a>,
    warnings: Vec<String>,
)
    requires
        is_valid(*builder),
        headers_distinct(builder.config.headers@),
        call_ensures(
            otel_otlp_trace_exporter_builder_build::<E>,
            (errors, features, Some(builder), specific, generic, out),
            (Ok::<OtlpPlan<'a>, OtelStatus>(plan), warnings),
        ),
    ensures
        match builder.config.endpoint {
            Some(endpoint) => settings_in(plan).endpoint matches Some(kept) && kept@ == endpoint@,
            None => settings_in(plan).endpoint is None,
        },
        match builder.config.timeout {
            Some(timeout) => settings_in(plan).timeout matches Some(kept) && kept.secs == timeout.secs
                && kept.nanos == timeout.nanos,
            None => settings_in(plan).timeout is None,
        },
        match builder.config.compression {
            Compression::Off => settings_in(plan).compression is None,
            Compression::Gzip => settings_in(plan).compression == Some(OtlpCompression::Gzip),
            Compression::Zstd => settings_in(plan).compression == Some(OtlpCompression::Zstd),
        },
        settings_in(plan).temporality is None,
        sends_headers(plan, builder.config.headers@),
        plan is Http ==> features.otlp_http,
        plan is Grpc ==> features.otlp_grpc,
        plan is Http ==> takes_compression(
            features,
            Transport::HttpProtobuf,
            builder.config.compression,
        ),
        plan is Grpc ==> takes_compression(features, Transport::Grpc, builder.config.compression),
        plan is Grpc <==> asks_for_grpc(builder.config, specific, generic),
{
    lemma_sends(plan, builder.config.headers@);
    lemma_asked(builder.config, specific, generic);
}

/// A Traces builder with no more headers than metadata takes in any case is granted its exporter exactly when the transport and the compression are built in and, over gRPC, every header can be
/// sent. A header that cannot is the caller's mistake, and everything else a matter of
/// configuration.
pub proof fn trace_plan_is_owed<'a, E>(
    errors: &mut ErrorState,
    features: Features,
    builder: &'a OtelOtlpTraceExporterBuilder,
    specific: Option<String>,
    generic: Option<String>,
    out: Option<&mut Option<OtelTraceExporter<E>>>,
    r: Result<OtlpPlan<'a>, OtelStatus>,
    warnings: Vec<String>,
)
    requires
        is_valid(*builder),
        headers_distinct(builder.config.headers@),
        builder.config.headers@.len() <= 6_554,
        out is Some,
        call_ensures(
            otel_otlp_trace_exporter_builder_build::<E>,
            (errors, features, Some(builder), specific, generic, out),
            (r, warnings),
        ),
    ensures
        !asks_for_grpc(builder.config, specific, generic) ==> (r is Ok <==> features.otlp_http && takes_compression(
            features,
            Transport::HttpProtobuf,
            builder.config.compression,
        )),
        asks_for_grpc(builder.config, specific, generic) ==> (r is Ok <==> features.otlp_grpc && takes_compression(
            features,
            Transport::Grpc,
            builder.config.compression,
        ) && forall|i: int|
            0 <= i < builder.config.headers@.len() ==> sendable(#[trigger] builder.config.headers@[i])),
        r matches Err(status) ==> status == OtelStatus::InvalidConfig || status
            == OtelStatus::InvalidArgument,
        r matches Err(status) ==> (status == OtelStatus::InvalidArgument ==> exists|i: int|
            0 <= i < builder.config.headers@.len() && !sendable(
                #[trigger] builder.config.headers@[i],
            )),
{
    lemma_first_bad(builder.config.headers@, 0);
    lemma_asked(builder.config, specific, generic);
}

/// An endpoint that a Traces builder was given is the endpoint of the exporter that its build asks
/// for.
pub proof fn trace_endpoint_reaches_the_plan<'a, E>(
    setting: &mut ErrorState,
    edited: &mut OtelOtlpTraceExporterBuilder,
    endpoint: OtelStringView,
    status: OtelStatus,
    errors: &mut ErrorState,
    features: Features,
    builder: &'a OtelOtlpTraceExporterBuilder,
    specific: Option<String>,
    generic: Option<String>,
    out: Option<&mut Option<OtelTraceExporter<E>>>,
    plan: OtlpPlan<'a>,
    warnings: Vec<String>,
)
    requires
        is_valid(*old(edited)),
        call_ensures(otel_otlp_trace_exporter_builder_set_endpoint, (setting, Some(edited), endpoint), status),
        status == OtelStatus::Success,
        *builder == *final(edited),
        call_ensures(
            otel_otlp_trace_exporter_builder_build::<E>,
            (errors, features, Some(builder), specific, generic, out),
            (Ok::<OtlpPlan<'a>, OtelStatus>(plan), warnings),
        ),
    ensures
        settings_in(plan).endpoint matches Some(kept) && endpoint.text() matches Ok(text) && kept@
            == text,
{
}

/// An exporter that came about gets a live handle that owns it, and a failed build leaves `out` as
/// it is: a runtime that could not be made is the library's failure, and everything else a matter
/// of configuration.
pub proof fn trace_build_ends_in_a_handle_or_an_error<E>(
    errors: &mut ErrorState,
    built: Result<E, BuildFailure>,
    out: &mut Option<OtelTraceExporter<E>>,
    r: OtelStatus,
)
    requires
        call_ensures(trace_exporter_built::<E>, (errors, built, out), r),
    ensures
        r == OtelStatus::Success <==> built is Ok,
        built matches Ok(exporter) ==> (*final(out) matches Some(handle) && is_valid(handle)
            && handle.exporter == TraceExporterImpl::<E>::Otlp(exporter)),
        built is Err ==> *final(out) == *old(out) && final(errors).last_status == r,
        built matches Err(failure) ==> (if failure is Runtime {
            r == OtelStatus::InternalError
        } else {
            r == OtelStatus::InvalidConfig
        }),
{
}

/// A Traces builder can be destroyed once, and anything but a live builder is left alone.
pub proof fn trace_builder_is_destroyed_once(
    builder: &mut Option<OtelOtlpTraceExporterBuilder>,
)
    requires
        call_ensures(otel_otlp_trace_exporter_builder_destroy, (builder,), ()),
    ensures
        *old(builder) matches Some(handle) && is_valid(handle) ==> *final(builder) is None,
        !(*old(builder) matches Some(handle) && is_valid(handle)) ==> *final(builder) == *old(builder),
{
}

/// A new Metrics builder leaves every setting to its default: no endpoint, headers or timeout, no
/// compression, and HTTP unless another transport is asked for.
pub proof fn new_metric_builder_has_defaults(errors: &mut ErrorState, r: OtelOtlpMetricExporterBuilder)
    requires
        call_ensures(otel_otlp_metric_exporter_builder_new, (errors,), r),
    ensures
        is_valid(r),
        r.config.endpoint is None,
        r.config.headers@.len() == 0,
        r.config.timeout is None,
        r.config.transport is HttpProtobuf,
        r.config.temporality == 0,
        r.config.compression is Off,
{
}

/// Setting the endpoint of a Metrics builder keeps the text as it was given, and changes nothing else.
/// A text that cannot be read changes nothing.
pub proof fn metric_endpoint_is_kept(
    errors: &mut ErrorState,
    builder: &mut OtelOtlpMetricExporterBuilder,
    endpoint: OtelStringView,
    r: OtelStatus,
)
    requires
        is_valid(*old(builder)),
        call_ensures(otel_otlp_metric_exporter_builder_set_endpoint, (errors, Some(builder), endpoint), r),
    ensures
        is_valid(*final(builder)),
        r == OtelStatus::Success <==> endpoint.text() is Ok,
        match endpoint.text() {
            Ok(text) => final(builder).config.endpoint matches Some(kept) && kept@ == text,
            Err(_) => final(builder).config.endpoint == old(builder).config.endpoint,
        },
        final(builder).config.headers@ == old(builder).config.headers@,
        final(builder).config.timeout == old(builder).config.timeout,
        final(builder).config.temporality == old(builder).config.temporality,
        final(builder).config.transport == old(builder).config.transport,
        final(builder).config.compression == old(builder).config.compression,
{
}

/// A header that a Metrics builder takes is kept last, with its key and its value as they were given.
/// One is taken exactly when both texts can be read and the key is neither empty nor the name of
/// an earlier header, whatever its ASCII case.
pub proof fn metric_header_is_kept(
    errors: &mut ErrorState,
    builder: &mut OtelOtlpMetricExporterBuilder,
    key: OtelStringView,
    value: OtelStringView,
    r: OtelStatus,
)
    requires
        is_valid(*old(builder)),
        call_ensures(otel_otlp_metric_exporter_builder_add_header, (errors, Some(builder), key, value), r),
    ensures
        is_valid(*final(builder)),
        r == OtelStatus::Success <==> (key.text() matches Ok(k) && k.len() > 0 && value.text() is Ok
            && !names(old(builder).config.headers@, k)),
        r == OtelStatus::Success ==> {
            let headers = final(builder).config.headers@;
            let before = old(builder).config.headers@;
            &&& headers.len() == before.len() + 1
            &&& forall|i: int| 0 <= i < before.len() ==> #[trigger] headers[i] == before[i]
            &&& key.text() matches Ok(k) && headers[before.len() as int].0@ == k
            &&& value.text() matches Ok(v) && headers[before.len() as int].1@ == v
        },
        r != OtelStatus::Success ==> final(builder).config.headers@ == old(builder).config.headers@,
        final(builder).config.endpoint == old(builder).config.endpoint,
        final(builder).config.timeout == old(builder).config.timeout,
        final(builder).config.temporality == old(builder).config.temporality,
        final(builder).config.transport == old(builder).config.transport,
        final(builder).config.compression == old(builder).config.compression,
{
    let before = old(builder).config.headers@;
    let headers = final(builder).config.headers@;
    if let Ok(k) = key.text() {
        lemma_names(before, k);
    }
    if r == OtelStatus::Success {
        assert(headers.drop_last() == before);
        assert forall|i: int| 0 <= i < before.len() implies #[trigger] headers[i] == before[i] by {
            assert(headers.drop_last()[i] == headers[i]);
        }
    }
}

/// Setting the timeout of a Metrics builder keeps exactly so many milliseconds, or the default where
/// they are zero, and changes nothing else.
pub proof fn metric_timeout_is_kept(
    errors: &mut ErrorState,
    builder: &mut OtelOtlpMetricExporterBuilder,
    timeout_millis: u64,
    r: OtelStatus,
)
    requires
        is_valid(*old(builder)),
        call_ensures(otel_otlp_metric_exporter_builder_set_timeout_millis, (errors, Some(builder), timeout_millis), r),
    ensures
        is_valid(*final(builder)),
        r == OtelStatus::Success,
        timeout_millis == 0 <==> final(builder).config.timeout is None,
        final(builder).config.timeout matches Some(timeout) ==> timeout.lasts(timeout_millis as int),
        final(builder).config.endpoint == old(builder).config.endpoint,
        final(builder).config.headers@ == old(builder).config.headers@,
        final(builder).config.temporality == old(builder).config.temporality,
        final(builder).config.transport == old(builder).config.transport,
        final(builder).config.compression == old(builder).config.compression,
{
}

/// Selecting the transport of a Metrics builder: zero is HTTP, one is gRPC, and any other code is
/// refused. Nothing else changes.
pub proof fn metric_transport_is_kept(
    errors: &mut ErrorState,
    builder: &mut OtelOtlpMetricExporterBuilder,
    transport: u32,
    r: OtelStatus,
)
    requires
        is_valid(*old(builder)),
        call_ensures(otel_otlp_metric_exporter_builder_set_transport, (errors, Some(builder), transport), r),
    ensures
        is_valid(*final(builder)),
        r == OtelStatus::Success <==> transport <= 1,
        r == OtelStatus::Success || r == OtelStatus::InvalidArgument,
        transport == 0 ==> final(builder).config.transport is HttpProtobuf,
        transport == 1 ==> final(builder).config.transport is Grpc,
        transport > 1 ==> final(builder).config.transport == old(builder).config.transport,
        final(builder).config.endpoint == old(builder).config.endpoint,
        final(builder).config.headers@ == old(builder).config.headers@,
        final(builder).config.timeout == old(builder).config.timeout,
        final(builder).config.temporality == old(builder).config.temporality,
        final(builder).config.compression == old(builder).config.compression,
{
}

/// Selecting the compression of a Metrics builder: zero is none, one is gzip, two is zstd, and any
/// other code is refused. Nothing else changes.
pub proof fn metric_compression_is_kept(
    errors: &mut ErrorState,
    builder: &mut OtelOtlpMetricExporterBuilder,
    compression: u32,
    r: OtelStatus,
)
    requires
        is_valid(*old(builder)),
        call_ensures(otel_otlp_metric_exporter_builder_set_compression, (errors, Some(builder), compression), r),
    ensures
        is_valid(*final(builder)),
        r == OtelStatus::Success <==> compression <= 2,
        r == OtelStatus::Success || r == OtelStatus::InvalidArgument,
        compression == 0 ==> final(builder).config.compression is Off,
        compression == 1 ==> final(builder).config.compression is Gzip,
        compression == 2 ==> final(builder).config.compression is Zstd,
        compression > 2 ==> final(builder).config.compression == old(builder).config.compression,
        final(builder).config.endpoint == old(builder).config.endpoint,
        final(builder).config.headers@ == old(builder).config.headers@,
        final(builder).config.timeout == old(builder).config.timeout,
        final(builder).config.temporality == old(builder).config.temporality,
        final(builder).config.transport == old(builder).config.transport,
{
}

/// Selecting the temporality of a Metrics builder: zero to three are kept, and any other code is
/// refused. Nothing else changes.
pub proof fn metric_temporality_is_kept(
    errors: &mut ErrorState,
    builder: &mut OtelOtlpMetricExporterBuilder,
    temporality: u32,
    r: OtelStatus,
)
    requires
        is_valid(*old(builder)),
        call_ensures(otel_otlp_metric_exporter_builder_set_temporality, (errors, Some(builder), temporality), r),
    ensures
        is_valid(*final(builder)),
        r == OtelStatus::Success <==> temporality <= 3,
        r == OtelStatus::Success || r == OtelStatus::InvalidArgument,
        final(builder).config.temporality == (if temporality <= 3 {
            temporality
        } else {
            old(builder).config.temporality
        }),
        final(builder).config.endpoint == old(builder).config.endpoint,
        final(builder).config.headers@ == old(builder).config.headers@,
        final(builder).config.timeout == old(builder).config.timeout,
        final(builder).config.transport == old(builder).config.transport,
        final(builder).config.compression == old(builder).config.compression,
{
}

/// What a Metrics builder was set to reaches the exporter that it asks for, over either transport: the
/// endpoint, the timeout, the compression, the temporality and the headers are those of the
/// builder, and the transport is one that is built in.
pub proof fn metric_plan_has_every_setting<'a, E>(
    errors: &mut ErrorState,
    features: Features,
    builder: &'a OtelOtlpMetricExporterBuilder,
    out: Option<&mut Option<OtelMetricExporter<E>>>,
    plan: OtlpPlan<'a>,
)
    requires
        is_valid(*builder),
        headers_distinct(builder.config.headers@),
        call_ensures(
            otel_otlp_metric_exporter_builder_build::<E>,
            (errors, features, Some(builder), out),
            Ok::<OtlpPlan<'a>, OtelStatus>(plan),
        ),
    ensures
        match builder.config.endpoint {
            Some(endpoint) => settings_in(plan).endpoint matches Some(kept) && kept@ == endpoint@,
            None => settings_in(plan).endpoint is None,
        },
        match builder.config.timeout {
            Some(timeout) => settings_in(plan).timeout matches Some(kept) && kept.secs == timeout.secs
                && kept.nanos == timeout.nanos,
            None => settings_in(plan).timeout is None,
        },
        match builder.config.compression {
            Compression::Off => settings_in(plan).compression is None,
            Compression::Gzip => settings_in(plan).compression == Some(OtlpCompression::Gzip),
            Compression::Zstd => settings_in(plan).compression == Some(OtlpCompression::Zstd),
        },
        match builder.config.temporality {
            1 => settings_in(plan).temporality == Some(Temporality::Cumulative),
            2 => settings_in(plan).temporality == Some(Temporality::Delta),
            3 => settings_in(plan).temporality == Some(Temporality::LowMemory),
            _ => settings_in(plan).temporality is None,
        },
        sends_headers(plan, builder.config.headers@),
        plan is Http ==> features.otlp_http,
        plan is Grpc ==> features.otlp_grpc,
        plan is Grpc <==> builder.config.transport is Grpc,
{
    lemma_sends(plan, builder.config.headers@);
}

/// A Metrics builder with no more headers than metadata takes in any case is granted its exporter exactly when the transport is built in and, over gRPC, every header can be
/// sent. A header that cannot is the caller's mistake, and everything else a matter of
/// configuration.
pub proof fn metric_plan_is_owed<'a, E>(
    errors: &mut ErrorState,
    features: Features,
    builder: &'a OtelOtlpMetricExporterBuilder,
    out: Option<&mut Option<OtelMetricExporter<E>>>,
    r: Result<OtlpPlan<'a>, OtelStatus>,
)
    requires
        is_valid(*builder),
        headers_distinct(builder.config.headers@),
        builder.config.headers@.len() <= 6_554,
        out is Some,
        call_ensures(
            otel_otlp_metric_exporter_builder_build::<E>,
            (errors, features, Some(builder), out),
            r,
        ),
    ensures
        builder.config.transport is HttpProtobuf ==> (r is Ok <==> features.otlp_http),
        builder.config.transport is Grpc ==> (r is Ok <==> features.otlp_grpc && forall|i: int|
            0 <= i < builder.config.headers@.len() ==> sendable(#[trigger] builder.config.headers@[i])),
        r matches Err(status) ==> status == OtelStatus::InvalidConfig || status
            == OtelStatus::InvalidArgument,
        r matches Err(status) ==> (status == OtelStatus::InvalidArgument ==> exists|i: int|
            0 <= i < builder.config.headers@.len() && !sendable(
                #[trigger] builder.config.headers@[i],
            )),
{
    lemma_first_bad(builder.config.headers@, 0);
}

/// An endpoint that a Metrics builder was given is the endpoint of the exporter that its build asks
/// for.
pub proof fn metric_endpoint_reaches_the_plan<'a, E>(
    setting: &mut ErrorState,
    edited: &mut OtelOtlpMetricExporterBuilder,
    endpoint: OtelStringView,
    status: OtelStatus,
    errors: &mut ErrorState,
    features: Features,
    builder: &'a OtelOtlpMetricExporterBuilder,
    out: Option<&mut Option<OtelMetricExporter<E>>>,
    plan: OtlpPlan<'a>,
)
    requires
        is_valid(*old(edited)),
        call_ensures(otel_otlp_metric_exporter_builder_set_endpoint, (setting, Some(edited), endpoint), status),
        status == OtelStatus::Success,
        *builder == *final(edited),
        call_ensures(
            otel_otlp_metric_exporter_builder_build::<E>,
            (errors, features, Some(builder), out),
            Ok::<OtlpPlan<'a>, OtelStatus>(plan),
        ),
    ensures
        settings_in(plan).endpoint matches Some(kept) && endpoint.text() matches Ok(text) && kept@
            == text,
{
}

/// An exporter that came about gets a live handle that owns it, and a failed build leaves `out` as
/// it is: a runtime that could not be made is the library's failure, and everything else a matter
/// of configuration.
pub proof fn metric_build_ends_in_a_handle_or_an_error<E>(
    errors: &mut ErrorState,
    built: Result<E, BuildFailure>,
    out: &mut Option<OtelMetricExporter<E>>,
    r: OtelStatus,
)
    requires
        call_ensures(metric_exporter_built::<E>, (errors, built, out), r),
    ensures
        r == OtelStatus::Success <==> built is Ok,
        built matches Ok(exporter) ==> (*final(out) matches Some(handle) && is_valid(handle)
            && handle.exporter == MetricExporterImpl::<E>::Otlp(exporter)),
        built is Err ==> *final(out) == *old(out) && final(errors).last_status == r,
        built matches Err(failure) ==> (if failure is Runtime {
            r == OtelStatus::InternalError
        } else {
            r == OtelStatus::InvalidConfig
        }),
{
}

/// A Metrics builder can be destroyed once, and anything but a live builder is left alone.
pub proof fn metric_builder_is_destroyed_once(
    builder: &mut Option<OtelOtlpMetricExporterBuilder>,
)
    requires
        call_ensures(otel_otlp_metric_exporter_builder_destroy, (builder,), ()),
    ensures
        *old(builder) matches Some(handle) && is_valid(handle) ==> *final(builder) is None,
        !(*old(builder) matches Some(handle) && is_valid(handle)) ==> *final(builder) == *old(builder),
{
}

/// The variables decide on the protocol by name, whatever the ASCII case: a value is recognized
/// exactly when it is `grpc` or `http/protobuf`.
pub proof fn protocols_are_known_by_name(value: &str, r: Option<OtlpProtocol>)
    requires
        call_ensures(parse_protocol, (value,), r),
    ensures
        r == Some(OtlpProtocol::Grpc) <==> same_name(value@, "grpc"@),
        r == Some(OtlpProtocol::HttpProtobuf) <==> same_name(value@, "http/protobuf"@),
{
    lemma_same_name(value@, "grpc"@);
    lemma_same_name(value@, "http/protobuf"@);
    lemma_protocol_names(value@);
}

/// The names of the two protocols are different.
proof fn lemma_protocol_names(value: Seq<char>)
    ensures
        !(same_name(value, "grpc"@) && same_name(value, "http/protobuf"@)),
{
    reveal_strlit("grpc");
    reveal_strlit("http/protobuf");
    let a = encode_utf8("grpc"@);
    let b = encode_utf8("http/protobuf"@);
    vstd::utf8::is_ascii_chars_encode_utf8("grpc"@);
    vstd::utf8::is_ascii_chars_encode_utf8("http/protobuf"@);
    assert(folded(a).len() == a.len() && folded(b).len() == b.len());
}

/// The configuration asks for gRPC: by selection, or without one by the variables, of which the
/// signal's own wins over the generic one.
pub open spec fn asks_for_grpc(
    config: OtlpExporterConfig,
    specific: Option<String>,
    generic: Option<String>,
) -> bool {
    if config.transport_set {
        config.transport is Grpc
    } else {
        says(specific, "grpc"@) || (!says(specific, "http/protobuf"@) && says(generic, "grpc"@))
    }
}

proof fn lemma_asked(
    config: OtlpExporterConfig,
    specific: Option<String>,
    generic: Option<String>,
)
    ensures
        crate::otlp_exporter::chosen_transport(config, specific, generic) == (if asks_for_grpc(
            config,
            specific,
            generic,
        ) {
            Transport::Grpc
        } else {
            Transport::HttpProtobuf
        }),
{
    if let Some(text) = specific {
        lemma_same_name(text@, "grpc"@);
        lemma_same_name(text@, "http/protobuf"@);
        lemma_protocol_names(text@);
    }
    if let Some(text) = generic {
        lemma_same_name(text@, "grpc"@);
        lemma_same_name(text@, "http/protobuf"@);
        lemma_protocol_names(text@);
    }
}

/// The text is set: there is one, and it is not empty.
pub open spec fn is_set(value: Option<String>) -> bool {
    value matches Some(text) && text@.len() > 0
}

/// The value is set to this name.
pub open spec fn says(value: Option<String>, name: Seq<char>) -> bool {
    value matches Some(text) && text@.len() > 0 && same_name(text@, name)
}

/// The signal's own variable wins over the generic one, a value that names no protocol is passed
/// over, and without any the protocol is HTTP. There is one warning for each value that was looked
/// at and passed over.
pub proof fn own_variable_wins(
    signal_name: &str,
    specific: Option<String>,
    generic: Option<String>,
    r: (OtlpProtocol, Vec<String>),
)
    requires
        call_ensures(otlp_protocol, (signal_name, specific, generic), r),
    ensures
        says(specific, "grpc"@) ==> r.0 is Grpc && r.1@.len() == 0,
        says(specific, "http/protobuf"@) ==> r.0 is HttpProtobuf && r.1@.len() == 0,
        !says(specific, "grpc"@) && !says(specific, "http/protobuf"@) ==> {
            let passed: int = if is_set(specific) {
                1
            } else {
                0
            };
            &&& says(generic, "grpc"@) ==> r.0 is Grpc && r.1@.len() == passed
            &&& !says(generic, "grpc"@) ==> r.0 is HttpProtobuf
            &&& says(generic, "http/protobuf"@) ==> r.1@.len() == passed
            &&& !says(generic, "grpc"@) && !says(generic, "http/protobuf"@) ==> r.1@.len() == passed
                + (if is_set(generic) {
                1int
            } else {
                0int
            })
        },
        is_set(specific) && r.1@.len() > 0 && !says(specific, "grpc"@) && !says(
            specific,
            "http/protobuf"@,
        ) ==> r.1@[0]@ == "ignoring unrecognized "@ + signal_name@
            + " value; supported values are grpc and http/protobuf"@,
        r.1@.len() > 0 && (!is_set(specific) || r.1@.len() == 2) ==> r.1@.last()@
            == "ignoring unrecognized "@ + "OTEL_EXPORTER_OTLP_PROTOCOL"@
            + " value; supported values are grpc and http/protobuf"@,
{
    if let Some(text) = specific {
        lemma_same_name(text@, "grpc"@);
        lemma_same_name(text@, "http/protobuf"@);
        lemma_protocol_names(text@);
    }
    if let Some(text) = generic {
        lemma_same_name(text@, "grpc"@);
        lemma_same_name(text@, "http/protobuf"@);
        lemma_protocol_names(text@);
    }
}

/// The SDK is disabled exactly by the value `true`, whatever its ASCII case, and a warning is due
/// exactly on a value that is set to neither `true` nor `false`.
pub proof fn only_true_disables(value: Option<String>, r: (bool, Option<&'static str>))
    requires
        call_ensures(sdk_disabled, (value,), r),
    ensures
        r.0 <==> says(value, "true"@),
        r.1 is Some <==> is_set(value) && !says(value, "true"@) && !says(value, "false"@),
{
    if let Some(text) = value {
        lemma_same_name(text@, "true"@);
        lemma_same_name(text@, "false"@);
    }
}

/// Looking the variables up comes to the same: a signal's own variable that names a protocol decides
/// alone, and otherwise the generic one does.
pub proof fn looked_up_protocol_is_the_named_one<F>(signal_name: &str, get: F, r: OtlpProtocol)
    where F: Fn(&str) -> Option<String>
    requires
        call_ensures(protocol_from::<F>, (signal_name, get), r),
    ensures
        (forall|value: Option<String>| #[trigger]
            get.ensures((signal_name,), value) ==> says(value, "grpc"@)) ==> r is Grpc,
        (forall|value: Option<String>| #[trigger]
            get.ensures((signal_name,), value) ==> says(value, "http/protobuf"@))
            ==> r is HttpProtobuf,
        (forall|value: Option<String>| #[trigger]
            get.ensures((signal_name,), value) ==> !is_set(value)) && (forall|
            value: Option<String>,
        | #[trigger]
            get.ensures(("OTEL_EXPORTER_OTLP_PROTOCOL",), value) ==> says(value, "grpc"@))
            ==> r is Grpc,
        (forall|value: Option<String>| #[trigger]
            get.ensures((signal_name,), value) ==> !is_set(value)) && (forall|
            value: Option<String>,
        | #[trigger]
            get.ensures(("OTEL_EXPORTER_OTLP_PROTOCOL",), value) ==> !is_set(value))
            ==> r is HttpProtobuf,
{
    let specific = choose|specific: Option<String>| #[trigger]
        get.ensures((signal_name,), specific) && (if decided(specific) is Some {
            r == decided(specific)->0
        } else {
            exists|generic: Option<String>| #[trigger]
                get.ensures((OTEL_EXPORTER_OTLP_PROTOCOL,), generic) && r == selected_protocol(
                    specific,
                    generic,
                )
        });
    lemma_decided(specific);
    if decided(specific) is None {
        let generic = choose|generic: Option<String>| #[trigger]
            get.ensures((OTEL_EXPORTER_OTLP_PROTOCOL,), generic) && r == selected_protocol(
                specific,
                generic,
            );
        lemma_decided(generic);
        assert(get.ensures(("OTEL_EXPORTER_OTLP_PROTOCOL",), generic));
    }
}

proof fn lemma_decided(value: Option<String>)
    ensures
        says(value, "grpc"@) ==> decided(value) == Some(OtlpProtocol::Grpc),
        says(value, "http/protobuf"@) ==> decided(value) == Some(OtlpProtocol::HttpProtobuf),
        !is_set(value) ==> decided(value) is None,
{
    if let Some(text) = value {
        lemma_same_name(text@, "grpc"@);
        lemma_same_name(text@, "http/protobuf"@);
        lemma_protocol_names(text@);
    }
}

/// Looking the disabling variable up comes to the same: only `true` disables.
pub proof fn looked_up_switch_is_the_set_one<F>(get: F, r: bool) where F: Fn(&str) -> Option<String>
    requires
        call_ensures(sdk_disabled_from::<F>, (get,), r),
    ensures
        (forall|value: Option<String>| #[trigger]
            get.ensures(("OTEL_SDK_DISABLED",), value) ==> says(value, "true"@)) ==> r,
        (forall|value: Option<String>| #[trigger]
            get.ensures(("OTEL_SDK_DISABLED",), value) ==> !says(value, "true"@)) ==> !r,
{
    let value = choose|value: Option<String>| #[trigger]
        get.ensures((OTEL_SDK_DISABLED,), value) && r == disables(value);
    assert(get.ensures(("OTEL_SDK_DISABLED",), value));
    if let Some(text) = value {
        lemma_same_name(text@, "true"@);
    }
}

} // verus!
