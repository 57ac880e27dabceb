//! What the OTLP exporter builders of all signals share.

use vstd::prelude::*;
use vstd::utf8::encode_utf8;

use crate::abi::{AbiError, OtelStatus, OtelStringView};
use crate::env_config::OtlpProtocol;
use crate::error::{fail, fail_abi, fail_owned, ErrorState};
use crate::features::Features;
use crate::grpc_metadata::{lowered, metadata_of};
use crate::metric_data::Temporality;
use crate::text::{ascii_lower, equal_ignoring_ascii_case, same_text_ignoring_case};
use crate::time::Duration;

verus! {

/// The transports of an OTLP exporter.
#[derive(Clone, Copy, Debug, PartialEq, Eq, Structural)]
pub enum Transport {
    HttpProtobuf,
    Grpc,
}

/// The compression selected for an OTLP exporter.
#[derive(Clone, Copy, Debug, PartialEq, Eq, Structural)]
pub enum Compression {
    Off,
    Gzip,
    Zstd,
}

/// A compression that is handed to the transport.
#[derive(Clone, Copy, Debug, PartialEq, Eq, Structural)]
pub enum OtlpCompression {
    Gzip,
    Zstd,
}

/// The transport that a code selects.
pub open spec fn transport_of(code: u32) -> Option<Transport> {
    if code == 0 {
        Some(Transport::HttpProtobuf)
    } else if code == 1 {
        Some(Transport::Grpc)
    } else {
        None
    }
}

/// The transport that a code selects.
pub fn selected_transport(code: u32) -> (r: Option<Transport>)
    ensures
        r == transport_of(code),
{
    match code {
        0 => Some(Transport::HttpProtobuf),
        1 => Some(Transport::Grpc),
        _ => None,
    }
}

/// The compression that a code selects.
pub open spec fn compression_of(code: u32) -> Option<Compression> {
    if code == 0 {
        Some(Compression::Off)
    } else if code == 1 {
        Some(Compression::Gzip)
    } else if code == 2 {
        Some(Compression::Zstd)
    } else {
        None
    }
}

/// The compression that a code selects.
pub fn selected_compression(code: u32) -> (r: Option<Compression>)
    ensures
        r == compression_of(code),
{
    match code {
        0 => Some(Compression::Off),
        1 => Some(Compression::Gzip),
        2 => Some(Compression::Zstd),
        _ => None,
    }
}

/// What is handed to the transport for a selected compression.
pub open spec fn handed_compression(compression: Compression) -> Option<OtlpCompression> {
    match compression {
        Compression::Off => None,
        Compression::Gzip => Some(OtlpCompression::Gzip),
        Compression::Zstd => Some(OtlpCompression::Zstd),
    }
}

/// What is handed to the transport for a selected compression.
pub fn configured_compression(compression: Compression) -> (r: Option<OtlpCompression>)
    ensures
        r == handed_compression(compression),
{
    match compression {
        Compression::Off => None,
        Compression::Gzip => Some(OtlpCompression::Gzip),
        Compression::Zstd => Some(OtlpCompression::Zstd),
    }
}

/// The transport that speaks a protocol.
pub open spec fn transport_for(protocol: OtlpProtocol) -> Transport {
    match protocol {
        OtlpProtocol::HttpProtobuf => Transport::HttpProtobuf,
        OtlpProtocol::Grpc => Transport::Grpc,
    }
}

/// The transport that speaks a protocol.
pub fn protocol_transport(protocol: OtlpProtocol) -> (r: Transport)
    ensures
        r == transport_for(protocol),
{
    match protocol {
        OtlpProtocol::HttpProtobuf => Transport::HttpProtobuf,
        OtlpProtocol::Grpc => Transport::Grpc,
    }
}

/// The diagnostic for a transport that is not built in, if it is not.
pub open spec fn transport_fault(
    signal: Seq<char>,
    features: Features,
    transport: Transport,
) -> Option<Seq<char>> {
    match transport {
        Transport::HttpProtobuf => if features.otlp_http {
            None
        } else {
            Some(
                "OTLP HTTP/protobuf "@ + signal
                    + " transport is unavailable: rebuild with `otlp-http`"@,
            )
        },
        Transport::Grpc => if features.otlp_grpc {
            None
        } else {
            Some("OTLP gRPC "@ + signal + " transport is unavailable: rebuild with `otlp-grpc`"@)
        },
    }
}

/// Refuses a transport that is not built in.
pub fn validate_transport_available(
    errors: &mut ErrorState,
    signal: &str,
    features: Features,
    transport: Transport,
) -> (r: Result<(), OtelStatus>)
    ensures
        match transport_fault(signal@, features, transport) {
            None => r is Ok && *final(errors) == *old(errors),
            Some(message) => r == Err::<(), OtelStatus>(OtelStatus::InvalidConfig) && final(errors).holds(
                OtelStatus::InvalidConfig,
                message,
            ),
        },
{
    match transport {
        Transport::HttpProtobuf => {
            if features.otlp_http {
                return Ok(());
            }
            let mut message = "OTLP HTTP/protobuf ".to_owned();
            message.append(signal);
            message.append(" transport is unavailable: rebuild with `otlp-http`");
            Err(fail_owned(errors, OtelStatus::InvalidConfig, message))
        },
        Transport::Grpc => {
            if features.otlp_grpc {
                return Ok(());
            }
            let mut message = "OTLP gRPC ".to_owned();
            message.append(signal);
            message.append(" transport is unavailable: rebuild with `otlp-grpc`");
            Err(fail_owned(errors, OtelStatus::InvalidConfig, message))
        },
    }
}

/// The diagnostic for a compression that is not built in, if it is not.
pub open spec fn compression_fault(
    features: Features,
    transport: Transport,
    compression: Compression,
) -> Option<Seq<char>> {
    match (transport, compression) {
        (_, Compression::Off) => None,
        (Transport::HttpProtobuf, Compression::Gzip) => if features.otlp_http_gzip {
            None
        } else {
            Some(
                "OTLP HTTP/protobuf gzip compression is unavailable: rebuild with `otlp-http-gzip`"@,
            )
        },
        (Transport::HttpProtobuf, Compression::Zstd) => if features.otlp_http_zstd {
            None
        } else {
            Some(
                "OTLP HTTP/protobuf zstd compression is unavailable: rebuild with `otlp-http-zstd`"@,
            )
        },
        (Transport::Grpc, Compression::Gzip) => if features.otlp_grpc_gzip {
            None
        } else {
            Some("OTLP gRPC gzip compression is unavailable: rebuild with `otlp-grpc-gzip`"@)
        },
        (Transport::Grpc, Compression::Zstd) => if features.otlp_grpc_zstd {
            None
        } else {
            Some("OTLP gRPC zstd compression is unavailable: rebuild with `otlp-grpc-zstd`"@)
        },
    }
}

/// Refuses a compression that is not built in for the transport.
pub fn validate_compression_available(
    errors: &mut ErrorState,
    features: Features,
    transport: Transport,
    compression: Compression,
) -> (r: Result<(), OtelStatus>)
    ensures
        match compression_fault(features, transport, compression) {
            None => r is Ok && *final(errors) == *old(errors),
            Some(message) => r == Err::<(), OtelStatus>(OtelStatus::InvalidConfig) && final(errors).holds(
                OtelStatus::InvalidConfig,
                message,
            ),
        },
{
    let missing = match (transport, compression) {
        (Transport::HttpProtobuf, Compression::Gzip) => if features.otlp_http_gzip {
            None
        } else {
            Some(
                "OTLP HTTP/protobuf gzip compression is unavailable: rebuild with `otlp-http-gzip`",
            )
        },
        (Transport::HttpProtobuf, Compression::Zstd) => if features.otlp_http_zstd {
            None
        } else {
            Some(
                "OTLP HTTP/protobuf zstd compression is unavailable: rebuild with `otlp-http-zstd`",
            )
        },
        (Transport::Grpc, Compression::Gzip) => if features.otlp_grpc_gzip {
            None
        } else {
            Some("OTLP gRPC gzip compression is unavailable: rebuild with `otlp-grpc-gzip`")
        },
        (Transport::Grpc, Compression::Zstd) => if features.otlp_grpc_zstd {
            None
        } else {
            Some("OTLP gRPC zstd compression is unavailable: rebuild with `otlp-grpc-zstd`")
        },
        (_, Compression::Off) => None,
    };
    match missing {
        None => Ok(()),
        Some(message) => Err(fail(errors, OtelStatus::InvalidConfig, message)),
    }
}

/// The key stands among the headers already, whatever its ASCII case.
pub open spec fn has_header(headers: Seq<(String, String)>, key: Seq<char>) -> bool {
    exists|i: int|
        0 <= i < headers.len() && equal_ignoring_ascii_case(
            encode_utf8((#[trigger] headers[i]).0@),
            encode_utf8(key),
        )
}

/// Every key has text, and no two are equal up to ASCII case.
pub open spec fn headers_distinct(headers: Seq<(String, String)>) -> bool {
    &&& forall|i: int| 0 <= i < headers.len() ==> (#[trigger] headers[i]).0@.len() > 0
    &&& forall|i: int, j: int|
        0 <= i < j < headers.len() ==> !equal_ignoring_ascii_case(
            encode_utf8((#[trigger] headers[i]).0@),
            encode_utf8((#[trigger] headers[j]).0@),
        )
}

/// Why a header is refused, if it is. The value does not show in any diagnostic: it may be a
/// secret.
pub open spec fn header_refusal(
    headers: Seq<(String, String)>,
    key: Result<Seq<char>, AbiError>,
    value: Result<Seq<char>, AbiError>,
    empty: Seq<char>,
    duplicate: Seq<char>,
) -> Option<(OtelStatus, Seq<char>)> {
    match key {
        Err(e) => Some((e.spec_status(), e.spec_message())),
        Ok(k) => if k.len() == 0 {
            Some((OtelStatus::InvalidArgument, empty))
        } else if has_header(headers, k) {
            Some((OtelStatus::InvalidArgument, duplicate + k))
        } else {
            match value {
                Err(e) => Some((e.spec_status(), e.spec_message())),
                Ok(_) => None,
            }
        },
    }
}

/// One header was appended.
pub open spec fn header_added(
    before: Seq<(String, String)>,
    after: Seq<(String, String)>,
    key: Seq<char>,
    value: Seq<char>,
) -> bool {
    &&& after.len() == before.len() + 1
    &&& after.drop_last() == before
    &&& after.last().0@ == key
    &&& after.last().1@ == value
}

fn contains_header(headers: &Vec<(String, String)>, key: &str) -> (r: bool)
    ensures
        r == has_header(headers@, key@),
{
    let mut i: usize = 0;
    while i < headers.len()
        invariant
            i <= headers@.len(),
            forall|j: int|
                0 <= j < i ==> !equal_ignoring_ascii_case(
                    encode_utf8((#[trigger] headers@[j]).0@),
                    encode_utf8(key@),
                ),
        decreases headers@.len() - i,
    {
        if same_text_ignoring_case(headers[i].0.as_str(), key) {
            assert(equal_ignoring_ascii_case(
                encode_utf8(headers@[i as int].0@),
                encode_utf8(key@),
            ));
            return true;
        }
        i += 1;
    }
    false
}

/// Appends a header, unless its key is empty or taken or a text cannot be read.
pub fn add_header(
    errors: &mut ErrorState,
    headers: &mut Vec<(String, String)>,
    key: OtelStringView,
    value: OtelStringView,
    empty: &str,
    duplicate: &str,
) -> (r: OtelStatus)
    ensures
        match header_refusal(old(headers)@, key.text(), value.text(), empty@, duplicate@) {
            Some((status, message)) => {
                &&& r == status
                &&& final(errors).holds(status, message)
                &&& final(headers)@ == old(headers)@
            },
            None => {
                &&& r == OtelStatus::Success
                &&& *final(errors) == *old(errors)
                &&& header_added(old(headers)@, final(headers)@, key.text()->Ok_0, value.text()->Ok_0)
            },
        },
        headers_distinct(old(headers)@) ==> headers_distinct(final(headers)@),
{
    let key = match key.to_string_strict() {
        Ok(key) => key,
        Err(e) => return fail_abi(errors, e),
    };
    if key.as_str().is_empty() {
        return fail(errors, OtelStatus::InvalidArgument, empty);
    }
    if contains_header(headers, key.as_str()) {
        let mut message = duplicate.to_owned();
        message.append(key.as_str());
        return fail_owned(errors, OtelStatus::InvalidArgument, message);
    }
    let value = match value.to_string_strict() {
        Ok(value) => value,
        Err(e) => return fail_abi(errors, e),
    };
    headers.push((key, value));
    assert(headers@.drop_last() =~= old(headers)@);
    OtelStatus::Success
}

/// The settings that go to either transport; `None` leaves one to its default.
#[derive(Debug)]
pub struct OtlpSettings<'a> {
    pub endpoint: Option<&'a String>,
    pub timeout: Option<Duration>,
    pub compression: Option<OtlpCompression>,
    pub temporality: Option<Temporality>,
}

/// The exporter that a configuration asks for.
#[derive(Debug)]
pub enum OtlpPlan<'a> {
    Http { settings: OtlpSettings<'a>, headers: &'a Vec<(String, String)> },
    /// The metadata is made of the headers.
    Grpc { settings: OtlpSettings<'a>, metadata: tonic::metadata::MetadataMap },
}

/// Why an exporter that was asked for did not come about, with the cause in words.
#[derive(Debug)]
pub enum BuildFailure {
    Http(String),
    Runtime(String),
    Grpc(String),
}

/// The status of a failed build.
pub open spec fn build_failure_status(failure: BuildFailure) -> OtelStatus {
    match failure {
        BuildFailure::Runtime(_) => OtelStatus::InternalError,
        _ => OtelStatus::InvalidConfig,
    }
}

/// The diagnostic of a failed build.
pub open spec fn build_failure_message(signal: Seq<char>, failure: BuildFailure) -> Seq<char> {
    match failure {
        BuildFailure::Http(cause) => "failed to build OTLP HTTP "@ + signal + " exporter: "@
            + cause@,
        BuildFailure::Runtime(cause) => "failed to create OTLP gRPC runtime: "@ + cause@,
        BuildFailure::Grpc(cause) => "failed to build OTLP gRPC "@ + signal + " exporter: "@
            + cause@,
    }
}

/// Records a failed build.
pub fn fail_build(errors: &mut ErrorState, signal: &str, failure: &BuildFailure) -> (r: OtelStatus)
    ensures
        r == build_failure_status(*failure),
        final(errors).holds(r, build_failure_message(signal@, *failure)),
{
    match failure {
        BuildFailure::Http(cause) => {
            let mut message = "failed to build OTLP HTTP ".to_owned();
            message.append(signal);
            message.append(" exporter: ");
            message.append(cause.as_str());
            fail_owned(errors, OtelStatus::InvalidConfig, message)
        },
        BuildFailure::Runtime(cause) => {
            let mut message = "failed to create OTLP gRPC runtime: ".to_owned();
            message.append(cause.as_str());
            fail_owned(errors, OtelStatus::InternalError, message)
        },
        BuildFailure::Grpc(cause) => {
            let mut message = "failed to build OTLP gRPC ".to_owned();
            message.append(signal);
            message.append(" exporter: ");
            message.append(cause.as_str());
            fail_owned(errors, OtelStatus::InvalidConfig, message)
        },
    }
}

proof fn lemma_own_value(headers: Seq<(String, String)>, n: int, i: int)
    requires
        headers_distinct(headers),
        0 <= i < n <= headers.len(),
    ensures
        metadata_of(headers, n).contains_key(lowered(encode_utf8(headers[i].0@))),
        metadata_of(headers, n)[lowered(encode_utf8(headers[i].0@))] == seq![
            encode_utf8(headers[i].1@),
        ],
    decreases n,
{
    if i < n - 1 {
        lemma_own_value(headers, n - 1, i);
        lemma_different_names(headers, i, n - 1);
    }
}

proof fn lemma_different_names(headers: Seq<(String, String)>, i: int, j: int)
    requires
        headers_distinct(headers),
        0 <= i < j < headers.len(),
    ensures
        lowered(encode_utf8(headers[i].0@)) != lowered(encode_utf8(headers[j].0@)),
{
    let a = encode_utf8(headers[i].0@);
    let b = encode_utf8(headers[j].0@);
    if lowered(a) == lowered(b) {
        assert(a.len() == lowered(a).len());
        assert(b.len() == lowered(b).len());
        assert forall|k: int| 0 <= k < a.len() implies ascii_lower(#[trigger] a[k]) == ascii_lower(
            b[k],
        ) by {
            assert(lowered(a)[k] == lowered(b)[k]);
        }
        assert(equal_ignoring_ascii_case(a, b));
    }
}

proof fn lemma_no_name_beyond(headers: Seq<(String, String)>, n: int, j: int)
    requires
        headers_distinct(headers),
        0 <= n <= j < headers.len(),
    ensures
        !metadata_of(headers, n).contains_key(lowered(encode_utf8(headers[j].0@))),
    decreases n,
{
    if n > 0 {
        lemma_no_name_beyond(headers, n - 1, j);
        lemma_different_names(headers, n - 1, j);
    }
}

proof fn lemma_one_entry_each(headers: Seq<(String, String)>, n: int)
    requires
        headers_distinct(headers),
        0 <= n <= headers.len(),
    ensures
        metadata_of(headers, n).dom().finite(),
        metadata_of(headers, n).dom().len() == n,
    decreases n,
{
    if n > 0 {
        lemma_one_entry_each(headers, n - 1);
        lemma_no_name_beyond(headers, n - 1, n - 1);
        let before = metadata_of(headers, n - 1);
        let key = lowered(encode_utf8(headers[n - 1].0@));
        assert(metadata_of(headers, n).dom() =~= before.dom().insert(key));
    } else {
        assert(metadata_of(headers, n).dom() =~= Set::<Seq<u8>>::empty());
    }
}

/// No header replaces another: keys that were accepted one by one become as many metadata
/// entries, each of which holds the value that was given with its key.
pub proof fn no_header_replaces_another(headers: Seq<(String, String)>, i: int)
    requires
        headers_distinct(headers),
        0 <= i < headers.len(),
    ensures
        metadata_of(headers, headers.len() as int)[lowered(encode_utf8(headers[i].0@))] == seq![
            encode_utf8(headers[i].1@),
        ],
        metadata_of(headers, headers.len() as int).dom().len() == headers.len(),
{
    lemma_own_value(headers, headers.len() as int, i);
    lemma_one_entry_each(headers, headers.len() as int);
}

/// No diagnostic of a refused header depends on its value, as long as the value can be read.
pub proof fn refusals_hide_header_values(
    headers: Seq<(String, String)>,
    key: Result<Seq<char>, AbiError>,
    value: Seq<char>,
    other: Seq<char>,
    empty: Seq<char>,
    duplicate: Seq<char>,
)
    ensures
        header_refusal(headers, key, Ok(value), empty, duplicate) == header_refusal(
            headers,
            key,
            Ok(other),
            empty,
            duplicate,
        ),
{
}

} // verus!
