//! What the library says of a failure: which limit was exceeded and by how much, which field is at
//! fault, and which setting cannot be had.

use vstd::prelude::*;
use vstd::utf8::encode_utf8;

use crate::abi::{AbiError, OtelStatus, OtelStringView};
use crate::env_config::OtlpProtocol;
use crate::error::ErrorState;
use crate::export_error::{ConversionError, MemoryUse};
use crate::features::Features;
use crate::handle::into_raw;
use crate::log_convert::ConvertFault;
use crate::log_emit::{report_emission, LogRecord, RecordFault};
use crate::log_validate::PoolFault;
use crate::metric_exporter::MetricExporterImpl;
use crate::metric_instrument::{binding_panicked, creation_panicked};
use crate::otlp_config::{
    add_header, configured_compression, fail_build, protocol_transport, selected_compression,
    selected_transport, validate_compression_available, validate_transport_available, BuildFailure,
    Compression, OtlpCompression, Transport,
};
use crate::text::{decimal, same_text_ignoring_case};

verus! {

/// A text that cannot be read says whether it is missing or malformed.
pub proof fn unreadable_texts_are_told(fault: AbiError, text: &'static str)
    requires
        call_ensures(AbiError::message, (fault,), text),
    ensures
        match fault {
            AbiError::NullData => text@ == "view has a NULL pointer with a non-zero length"@,
            AbiError::InvalidUtf8 => text@ == "string view is not valid UTF-8"@,
        },
{
}

/// Memory that was refused says what it was for.
pub proof fn refused_memory_is_told(fault: MemoryUse, text: String)
    requires
        call_ensures(MemoryUse::message, (&fault,), text),
    ensures
        match fault {
            MemoryUse::Elements(n) => text@ == "failed to allocate "@ + decimal(n as nat) + " elements for the exported log batch view"@,
            MemoryUse::Nodes(n) => text@ == "failed to allocate "@ + decimal(n as nat) + " exported log value nodes"@,
            MemoryUse::WorkQueue => text@ == "failed to allocate the exported log conversion work queue"@,
            MemoryUse::MapOrder => text@ == "failed to allocate an exported log map ordering"@,
            MemoryUse::ArrayAttribute => text@ == "failed to allocate an exported array attribute"@,
            MemoryUse::RecordAttributes => text@ == "failed to allocate the exported log record attribute list"@,
            MemoryUse::ScopeAttributes => text@ == "failed to allocate the exported log scope attribute list"@,
            MemoryUse::ResourceAttributes => text@ == "failed to allocate the exported log resource attribute list"@,
            MemoryUse::Piece(what) => text@ == "failed to allocate an exported log "@ + what@,
        },
{
}

/// A batch that cannot be exported says which limit is exceeded and by how much, or which field is
/// at fault.
pub proof fn failed_exports_are_told(fault: ConversionError, text: String, reason: String)
    requires
        call_ensures(ConversionError::message, (&fault,), text),
    ensures
        match fault {
            ConversionError::StringTooLong(n) => text@ == "exported log string of "@ + decimal(n as nat) + " bytes exceeds the "@ + decimal(1_048_576) + "-byte limit"@,
            ConversionError::BytesTooLong(n) => text@ == "exported log byte value of "@ + decimal(n as nat) + " bytes exceeds the "@ + decimal(1_048_576) + "-byte limit"@,
            ConversionError::ArrayTooLarge(n) => text@ == "exported log array of "@ + decimal(n as nat) + " elements exceeds the "@ + decimal(1024) + "-element limit"@,
            ConversionError::MapTooLarge(n) => text@ == "exported log map of "@ + decimal(n as nat) + " entries exceeds the "@ + decimal(1024) + "-entry limit"@,
            ConversionError::AttributeArrayTooLarge(n) => text@ == "exported attribute array of "@ + decimal(n as nat) + " elements exceeds the "@ + decimal(1024) + "-element limit"@,
            ConversionError::TooManyAttributes(n) => text@ == "exported log owner carries "@ + decimal(n as nat) + " attributes, above the "@ + decimal(1024) + "-attribute limit"@,
            ConversionError::TooManyNodes(n) => text@ == "exported log value needs "@ + decimal(n as nat) + " nodes, above the "@ + decimal(8192) + "-node limit"@,
            ConversionError::NodeIndexRange => text@ == "exported log value node index exceeds the 32-bit pool range"@,
            ConversionError::ContainerRange => text@ == "exported log container size exceeds the 32-bit pool range"@,
            ConversionError::NodeCountOverflow => text@ == "exported log value node count overflowed the address space"@,
            ConversionError::TooDeep => text@ == "exported log value nesting exceeds the "@ + decimal(32) + "-level limit"@,
            ConversionError::UnknownKind => text@ == "exported log value uses a value kind that this ABI version cannot represent"@,
            ConversionError::UnknownArrayElement => text@ == "exported attribute array uses an unsupported element type"@,
            ConversionError::UnknownAttribute => text@ == "exported attribute uses an unsupported value type"@,
            ConversionError::PredatesEpoch(what) => text@ == "exported log "@ + what@ + " predates the Unix epoch"@,
            ConversionError::TimeRange(what) => text@ == "exported log "@ + what@ + " exceeds the u64 range"@,
            ConversionError::TooManyRecords => text@ == "exported log batch carries more than "@ + decimal(65_536) + " records"@,
            ConversionError::Memory(_, purpose) => call_ensures(MemoryUse::message, (&purpose,), reason) ==> text@ == reason@,
        },
{
}

/// A refused pool of values says what is wrong with it.
pub proof fn refused_pools_are_told(fault: PoolFault, text: String)
    requires
        call_ensures(PoolFault::message, (&fault,), text),
    ensures
        match fault {
            PoolFault::ValueReserved => text@ == "log value reserved field must be zero"@,
            PoolFault::UnknownTag => text@ == "log value has an unknown value_type tag"@,
            PoolFault::EmptyValue => text@ == "an empty log value is only valid as an absent record body"@,
            PoolFault::View(e) => match e {
                AbiError::NullData => text@ == "view has a NULL pointer with a non-zero length"@,
                AbiError::InvalidUtf8 => text@ == "string view is not valid UTF-8"@,
            },
            PoolFault::StringTooLong => text@ == "log string value exceeds the maximum supported length"@,
            PoolFault::BytesTooLong => text@ == "log bytes value exceeds the maximum supported length"@,
            PoolFault::ContainerTooLarge => text@ == "log container exceeds the maximum supported element count"@,
            PoolFault::RangeOverflow => text@ == "log container child range overflows"@,
            PoolFault::RangeOutside => text@ == "log container child range is outside the node pool"@,
            PoolFault::NotForward => text@ == "log container children must live at a strictly greater pool index"@,
            PoolFault::Shared => text@ == "log value node is referenced more than once"@,
            PoolFault::ArrayKey => text@ == "array element nodes must have an empty key"@,
            PoolFault::EmptyMapKey => text@ == "map entry nodes must have a non-empty key"@,
            PoolFault::MapKeyTooLong => text@ == "map entry key exceeds the maximum supported length"@,
            PoolFault::DuplicateKey => text@ == "duplicate key in a log map value"@,
            PoolFault::Unreferenced(index) => text@ == "log value node "@ + decimal(index as nat) + " is not referenced by any container or root"@,
            PoolFault::TooDeep => text@ == "log value nesting exceeds the maximum supported depth"@,
            PoolFault::ValidationMemory(_) => text@ == "failed to allocate log record conversion state"@,
            PoolFault::MapKeyMemory(_) => text@ == "failed to allocate map key validation state"@,
        },
{
}

/// A conversion that stops says why.
pub proof fn stopped_conversions_are_told(fault: ConvertFault, text: String)
    requires
        call_ensures(ConvertFault::message, (&fault,), text),
    ensures
        match fault {
            ConvertFault::TagChanged => text@ == "log value tag changed during conversion"@,
            ConvertFault::EmptyReached => text@ == "an empty log value reached conversion"@,
            ConvertFault::View(e) => match e {
                AbiError::NullData => text@ == "view has a NULL pointer with a non-zero length"@,
                AbiError::InvalidUtf8 => text@ == "string view is not valid UTF-8"@,
            },
            ConvertFault::ConsumedTwice => text@ == "log value node was consumed twice"@,
            ConvertFault::StateMemory(_) => text@ == "failed to allocate log record conversion state"@,
            ConvertFault::BytesMemory(_) => text@ == "failed to allocate log bytes value"@,
            ConvertFault::ArrayMemory(_) => text@ == "failed to allocate log array value"@,
            ConvertFault::MapMemory(_) => text@ == "failed to allocate log map value"@,
        },
{
}

/// A refused record says which field is at fault.
pub proof fn refused_records_are_told(fault: RecordFault, text: String, reason: String)
    requires
        call_ensures(RecordFault::message, (&fault,), text),
    ensures
        match fault {
            RecordFault::RecordReserved => text@ == "log record reserved fields must be zero"@,
            RecordFault::UnknownFields => text@ == "log record present_fields contains bits unknown to this library version"@,
            RecordFault::SeverityRange => text@ == "log record severity_number must be 0 (absent) or 1..=24"@,
            RecordFault::TooManyAttributes => text@ == "log record exceeds the maximum supported attribute count"@,
            RecordFault::TooManyNodes => text@ == "log record exceeds the maximum supported value node count"@,
            RecordFault::NullAttributes => text@ == "log record attribute_count is non-zero but attributes is NULL"@,
            RecordFault::NullNodes => text@ == "log record value_node_count is non-zero but value_nodes is NULL"@,
            RecordFault::AttributeView(e) => match e {
                AbiError::NullData => text@ == "view has a NULL pointer with a non-zero length"@,
                AbiError::InvalidUtf8 => text@ == "string view is not valid UTF-8"@,
            },
            RecordFault::EmptyAttributeKey => text@ == "log record attribute keys must not be empty"@,
            RecordFault::AttributeKeyTooLong => text@ == "log record attribute key exceeds the maximum supported length"@,
            RecordFault::Pool(e) => call_ensures(PoolFault::message, (&e,), reason) ==> text@ == reason@,
            RecordFault::Convert(e) => call_ensures(ConvertFault::message, (&e,), reason) ==> text@ == reason@,
            RecordFault::TimestampRange => text@ == "log record timestamp is not representable as a system time"@,
            RecordFault::ObservedTimestampRange => text@ == "log record observed timestamp is not representable as a system time"@,
            RecordFault::TraceReserved => text@ == "log record trace context reserved bytes must be zero"@,
            RecordFault::TraceFlags => text@ == "log record trace context uses trace flags unknown to this library version"@,
            RecordFault::ZeroTraceId => text@ == "log record trace context trace_id must not be all zero"@,
            RecordFault::ZeroSpanId => text@ == "log record trace context span_id must not be all zero"@,
            RecordFault::RootMemory(_) => text@ == "failed to allocate log record root list"@,
            RecordFault::KeyMemory(_) => text@ == "failed to allocate log attribute key list"@,
        },
{
}

/// A refused record leaves its status and its diagnostic in the error slot, and an accepted one is
/// handed on with the slot as it was.
pub proof fn emissions_are_reported(
    errors: &mut ErrorState,
    outcome: Result<LogRecord, RecordFault>,
    r: Result<LogRecord, OtelStatus>,
    status: OtelStatus,
    text: String,
)
    requires
        call_ensures(report_emission, (errors, outcome), r),
        outcome matches Err(fault) ==> call_ensures(RecordFault::status, (&fault,), status)
            && call_ensures(RecordFault::message, (&fault,), text),
    ensures
        outcome matches Ok(emitted) ==> r == Ok::<LogRecord, OtelStatus>(emitted) && *final(errors)
            == *old(errors),
        outcome is Err ==> {
            &&& r == Err::<LogRecord, OtelStatus>(status)
            &&& final(errors).last_status == status
            &&& final(errors).message@ == text@
        },
{
}

/// A panic of the instrument library is the library's failure and is told.
pub proof fn panics_are_told(
    creating: &mut ErrorState,
    created: OtelStatus,
    binding: &mut ErrorState,
    bound: OtelStatus,
)
    requires
        call_ensures(creation_panicked, (creating,), created),
        call_ensures(binding_panicked, (binding,), bound),
    ensures
        created == OtelStatus::InternalError,
        bound == OtelStatus::InternalError,
        final(creating).last_status == OtelStatus::InternalError,
        final(binding).last_status == OtelStatus::InternalError,
        final(creating).message@ == "metric instrument creation panicked"@,
        final(binding).message@ == "panic while binding metric instrument"@,
{
}

/// The codes of the transports and of the compressions, and what is handed on for them.
pub proof fn codes_select_settings(
    code: u32,
    transport: Option<Transport>,
    compression: Option<Compression>,
    chosen: Compression,
    handed: Option<OtlpCompression>,
    protocol: OtlpProtocol,
    spoken: Transport,
)
    requires
        call_ensures(selected_transport, (code,), transport),
        call_ensures(selected_compression, (code,), compression),
        call_ensures(configured_compression, (chosen,), handed),
        call_ensures(protocol_transport, (protocol,), spoken),
    ensures
        code == 0 <==> transport == Some(Transport::HttpProtobuf),
        code == 1 <==> transport == Some(Transport::Grpc),
        code > 1 <==> transport is None,
        code == 0 <==> compression == Some(Compression::Off),
        code == 1 <==> compression == Some(Compression::Gzip),
        code == 2 <==> compression == Some(Compression::Zstd),
        code > 2 <==> compression is None,
        chosen is Off <==> handed is None,
        chosen is Gzip <==> handed == Some(OtlpCompression::Gzip),
        chosen is Zstd <==> handed == Some(OtlpCompression::Zstd),
        protocol is HttpProtobuf <==> spoken is HttpProtobuf,
        protocol is Grpc <==> spoken is Grpc,
{
}

/// A transport is refused exactly when it is not built in, and the diagnostic names the signal and
/// the feature that is missing.
pub proof fn transports_must_be_built_in(
    errors: &mut ErrorState,
    signal: &str,
    features: Features,
    transport: Transport,
    r: Result<(), OtelStatus>,
)
    requires
        call_ensures(validate_transport_available, (errors, signal, features, transport), r),
    ensures
        transport is HttpProtobuf ==> (r is Ok <==> features.otlp_http),
        transport is Grpc ==> (r is Ok <==> features.otlp_grpc),
        r is Ok ==> *final(errors) == *old(errors),
        r matches Err(status) ==> status == OtelStatus::InvalidConfig && final(errors).last_status
            == OtelStatus::InvalidConfig,
        r is Err && transport is HttpProtobuf ==> final(errors).message@ == "OTLP HTTP/protobuf "@
            + signal@ + " transport is unavailable: rebuild with `otlp-http`"@,
        r is Err && transport is Grpc ==> final(errors).message@ == "OTLP gRPC "@ + signal@
            + " transport is unavailable: rebuild with `otlp-grpc`"@,
{
}

/// A compression is refused exactly when it is not built in for its transport, and the diagnostic
/// names the feature that is missing; to compress nothing is never refused.
pub proof fn compressions_must_be_built_in(
    errors: &mut ErrorState,
    features: Features,
    transport: Transport,
    compression: Compression,
    r: Result<(), OtelStatus>,
)
    requires
        call_ensures(validate_compression_available, (errors, features, transport, compression), r),
    ensures
        compression is Off ==> r is Ok,
        compression is Gzip && transport is HttpProtobuf ==> (r is Ok <==> features.otlp_http_gzip),
        compression is Zstd && transport is HttpProtobuf ==> (r is Ok <==> features.otlp_http_zstd),
        compression is Gzip && transport is Grpc ==> (r is Ok <==> features.otlp_grpc_gzip),
        compression is Zstd && transport is Grpc ==> (r is Ok <==> features.otlp_grpc_zstd),
        r is Ok ==> *final(errors) == *old(errors),
        r matches Err(status) ==> {
            &&& status == OtelStatus::InvalidConfig
            &&& final(errors).last_status == OtelStatus::InvalidConfig
            &&& final(errors).message@ == match (transport, compression) {
                (
                    Transport::HttpProtobuf,
                    Compression::Gzip,
                ) => "OTLP HTTP/protobuf gzip compression is unavailable: rebuild with `otlp-http-gzip`"@,
                (
                    Transport::HttpProtobuf,
                    _,
                ) => "OTLP HTTP/protobuf zstd compression is unavailable: rebuild with `otlp-http-zstd`"@,
                (
                    Transport::Grpc,
                    Compression::Gzip,
                ) => "OTLP gRPC gzip compression is unavailable: rebuild with `otlp-grpc-gzip`"@,
                (
                    Transport::Grpc,
                    _,
                ) => "OTLP gRPC zstd compression is unavailable: rebuild with `otlp-grpc-zstd`"@,
            }
        },
{
}

/// A failed build is told with its cause; that the runtime did not come up is the library's failure,
/// and any other that of the configuration.
pub proof fn failed_builds_are_told(
    errors: &mut ErrorState,
    signal: &str,
    failure: BuildFailure,
    r: OtelStatus,
)
    requires
        call_ensures(fail_build, (errors, signal, &failure), r),
    ensures
        failure is Runtime <==> r == OtelStatus::InternalError,
        !(failure is Runtime) <==> r == OtelStatus::InvalidConfig,
        final(errors).last_status == r,
        match failure {
            BuildFailure::Http(cause) => final(errors).message@ == "failed to build OTLP HTTP "@
                + signal@ + " exporter: "@ + cause@,
            BuildFailure::Runtime(cause) => final(errors).message@
                == "failed to create OTLP gRPC runtime: "@ + cause@,
            BuildFailure::Grpc(cause) => final(errors).message@ == "failed to build OTLP gRPC "@
                + signal@ + " exporter: "@ + cause@,
        },
{
}

/// Two bytes are the same letter, whatever its ASCII case, or the same byte.
pub open spec fn same_letter(a: u8, b: u8) -> bool {
    ||| a == b
    ||| 65 <= a <= 90 && b == a + 32
    ||| 65 <= b <= 90 && a == b + 32
}

/// Two texts are the same up to case exactly when they are letter for letter.
pub proof fn case_is_ignored_letter_by_letter(a: &str, b: &str, r: bool)
    requires
        call_ensures(same_text_ignoring_case, (a, b), r),
    ensures
        r <==> {
            &&& encode_utf8(a@).len() == encode_utf8(b@).len()
            &&& forall|i: int|
                0 <= i < encode_utf8(a@).len() ==> same_letter(
                    #[trigger] encode_utf8(a@)[i],
                    encode_utf8(b@)[i],
                )
        },
{
    let x = encode_utf8(a@);
    let y = encode_utf8(b@);
    if x.len() == y.len() && !r {
        let i = choose|i: int|
            0 <= i < x.len() && crate::text::ascii_lower(#[trigger] x[i])
                != crate::text::ascii_lower(y[i]);
        assert(!same_letter(x[i], y[i]));
    }
}

/// A header that is added stands last, and one that is not leaves the others as they were. It is
/// added exactly when its texts can be read and its key has text and is not taken.
pub proof fn headers_are_added_once<'a>(
    errors: &mut ErrorState,
    headers: &mut Vec<(String, String)>,
    key: OtelStringView<'a>,
    value: OtelStringView<'a>,
    name: Result<&'a str, AbiError>,
    content: Result<&'a str, AbiError>,
    empty: &str,
    duplicate: &str,
    r: OtelStatus,
)
    requires
        call_ensures(add_header, (errors, headers, key, value, empty, duplicate), r),
        call_ensures(OtelStringView::<'a>::as_str, (&key,), name),
        call_ensures(OtelStringView::<'a>::as_str, (&value,), content),
    ensures
        r == OtelStatus::Success <==> {
            &&& name is Ok
            &&& content is Ok
            &&& name->Ok_0@.len() > 0
            &&& forall|i: int|
                0 <= i < old(headers)@.len() ==> !same_name(
                    (#[trigger] old(headers)@[i]).0@,
                    name->Ok_0@,
                )
        },
        r == OtelStatus::Success ==> {
            &&& *final(errors) == *old(errors)
            &&& final(headers)@.len() == old(headers)@.len() + 1
            &&& final(headers)@.last().0@ == name->Ok_0@
            &&& final(headers)@.last().1@ == content->Ok_0@
            &&& forall|i: int|
                0 <= i < old(headers)@.len() ==> #[trigger] final(headers)@[i] == old(headers)@[i]
        },
        r != OtelStatus::Success ==> final(headers)@ == old(headers)@ && final(errors).last_status
            == r,
        name matches Ok(n) && n@.len() == 0 ==> r == OtelStatus::InvalidArgument
            && final(errors).message@ == empty@,
        name is Ok && name->Ok_0@.len() > 0 && (exists|i: int|
            0 <= i < old(headers)@.len() && same_name(
                (#[trigger] old(headers)@[i]).0@,
                name->Ok_0@,
            )) ==> r == OtelStatus::InvalidArgument && final(errors).message@ == duplicate@
            + name->Ok_0@,
{
    let before = old(headers)@;
    if name is Ok {
        let n = name->Ok_0@;
        assert forall|i: int| 0 <= i < before.len() implies (same_name(
            (#[trigger] before[i]).0@,
            n,
        ) <==> crate::text::equal_ignoring_ascii_case(encode_utf8(before[i].0@), encode_utf8(n))) by {
            lemma_same_name(before[i].0@, n);
        }
    }
    if r == OtelStatus::Success {
        assert forall|i: int| 0 <= i < before.len() implies #[trigger] final(headers)@[i]
            == before[i] by {
            assert(final(headers)@.drop_last()[i] == before[i]);
        }
    }
}

/// Two names are the same letter for letter.
pub open spec fn same_name(a: Seq<char>, b: Seq<char>) -> bool {
    &&& encode_utf8(a).len() == encode_utf8(b).len()
    &&& forall|i: int|
        0 <= i < encode_utf8(a).len() ==> same_letter(
            #[trigger] encode_utf8(a)[i],
            encode_utf8(b)[i],
        )
}

proof fn lemma_same_name(a: Seq<char>, b: Seq<char>)
    ensures
        same_name(a, b) <==> crate::text::equal_ignoring_ascii_case(encode_utf8(a), encode_utf8(b)),
{
    let x = encode_utf8(a);
    let y = encode_utf8(b);
    if x.len() == y.len() && !crate::text::equal_ignoring_ascii_case(x, y) {
        let i = choose|i: int|
            0 <= i < x.len() && crate::text::ascii_lower(#[trigger] x[i])
                != crate::text::ascii_lower(y[i]);
        assert(!same_letter(x[i], y[i]));
    }
}

/// A handle is made of what it was given, and an exporter of the caller's own is known as such.
pub proof fn handles_hold_their_values<E>(
    value: MetricExporterImpl<E>,
    own: bool,
    handle: Box<MetricExporterImpl<E>>,
)
    requires
        call_ensures(MetricExporterImpl::<E>::is_custom, (&value,), own),
        call_ensures(into_raw::<MetricExporterImpl<E>>, (value,), handle),
    ensures
        own <==> value is Custom,
        *handle == value,
{
}

} // verus!
