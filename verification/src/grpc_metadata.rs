//! The metadata that a gRPC exporter sends with every request.

use vstd::prelude::*;
use vstd::utf8::encode_utf8;

use crate::abi::OtelStatus;
use crate::error::{fail_owned, ErrorState};
use crate::handle::caught_panic;
use crate::text::{ascii_lower, lower};

verus! {

/// The entries that a metadata map takes whatever their hashes: its table never has to grow
/// beyond what it can index. Whether it takes more depends on how their names hash.
pub const GRPC_METADATA_MAX_HEADERS: usize = 6_554;

/// `tonic::metadata::MetadataMap`, known by what [`metadata_entries`] says of it.
#[verifier::external_type_specification]
#[verifier::external_body]
pub struct ExMetadataMap(tonic::metadata::MetadataMap);

/// What a metadata map holds: under the bytes of each key, the bytes of its values in order.
pub uninterp spec fn metadata_entries(map: tonic::metadata::MetadataMap) -> Map<
    Seq<u8>,
    Seq<Seq<u8>>,
>;

/// A letter, a digit, or one of the marks that a header name may hold.
pub open spec fn is_token_byte(b: u8) -> bool {
    ||| 48 <= b <= 57
    ||| 65 <= b <= 90
    ||| 94 <= b <= 122
    ||| b == 33
    ||| 35 <= b <= 39
    ||| b == 42
    ||| b == 43
    ||| b == 45
    ||| b == 46
    ||| b == 124
    ||| b == 126
}

/// The bytes with ASCII upper case mapped to lower case.
pub open spec fn lowered(bytes: Seq<u8>) -> Seq<u8> {
    Seq::new(bytes.len(), |i: int| ascii_lower(bytes[i]))
}

/// The suffix `-bin`.
pub open spec fn binary_suffix() -> Seq<u8> {
    seq![45u8, 98u8, 105u8, 110u8]
}

/// The key ends in `-bin`, whatever its ASCII case.
pub open spec fn is_binary_key(key: Seq<u8>) -> bool {
    key.len() >= 4 && lowered(key).subrange(key.len() - 4, key.len() as int) == binary_suffix()
}

/// The bytes are the name of an ASCII metadata entry.
pub open spec fn is_metadata_key(key: Seq<u8>) -> bool {
    &&& 0 < key.len() <= 65_535
    &&& forall|i: int| 0 <= i < key.len() ==> is_token_byte(#[trigger] key[i])
    &&& !is_binary_key(key)
}

/// The bytes are the value of an ASCII metadata entry: no control characters but the tab.
pub open spec fn is_metadata_value(value: Seq<u8>) -> bool {
    forall|i: int|
        0 <= i < value.len() ==> (#[trigger] value[i] >= 32 && value[i] != 127) || value[i] == 9
}

/// `tonic::metadata::MetadataMap::new`: a map without entries.
#[verifier::external_body]
fn new_metadata() -> (r: tonic::metadata::MetadataMap)
    ensures
        metadata_entries(r).dom() == Set::<Seq<u8>>::empty(),
{
    tonic::metadata::MetadataMap::new()
}

/// Whether `tonic::metadata::MetadataKey::<Ascii>::from_bytes` accepts the bytes: one to 65535 of
/// the bytes that a header name may hold, not ending in `-bin` in any case.
#[verifier::external_body]
fn accepts_key(key: &[u8]) -> (r: bool)
    ensures
        r == is_metadata_key(key@),
{
    tonic::metadata::MetadataKey::<tonic::metadata::Ascii>::from_bytes(key).is_ok()
}

/// Whether `tonic::metadata::MetadataValue::<Ascii>::try_from` accepts the text: no byte below 32
/// but the tab, and not the byte 127.
#[verifier::external_body]
fn accepts_value(value: &str) -> (r: bool)
    ensures
        r == is_metadata_value(encode_utf8(value@)),
{
    tonic::metadata::MetadataValue::<tonic::metadata::Ascii>::try_from(value).is_ok()
}

/// `http::HeaderMap::try_insert` into a `tonic::metadata::MetadataMap`, of an acceptable key and
/// value: the value replaces whatever the map holds under the key, whose ASCII letters are lowered
/// first. A map that would have to grow beyond its limit takes nothing and stays as it is; one with
/// fewer entries than [`GRPC_METADATA_MAX_HEADERS`] never has to. Not said: which larger maps
/// have to, for that depends on hashes that may be seeded at random.
#[verifier::external_body]
fn try_insert_metadata(map: &mut tonic::metadata::MetadataMap, key: &str, value: &str) -> (r: bool)
    requires
        is_metadata_key(encode_utf8(key@)),
        is_metadata_value(encode_utf8(value@)),
        metadata_entries(*old(map)).dom().finite(),
    ensures
        r ==> metadata_entries(*final(map)) == metadata_entries(*old(map)).insert(
            lowered(encode_utf8(key@)),
            seq![encode_utf8(value@)],
        ),
        !r ==> metadata_entries(*final(map)) == metadata_entries(*old(map)),
        !r ==> metadata_entries(*final(map)).dom().len() >= GRPC_METADATA_MAX_HEADERS,
{
    let name = tonic::metadata::MetadataKey::<tonic::metadata::Ascii>::from_bytes(key.as_bytes());
    let text = tonic::metadata::MetadataValue::<tonic::metadata::Ascii>::try_from(value);
    let mut one = tonic::metadata::MetadataMap::new();
    one.insert(name.unwrap(), text.unwrap());
    let (name, text) = one.into_headers().into_iter().next().unwrap();
    map.as_mut().try_insert(name.unwrap(), text).is_ok()
}

/// Why a header cannot become metadata.
#[derive(Clone, Copy, Debug, PartialEq, Eq, Structural)]
pub enum HeaderFault {
    BinaryKey,
    InvalidKey,
    InvalidValue,
}

/// Why this header cannot become metadata, if it cannot.
pub open spec fn header_fault(header: (String, String)) -> Option<HeaderFault> {
    let key = encode_utf8(header.0@);
    if is_binary_key(key) {
        Some(HeaderFault::BinaryKey)
    } else if !is_metadata_key(key) {
        Some(HeaderFault::InvalidKey)
    } else if !is_metadata_value(encode_utf8(header.1@)) {
        Some(HeaderFault::InvalidValue)
    } else {
        None
    }
}

/// The diagnostic for a header. It names the key and never the value, which may be a secret.
pub open spec fn header_message(fault: HeaderFault, key: Seq<char>) -> Seq<char> {
    match fault {
        HeaderFault::BinaryKey => "binary gRPC metadata is unsupported for key: "@ + key,
        HeaderFault::InvalidKey => "invalid gRPC metadata key: "@ + key,
        HeaderFault::InvalidValue => "invalid gRPC metadata value for key: "@ + key,
    }
}

/// The first header from `i` on that cannot become metadata.
pub open spec fn first_bad_header(headers: Seq<(String, String)>, i: int) -> Option<int>
    decreases headers.len() - i,
{
    if i >= headers.len() {
        None
    } else if header_fault(headers[i]) is Some {
        Some(i)
    } else {
        first_bad_header(headers, i + 1)
    }
}

/// What the first `n` headers put into a map; a later one replaces an earlier one of its name.
pub open spec fn metadata_of(headers: Seq<(String, String)>, n: int) -> Map<Seq<u8>, Seq<Seq<u8>>>
    decreases n,
{
    if n <= 0 {
        Map::empty()
    } else {
        metadata_of(headers, n - 1).insert(
            lowered(encode_utf8(headers[n - 1].0@)),
            seq![encode_utf8(headers[n - 1].1@)],
        )
    }
}

proof fn lemma_metadata_size(headers: Seq<(String, String)>, n: int)
    requires
        0 <= n,
    ensures
        metadata_of(headers, n).dom().finite(),
        metadata_of(headers, n).dom().len() <= n,
    decreases n,
{
    if n > 0 {
        lemma_metadata_size(headers, n - 1);
        let before = metadata_of(headers, n - 1);
        let key = lowered(encode_utf8(headers[n - 1].0@));
        assert(metadata_of(headers, n).dom() =~= before.dom().insert(key));
    } else {
        assert(metadata_of(headers, n).dom() =~= Set::<Seq<u8>>::empty());
    }
}

fn ends_in_bin(key: &[u8]) -> (r: bool)
    ensures
        r == is_binary_key(key@),
{
    let n: usize = key.len();
    if n < 4 {
        return false;
    }
    let ghost tail = lowered(key@).subrange(n - 4, n as int);
    let r = lower(key[n - 4]) == 45 && lower(key[n - 3]) == 98 && lower(key[n - 2]) == 105 && lower(
        key[n - 1],
    ) == 110;
    proof {
        assert(tail.len() == 4);
        assert(tail[0] == ascii_lower(key@[n - 4]));
        assert(tail[1] == ascii_lower(key@[n - 3]));
        assert(tail[2] == ascii_lower(key@[n - 2]));
        assert(tail[3] == ascii_lower(key@[n - 1]));
        if r {
            assert(tail =~= binary_suffix());
        }
    }
    r
}

/// The map is full when the turn of header `k` comes: the headers before it fill so many entries
/// that the map may be unable to grow, and neither they nor the header itself have a fault.
pub open spec fn full_at(headers: Seq<(String, String)>, k: int) -> bool {
    &&& 0 <= k < headers.len()
    &&& metadata_of(headers, k).dom().len() >= GRPC_METADATA_MAX_HEADERS
    &&& forall|j: int| 0 <= j <= k ==> header_fault(#[trigger] headers[j]) is None
}

/// The headers do not fit in a metadata map, which is answered as the panic of a full map is.
pub open spec fn metadata_overflowed(
    headers: Seq<(String, String)>,
    status: OtelStatus,
    last_status: OtelStatus,
    errors: ErrorState,
) -> bool {
    &&& exists|k: int| #[trigger] full_at(headers, k)
    &&& status == OtelStatus::InternalError
    &&& errors.holds(last_status, "caught panic at FFI boundary"@)
}

/// The header is refused with a diagnostic that names its key.
pub open spec fn header_refused(
    header: (String, String),
    status: OtelStatus,
    errors: ErrorState,
) -> bool {
    &&& status == OtelStatus::InvalidArgument
    &&& errors.holds(
        OtelStatus::InvalidArgument,
        header_message(header_fault(header)->0, header.0@),
    )
}

/// Metadata never overflows before it had as many good headers as a map takes at least.
pub proof fn few_headers_always_fit(headers: Seq<(String, String)>, k: int)
    requires
        full_at(headers, k),
    ensures
        k >= GRPC_METADATA_MAX_HEADERS,
        first_bad_header(headers, 0) matches Some(i) ==> i > k,
{
    lemma_metadata_size(headers, k);
    lemma_bad_header_beyond(headers, 0, k);
}

proof fn lemma_bad_header_beyond(headers: Seq<(String, String)>, from: int, k: int)
    requires
        0 <= from <= k + 1,
        k < headers.len(),
        forall|j: int| 0 <= j <= k ==> header_fault(#[trigger] headers[j]) is None,
    ensures
        first_bad_header(headers, from) matches Some(i) ==> i > k,
    decreases headers.len() - from,
{
    if from <= k {
        lemma_bad_header_beyond(headers, from + 1, k);
    } else if from < headers.len() && header_fault(headers[from]) is None {
        lemma_bad_at_or_beyond(headers, from + 1);
    }
}

proof fn lemma_bad_at_or_beyond(headers: Seq<(String, String)>, from: int)
    ensures
        first_bad_header(headers, from) matches Some(i) ==> i >= from,
    decreases headers.len() - from,
{
    if from < headers.len() && header_fault(headers[from]) is None {
        lemma_bad_at_or_beyond(headers, from + 1);
    }
}

fn refuse_header(errors: &mut ErrorState, prefix: &str, key: &str) -> (r: OtelStatus)
    ensures
        r == OtelStatus::InvalidArgument,
        final(errors).holds(OtelStatus::InvalidArgument, prefix@ + key@),
{
    let mut message = prefix.to_owned();
    message.append(key);
    fail_owned(errors, OtelStatus::InvalidArgument, message)
}

/// Turns headers into metadata, all of them or none. The first header that cannot become metadata
/// is refused with a diagnostic that names its key, unless the map was full before its turn came.
pub fn build_grpc_metadata(errors: &mut ErrorState, headers: &Vec<(String, String)>) -> (r: Result<
    tonic::metadata::MetadataMap,
    OtelStatus,
>)
    ensures
        match r {
            Ok(metadata) => {
                &&& first_bad_header(headers@, 0) is None
                &&& metadata_entries(metadata) == metadata_of(headers@, headers@.len() as int)
                &&& *final(errors) == *old(errors)
            },
            Err(status) => {
                ||| metadata_overflowed(headers@, status, old(errors).last_status, *final(errors))
                ||| first_bad_header(headers@, 0) matches Some(i) && header_refused(
                    headers@[i],
                    status,
                    *final(errors),
                )
            },
        },
        headers@.len() <= GRPC_METADATA_MAX_HEADERS ==> match first_bad_header(headers@, 0) {
            None => r is Ok,
            Some(i) => r matches Err(status) && header_refused(headers@[i], status, *final(errors)),
        },
        first_bad_header(headers@, 0) matches Some(i) ==> i <= GRPC_METADATA_MAX_HEADERS ==> (
        r matches Err(status) && header_refused(headers@[i], status, *final(errors))),
{
    let mut map = new_metadata();
    assert(metadata_entries(map) =~= metadata_of(headers@, 0));
    let mut i: usize = 0;
    while i < headers.len()
        invariant
            i <= headers@.len(),
            *errors == *old(errors),
            first_bad_header(headers@, 0) == first_bad_header(headers@, i as int),
            forall|j: int| 0 <= j < i ==> header_fault(#[trigger] headers@[j]) is None,
            metadata_entries(map) == metadata_of(headers@, i as int),
        decreases headers@.len() - i,
    {
        let key = headers[i].0.as_str();
        let value = headers[i].1.as_str();
        if ends_in_bin(key.as_bytes()) {
            return Err(
                refuse_header(errors, "binary gRPC metadata is unsupported for key: ", key),
            );
        }
        if !accepts_key(key.as_bytes()) {
            return Err(refuse_header(errors, "invalid gRPC metadata key: ", key));
        }
        if !accepts_value(value) {
            return Err(refuse_header(errors, "invalid gRPC metadata value for key: ", key));
        }
        proof {
            lemma_metadata_size(headers@, i as int);
        }
        if !try_insert_metadata(&mut map, key, value) {
            proof {
                assert(full_at(headers@, i as int));
                few_headers_always_fit(headers@, i as int);
            }
            return Err(caught_panic(errors));
        }
        i += 1;
    }
    Ok(map)
}

} // verus!
