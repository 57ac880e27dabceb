//! Turning a borrowed log record view into an owned record.
//!
//! A record is first validated as a whole; nothing of it is handed on unless every part is
//! acceptable.

use vstd::prelude::*;

use crate::abi::{AbiError, OtelArrayView, OtelStatus};
use crate::error::{fail, fail_owned, ErrorState};
use crate::log_convert::{
    claimed_within, lemma_accepted, lemma_forward, lemma_no_stop, lemma_taken, state_refused,
    value_refused, ConvertFault, Converter,
};
use crate::log_severity::{
    is_valid_number, log_severity_is_valid, number_of, severity_from_u32, Severity,
};
use crate::log_validate::{
    pool_fault, taken_after, validation_refused, visited, PoolFault, Validator,
};
use crate::log_value::{
    tree_of, AnyValue, OtelLogValue, OtelLogValueNode, OtelLogValueType, OTEL_LOG_MAX_ATTRIBUTES,
    OTEL_LOG_MAX_STRING_LEN, OTEL_LOG_MAX_VALUE_NODES,
};
use crate::memory::{reserve, AllocationFailure};

verus! {

/// `present_fields` bit selecting the timestamp.
pub const OTEL_LOG_FIELD_TIMESTAMP: u64 = 1;

/// `present_fields` bit selecting the observed timestamp.
pub const OTEL_LOG_FIELD_OBSERVED_TIMESTAMP: u64 = 2;

/// `present_fields` bit selecting the trace context.
pub const OTEL_LOG_FIELD_TRACE_CONTEXT: u64 = 4;

/// Every `present_fields` bit that is assigned.
pub const OTEL_LOG_FIELD_KNOWN_MASK: u64 = 7;

/// Every trace flag that is assigned.
pub const OTEL_LOG_TRACE_FLAGS_SUPPORTED_MASK: u8 = 3;

/// Trace correlation of a record.
#[derive(Clone, Copy, Debug)]
pub struct OtelLogTraceContext {
    pub trace_id: [u8; 16],
    pub span_id: [u8; 8],
    pub trace_flags: u8,
    pub reserved: [u8; 7],
}

/// A borrowed log record.
#[derive(Clone, Copy, Debug)]
pub struct OtelLogRecordView<'a> {
    pub struct_size: u64,
    pub present_fields: u64,
    pub timestamp_unix_nanos: u64,
    pub observed_timestamp_unix_nanos: u64,
    pub severity_number: u32,
    pub reserved_flags: u32,
    pub body: OtelLogValue<'a>,
    pub attributes: OtelArrayView<'a, OtelLogValueNode<'a>>,
    pub value_nodes: OtelArrayView<'a, OtelLogValueNode<'a>>,
    pub trace_context: OtelLogTraceContext,
    pub reserved: [u64; 4],
}

/// Which of a record's times the platform's clock type can represent.
#[derive(Clone, Copy, Debug)]
pub struct RepresentableTimes {
    pub timestamp: bool,
    pub observed_timestamp: bool,
}

/// The trace correlation of an owned record.
#[derive(Clone, Copy, Debug)]
pub struct TraceContext {
    pub trace_id: [u8; 16],
    pub span_id: [u8; 8],
    pub trace_flags: u8,
}

/// An owned log record.
#[derive(Debug)]
pub struct LogRecord {
    pub timestamp_unix_nanos: Option<u64>,
    pub observed_timestamp_unix_nanos: Option<u64>,
    pub severity: Option<Severity>,
    pub severity_text: Option<&'static str>,
    pub trace_context: Option<TraceContext>,
    pub body: Option<AnyValue>,
    pub attributes: Vec<(String, AnyValue)>,
}

/// Why a record is refused.
#[derive(Clone, Copy, Debug)]
pub enum RecordFault {
    RecordReserved,
    UnknownFields,
    SeverityRange,
    TooManyAttributes,
    TooManyNodes,
    NullAttributes,
    NullNodes,
    AttributeView(AbiError),
    EmptyAttributeKey,
    AttributeKeyTooLong,
    Pool(PoolFault),
    Convert(ConvertFault),
    TimestampRange,
    ObservedTimestampRange,
    TraceReserved,
    TraceFlags,
    ZeroTraceId,
    ZeroSpanId,
    RootMemory(AllocationFailure),
    KeyMemory(AllocationFailure),
}

impl RecordFault {
    /// Whether the allocator, not the record, is to blame.
    pub open spec fn is_memory(self) -> bool {
        match self {
            RecordFault::Pool(e) => e.is_memory(),
            RecordFault::Convert(e) => e.is_memory(),
            RecordFault::RootMemory(_) => true,
            RecordFault::KeyMemory(_) => true,
            _ => false,
        }
    }

    /// The status reported for this fault.
    pub open spec fn spec_status(self) -> OtelStatus {
        match self {
            RecordFault::RecordReserved => OtelStatus::InvalidArgument,
            RecordFault::UnknownFields => OtelStatus::InvalidConfig,
            RecordFault::SeverityRange => OtelStatus::InvalidArgument,
            RecordFault::TooManyAttributes => OtelStatus::InvalidArgument,
            RecordFault::TooManyNodes => OtelStatus::InvalidArgument,
            RecordFault::NullAttributes => OtelStatus::InvalidArgument,
            RecordFault::NullNodes => OtelStatus::InvalidArgument,
            RecordFault::AttributeView(e) => e.spec_status(),
            RecordFault::EmptyAttributeKey => OtelStatus::InvalidArgument,
            RecordFault::AttributeKeyTooLong => OtelStatus::InvalidArgument,
            RecordFault::Pool(e) => e.spec_status(),
            RecordFault::Convert(e) => e.spec_status(),
            RecordFault::TimestampRange => OtelStatus::InvalidArgument,
            RecordFault::ObservedTimestampRange => OtelStatus::InvalidArgument,
            RecordFault::TraceReserved => OtelStatus::InvalidArgument,
            RecordFault::TraceFlags => OtelStatus::InvalidConfig,
            RecordFault::ZeroTraceId => OtelStatus::InvalidArgument,
            RecordFault::ZeroSpanId => OtelStatus::InvalidArgument,
            RecordFault::RootMemory(_) => OtelStatus::InternalError,
            RecordFault::KeyMemory(_) => OtelStatus::InternalError,
        }
    }

    /// The diagnostic of this fault.
    pub open spec fn spec_message(self) -> Seq<char> {
        match self {
            RecordFault::RecordReserved => "log record reserved fields must be zero"@,
            RecordFault::UnknownFields => "log record present_fields contains bits unknown to this library version"@,
            RecordFault::SeverityRange => "log record severity_number must be 0 (absent) or 1..=24"@,
            RecordFault::TooManyAttributes => "log record exceeds the maximum supported attribute count"@,
            RecordFault::TooManyNodes => "log record exceeds the maximum supported value node count"@,
            RecordFault::NullAttributes => "log record attribute_count is non-zero but attributes is NULL"@,
            RecordFault::NullNodes => "log record value_node_count is non-zero but value_nodes is NULL"@,
            RecordFault::AttributeView(e) => e.spec_message(),
            RecordFault::EmptyAttributeKey => "log record attribute keys must not be empty"@,
            RecordFault::AttributeKeyTooLong => "log record attribute key exceeds the maximum supported length"@,
            RecordFault::Pool(e) => e.spec_message(),
            RecordFault::Convert(e) => e.spec_message(),
            RecordFault::TimestampRange => "log record timestamp is not representable as a system time"@,
            RecordFault::ObservedTimestampRange => "log record observed timestamp is not representable as a system time"@,
            RecordFault::TraceReserved => "log record trace context reserved bytes must be zero"@,
            RecordFault::TraceFlags => "log record trace context uses trace flags unknown to this library version"@,
            RecordFault::ZeroTraceId => "log record trace context trace_id must not be all zero"@,
            RecordFault::ZeroSpanId => "log record trace context span_id must not be all zero"@,
            RecordFault::RootMemory(_) => "failed to allocate log record root list"@,
            RecordFault::KeyMemory(_) => "failed to allocate log attribute key list"@,
        }
    }

    /// The status reported for this fault.
    pub fn status(&self) -> (r: OtelStatus)
        ensures
            r == self.spec_status(),
    {
        match self {
            RecordFault::RecordReserved => OtelStatus::InvalidArgument,
            RecordFault::UnknownFields => OtelStatus::InvalidConfig,
            RecordFault::SeverityRange => OtelStatus::InvalidArgument,
            RecordFault::TooManyAttributes => OtelStatus::InvalidArgument,
            RecordFault::TooManyNodes => OtelStatus::InvalidArgument,
            RecordFault::NullAttributes => OtelStatus::InvalidArgument,
            RecordFault::NullNodes => OtelStatus::InvalidArgument,
            RecordFault::AttributeView(e) => e.status(),
            RecordFault::EmptyAttributeKey => OtelStatus::InvalidArgument,
            RecordFault::AttributeKeyTooLong => OtelStatus::InvalidArgument,
            RecordFault::Pool(e) => e.status(),
            RecordFault::Convert(e) => e.status(),
            RecordFault::TimestampRange => OtelStatus::InvalidArgument,
            RecordFault::ObservedTimestampRange => OtelStatus::InvalidArgument,
            RecordFault::TraceReserved => OtelStatus::InvalidArgument,
            RecordFault::TraceFlags => OtelStatus::InvalidConfig,
            RecordFault::ZeroTraceId => OtelStatus::InvalidArgument,
            RecordFault::ZeroSpanId => OtelStatus::InvalidArgument,
            RecordFault::RootMemory(_) => OtelStatus::InternalError,
            RecordFault::KeyMemory(_) => OtelStatus::InternalError,
        }
    }

    /// The diagnostic of this fault.
    pub fn message(&self) -> (r: String)
        ensures
            r@ == self.spec_message(),
    {
        match self {
            RecordFault::RecordReserved => "log record reserved fields must be zero".to_owned(),
            RecordFault::UnknownFields => "log record present_fields contains bits unknown to this library version".to_owned(),
            RecordFault::SeverityRange => "log record severity_number must be 0 (absent) or 1..=24".to_owned(),
            RecordFault::TooManyAttributes => "log record exceeds the maximum supported attribute count".to_owned(),
            RecordFault::TooManyNodes => "log record exceeds the maximum supported value node count".to_owned(),
            RecordFault::NullAttributes => "log record attribute_count is non-zero but attributes is NULL".to_owned(),
            RecordFault::NullNodes => "log record value_node_count is non-zero but value_nodes is NULL".to_owned(),
            RecordFault::AttributeView(e) => e.message().to_owned(),
            RecordFault::EmptyAttributeKey => "log record attribute keys must not be empty".to_owned(),
            RecordFault::AttributeKeyTooLong => "log record attribute key exceeds the maximum supported length".to_owned(),
            RecordFault::Pool(e) => e.message(),
            RecordFault::Convert(e) => e.message(),
            RecordFault::TimestampRange => "log record timestamp is not representable as a system time".to_owned(),
            RecordFault::ObservedTimestampRange => "log record observed timestamp is not representable as a system time".to_owned(),
            RecordFault::TraceReserved => "log record trace context reserved bytes must be zero".to_owned(),
            RecordFault::TraceFlags => "log record trace context uses trace flags unknown to this library version".to_owned(),
            RecordFault::ZeroTraceId => "log record trace context trace_id must not be all zero".to_owned(),
            RecordFault::ZeroSpanId => "log record trace context span_id must not be all zero".to_owned(),
            RecordFault::RootMemory(_) => "failed to allocate log record root list".to_owned(),
            RecordFault::KeyMemory(_) => "failed to allocate log attribute key list".to_owned(),
        }
    }
}

/// Every element is zero.
pub open spec fn all_zero(bytes: Seq<u8>) -> bool {
    forall|i: int| 0 <= i < bytes.len() ==> #[trigger] bytes[i] == 0
}

fn is_all_zero<const N: usize>(bytes: &[u8; N]) -> (r: bool)
    ensures
        r == all_zero(bytes@),
{
    let mut i: usize = 0;
    while i < N
        invariant
            i <= N,
            bytes@.len() == N,
            forall|j: int| 0 <= j < i ==> #[trigger] bytes@[j] == 0,
        decreases N - i,
    {
        if bytes[i] != 0 {
            assert(bytes@[i as int] != 0);
            return false;
        }
        i += 1;
    }
    true
}

impl<'a> OtelLogRecordView<'a> {
    /// Whether the record has a body.
    pub open spec fn body_present(self) -> bool {
        self.body.value_type != OtelLogValueType::Empty.spec_as_u32()
    }

    /// The body, if there is one, and then the attribute values.
    pub open spec fn roots(self) -> Seq<OtelLogValue<'a>> {
        let attributes = self.attributes.items();
        let values = Seq::new(attributes.len(), |i: int| attributes[i].value);
        if self.body_present() {
            seq![self.body] + values
        } else {
            values
        }
    }

    /// Whether the field with this bit is present.
    pub open spec fn has(self, bit: u64) -> bool {
        self.present_fields & bit != 0
    }

    /// Some reserved word of the record is in use.
    pub open spec fn uses_reserved(self) -> bool {
        self.reserved_flags != 0 || self.body.reserved != 0 || exists|i: int|
            0 <= i < 4 && #[trigger] self.reserved@[i] != 0
    }
}

/// What is wrong with the fixed part of a record.
pub open spec fn header_fault(view: OtelLogRecordView) -> Option<RecordFault> {
    if view.uses_reserved() {
        Some(RecordFault::RecordReserved)
    } else if view.present_fields & !OTEL_LOG_FIELD_KNOWN_MASK != 0 {
        Some(RecordFault::UnknownFields)
    } else if !is_valid_number(view.severity_number) {
        Some(RecordFault::SeverityRange)
    } else if view.attributes.spec_count() > OTEL_LOG_MAX_ATTRIBUTES {
        Some(RecordFault::TooManyAttributes)
    } else if view.value_nodes.spec_count() > OTEL_LOG_MAX_VALUE_NODES {
        Some(RecordFault::TooManyNodes)
    } else if view.attributes.spec_is_dangling() {
        Some(RecordFault::NullAttributes)
    } else if view.value_nodes.spec_is_dangling() {
        Some(RecordFault::NullNodes)
    } else {
        None
    }
}

/// What is wrong with the key of one attribute.
pub open spec fn attribute_fault(attribute: OtelLogValueNode) -> Option<RecordFault> {
    match attribute.key.text() {
        Err(e) => Some(RecordFault::AttributeView(e)),
        Ok(key) => if key.len() == 0 {
            Some(RecordFault::EmptyAttributeKey)
        } else if attribute.key.bytes->0@.len() > OTEL_LOG_MAX_STRING_LEN {
            Some(RecordFault::AttributeKeyTooLong)
        } else {
            None
        },
    }
}

/// The first key violation among the attributes from `i` on.
pub open spec fn attributes_fault(attributes: Seq<OtelLogValueNode>, i: int) -> Option<RecordFault>
    decreases attributes.len() - i,
{
    if i >= attributes.len() {
        None
    } else if attribute_fault(attributes[i]) is Some {
        attribute_fault(attributes[i])
    } else {
        attributes_fault(attributes, i + 1)
    }
}

/// What is wrong with a trace context.
pub open spec fn trace_fault(context: OtelLogTraceContext) -> Option<RecordFault> {
    if !all_zero(context.reserved@) {
        Some(RecordFault::TraceReserved)
    } else if context.trace_flags & !OTEL_LOG_TRACE_FLAGS_SUPPORTED_MASK != 0 {
        Some(RecordFault::TraceFlags)
    } else if all_zero(context.trace_id@) {
        Some(RecordFault::ZeroTraceId)
    } else if all_zero(context.span_id@) {
        Some(RecordFault::ZeroSpanId)
    } else {
        None
    }
}

/// Why a record is refused, if it is.
pub open spec fn record_fault(view: OtelLogRecordView, times: RepresentableTimes) -> Option<
    RecordFault,
> {
    if header_fault(view) is Some {
        header_fault(view)
    } else if attributes_fault(view.attributes.items(), 0) is Some {
        attributes_fault(view.attributes.items(), 0)
    } else if pool_fault(view.value_nodes.items(), view.roots()) is Some {
        Some(RecordFault::Pool(pool_fault(view.value_nodes.items(), view.roots())->0))
    } else if view.has(OTEL_LOG_FIELD_TIMESTAMP) && !times.timestamp {
        Some(RecordFault::TimestampRange)
    } else if view.has(OTEL_LOG_FIELD_OBSERVED_TIMESTAMP) && !times.observed_timestamp {
        Some(RecordFault::ObservedTimestampRange)
    } else if view.has(OTEL_LOG_FIELD_TRACE_CONTEXT) {
        trace_fault(view.trace_context)
    } else {
        None
    }
}

/// The conversion of the pool or of a root stopped because the allocator refused room. Roots are
/// converted last, once the record as a whole was found acceptable.
pub open spec fn conversion_refused(
    view: OtelLogRecordView,
    times: RepresentableTimes,
    e: ConvertFault,
) -> bool {
    let nodes = view.value_nodes.items();
    let roots = view.roots();
    ||| state_refused(nodes, e)
    ||| exists|i: int| 0 <= i < nodes.len() && value_refused((#[trigger] nodes[i]).value, e)
    ||| record_fault(view, times) is None && exists|k: int|
        0 <= k < roots.len() && value_refused(#[trigger] roots[k], e)
}

/// The allocator refused room that the record asks for: a root list and a key list, a slot per
/// node for the validation and for the conversion, the keys of a map, the bytes of a value or the
/// children of a container. Each is asked for only where there is something to hold, and only
/// after the checks that come before it.
pub open spec fn record_refused(
    view: OtelLogRecordView,
    times: RepresentableTimes,
    e: RecordFault,
) -> bool {
    let nodes = view.value_nodes.items();
    let attributes = view.attributes.items();
    &&& header_fault(view) is None
    &&& match e {
        RecordFault::RootMemory(failure) => failure.refused(view.roots().len()),
        RecordFault::KeyMemory(failure) => failure.refused(attributes.len()),
        RecordFault::Pool(PoolFault::ValidationMemory(failure)) => attributes_fault(attributes, 0) is None
            && failure.refused(nodes.len()),
        RecordFault::Pool(fault) => attributes_fault(attributes, 0) is None && validation_refused(
            nodes,
            view.roots(),
            fault,
        ),
        RecordFault::Convert(fault) => attributes_fault(attributes, 0) is None && pool_fault(
            nodes,
            view.roots(),
        ) is None && conversion_refused(view, times, fault),
        _ => false,
    }
}

/// The record has no body, no attributes and no nodes, so that nothing is reserved for it.
pub open spec fn reserves_nothing(view: OtelLogRecordView) -> bool {
    view.roots().len() == 0 && view.value_nodes.items().len() == 0
}

/// The record says what the view says.
pub open spec fn represents(record: LogRecord, view: OtelLogRecordView) -> bool {
    let nodes = view.value_nodes.items();
    let attributes = view.attributes.items();
    &&& record.timestamp_unix_nanos == (if view.has(OTEL_LOG_FIELD_TIMESTAMP) {
        Some(view.timestamp_unix_nanos)
    } else {
        None
    })
    &&& record.observed_timestamp_unix_nanos == (if view.has(OTEL_LOG_FIELD_OBSERVED_TIMESTAMP) {
        Some(view.observed_timestamp_unix_nanos)
    } else {
        None
    })
    &&& match record.severity {
        Some(severity) => number_of(severity) == view.severity_number && record.severity_text is Some
            && (record.severity_text->0)@ == crate::log_severity::name_of(severity),
        None => view.severity_number == 0 && record.severity_text is None,
    }
    &&& match record.trace_context {
        Some(context) => view.has(OTEL_LOG_FIELD_TRACE_CONTEXT) && context.trace_id
            == view.trace_context.trace_id && context.span_id == view.trace_context.span_id
            && context.trace_flags == view.trace_context.trace_flags,
        None => !view.has(OTEL_LOG_FIELD_TRACE_CONTEXT),
    }
    &&& match record.body {
        Some(body) => view.body_present() && body.tree() == tree_of(nodes, view.body, -1),
        None => !view.body_present(),
    }
    &&& record.attributes@.len() == attributes.len()
    &&& forall|i: int|
        0 <= i < attributes.len() ==> (#[trigger] record.attributes@[i]).0@
            == crate::log_value::key_text(attributes[i]) && record.attributes@[i].1.tree()
            == tree_of(nodes, attributes[i].value, -1)
}

/// The readable elements of an array view.
fn readable<'a>(array: OtelArrayView<'a, OtelLogValueNode<'a>>) -> (r: &'a [OtelLogValueNode<'a>])
    ensures
        r@ == array.items(),
{
    match array {
        OtelArrayView::Data(items) => items,
        OtelArrayView::Null(_) => {
            let none: &'a [OtelLogValueNode<'a>] = &[];
            assert(none@ =~= Seq::empty());
            none
        },
    }
}

fn uses_reserved_words(view: &OtelLogRecordView) -> (r: bool)
    ensures
        r == view.uses_reserved(),
{
    if view.reserved_flags != 0 || view.body.reserved != 0 {
        return true;
    }
    let mut i: usize = 0;
    while i < 4
        invariant
            i <= 4,
            view.reserved_flags == 0,
            view.body.reserved == 0,
            forall|j: int| 0 <= j < i ==> #[trigger] view.reserved@[j] == 0,
        decreases 4 - i,
    {
        if view.reserved[i] != 0 {
            assert(view.reserved@[i as int] != 0);
            return true;
        }
        i += 1;
    }
    false
}

/// Checks the fixed part of a record.
fn check_header(view: &OtelLogRecordView) -> (r: Result<(), RecordFault>)
    ensures
        r is Ok <==> header_fault(*view) is None,
        r matches Err(e) ==> header_fault(*view) == Some(e),
{
    if uses_reserved_words(view) {
        return Err(RecordFault::RecordReserved);
    }
    if view.present_fields & !OTEL_LOG_FIELD_KNOWN_MASK != 0 {
        return Err(RecordFault::UnknownFields);
    }
    if !log_severity_is_valid(view.severity_number) {
        return Err(RecordFault::SeverityRange);
    }
    if view.attributes.count() > OTEL_LOG_MAX_ATTRIBUTES {
        return Err(RecordFault::TooManyAttributes);
    }
    if view.value_nodes.count() > OTEL_LOG_MAX_VALUE_NODES {
        return Err(RecordFault::TooManyNodes);
    }
    if view.attributes.is_dangling() {
        return Err(RecordFault::NullAttributes);
    }
    if view.value_nodes.is_dangling() {
        return Err(RecordFault::NullNodes);
    }
    Ok(())
}

/// Checks a trace context.
fn check_trace_context(context: &OtelLogTraceContext) -> (r: Result<(), RecordFault>)
    ensures
        r is Ok <==> trace_fault(*context) is None,
        r matches Err(e) ==> trace_fault(*context) == Some(e),
{
    if !is_all_zero(&context.reserved) {
        return Err(RecordFault::TraceReserved);
    }
    if context.trace_flags & !OTEL_LOG_TRACE_FLAGS_SUPPORTED_MASK != 0 {
        return Err(RecordFault::TraceFlags);
    }
    if is_all_zero(&context.trace_id) {
        return Err(RecordFault::ZeroTraceId);
    }
    if is_all_zero(&context.span_id) {
        return Err(RecordFault::ZeroSpanId);
    }
    Ok(())
}

/// A node's converted value is present exactly when none of the pool containers and of the
/// first `done` roots claims it.
spec fn ready<'a>(converter: Converter<'a>, roots: Seq<OtelLogValue<'a>>, done: int) -> bool {
    &&& converter.wf()
    &&& pool_fault(converter.nodes@, roots) is None
    &&& forall|i: int|
        0 <= i < converter.nodes@.len() ==> (#[trigger] converter.converted@[i] is Some
            <==> !taken_after(converter.nodes@, roots, converter.nodes@.len() + done)[i])
}

/// Converts the next root of an accepted pool.
fn convert_root<'a>(
    converter: &mut Converter<'a>,
    value: &OtelLogValue<'a>,
    Ghost(roots): Ghost<Seq<OtelLogValue<'a>>>,
    Ghost(k): Ghost<int>,
) -> (r: Result<AnyValue, RecordFault>)
    requires
        0 <= k < roots.len(),
        *value == roots[k],
        ready(*old(converter), roots, k),
    ensures
        final(converter).nodes == old(converter).nodes,
        r matches Ok(v) ==> v.tree() == tree_of(old(converter).nodes@, *value, -1) && ready(
            *final(converter),
            roots,
            k + 1,
        ),
        r matches Err(e) ==> e matches RecordFault::Convert(fault) && value_refused(*value, fault),
{
    let ghost nodes = converter.nodes@;
    let ghost at = nodes.len() + k;
    let ghost before = *converter;
    proof {
        assert(visited(nodes, roots, at) == *value);
        lemma_accepted(nodes, roots, at);
        lemma_forward(nodes, roots, at);
        if value.is_container() {
            let taken = taken_after(nodes, roots, at);
            assert forall|i: int| value.claims(i) implies #[trigger] before.present()[i] by {
                assert(!taken[i]);
                assert(before.converted@[i] is Some);
            }
            lemma_no_stop(nodes, *value, before.present(), value.first());
        }
    }
    match converter.convert_value(value) {
        Ok(v) => {
            proof {
                assert forall|i: int| 0 <= i < nodes.len() implies (#[trigger] converter.converted@[i] is Some
                    <==> !taken_after(nodes, roots, nodes.len() + (k + 1))[i]) by {
                    assert(before.converted@[i] is Some <==> !taken_after(nodes, roots, at)[i]);
                }
            }
            Ok(v)
        },
        Err(e) => Err(RecordFault::Convert(e)),
    }
}

/// The roots of a record and the keys of its attributes, which are checked on the way.
fn collect_roots<'a>(
    view: &OtelLogRecordView<'a>,
    attributes: &'a [OtelLogValueNode<'a>],
    body_present: bool,
) -> (r: Result<(Vec<OtelLogValue<'a>>, Vec<&'a str>), RecordFault>)
    requires
        attributes@ == view.attributes.items(),
        body_present == view.body_present(),
        attributes@.len() <= OTEL_LOG_MAX_ATTRIBUTES,
    ensures
        r matches Ok((roots, keys)) ==> roots@ == view.roots() && keys@.len() == attributes@.len()
            && (forall|i: int|
            0 <= i < keys@.len() ==> attributes@[i].key.text() == Ok::<Seq<char>, AbiError>(
                (#[trigger] keys@[i])@,
            )) && attributes_fault(attributes@, 0) is None,
        r matches Err(e) ==> match e {
            RecordFault::RootMemory(failure) => failure.refused(view.roots().len()),
            RecordFault::KeyMemory(failure) => failure.refused(attributes@.len()),
            _ => !e.is_memory() && attributes_fault(attributes@, 0) == Some(e),
        },
{
    let mut roots: Vec<OtelLogValue<'a>> = Vec::new();
    let extra: usize = if body_present {
        1
    } else {
        0
    };
    match reserve(&mut roots, attributes.len() + extra) {
        Err(failure) => return Err(RecordFault::RootMemory(failure)),
        Ok(_) => {},
    }
    if body_present {
        roots.push(view.body);
    }
    let mut keys: Vec<&'a str> = Vec::new();
    match reserve(&mut keys, attributes.len()) {
        Err(failure) => return Err(RecordFault::KeyMemory(failure)),
        Ok(_) => {},
    }
    let mut i: usize = 0;
    while i < attributes.len()
        invariant
            i <= attributes@.len(),
            body_present == view.body_present(),
            roots@.len() == extra + i,
            extra == (if body_present {
                1usize
            } else {
                0usize
            }),
            body_present ==> roots@[0] == view.body,
            forall|j: int| 0 <= j < i ==> #[trigger] roots@[extra + j] == attributes@[j].value,
            keys@.len() == i,
            forall|j: int|
                0 <= j < i ==> attributes@[j].key.text() == Ok::<Seq<char>, AbiError>(
                    (#[trigger] keys@[j])@,
                ),
            attributes_fault(attributes@, 0) == attributes_fault(attributes@, i as int),
        decreases attributes@.len() - i,
    {
        let key = match attributes[i].key.as_str() {
            Ok(key) => key,
            Err(e) => return Err(RecordFault::AttributeView(e)),
        };
        if key.is_empty() {
            return Err(RecordFault::EmptyAttributeKey);
        }
        if key.as_bytes().len() > OTEL_LOG_MAX_STRING_LEN {
            return Err(RecordFault::AttributeKeyTooLong);
        }
        keys.push(key);
        roots.push(attributes[i].value);
        i += 1;
    }
    proof {
        assert forall|j: int| 0 <= j < roots@.len() implies roots@[j] == view.roots()[j] by {
            if j >= extra {
                assert(roots@[extra + (j - extra)] == attributes@[j - extra].value);
            }
        }
        assert(roots@ =~= view.roots());
    }
    Ok((roots, keys))
}

/// Validates a record as a whole and converts it. `times` tells which of the record's times the
/// platform can represent.
pub fn emit_record<'a>(view: &OtelLogRecordView<'a>, times: RepresentableTimes) -> (r: Result<
    LogRecord,
    RecordFault,
>)
    ensures
        r matches Ok(record) ==> record_fault(*view, times) is None && represents(record, *view),
        r matches Err(e) ==> if e.is_memory() {
            record_refused(*view, times, e)
        } else {
            record_fault(*view, times) == Some(e)
        },
        header_fault(*view) matches Some(fault) ==> r == Err::<LogRecord, RecordFault>(fault),
        reserves_nothing(*view) ==> match record_fault(*view, times) {
            Some(fault) => r == Err::<LogRecord, RecordFault>(fault),
            None => r is Ok,
        },
{
    check_header(view)?;
    let attributes = readable(view.attributes);
    let nodes = readable(view.value_nodes);
    let body_present: bool = view.body.value_type != OtelLogValueType::Empty.as_u32();
    let (roots, keys) = collect_roots(view, attributes, body_present)?;

    let mut validator = match Validator::new(nodes) {
        Ok(validator) => validator,
        Err(e) => return Err(RecordFault::Pool(e)),
    };
    match validator.validate(roots.as_slice()) {
        Ok(_) => {},
        Err(e) => return Err(RecordFault::Pool(e)),
    }
    let mut converter = match Converter::new(nodes) {
        Ok(converter) => converter,
        Err(e) => return Err(RecordFault::Convert(e)),
    };
    match converter.convert_pool(Ghost(roots@)) {
        Ok(_) => {},
        Err(e) => return Err(RecordFault::Convert(e)),
    }
    assert(roots@ == view.roots());
    proof {
        assert forall|i: int| 0 <= i < nodes@.len() implies (#[trigger] converter.converted@[i] is Some
            <==> !taken_after(nodes@, roots@, nodes@.len() as int)[i]) by {
            assert(converter.present()[i] <==> !claimed_within(nodes@, 0, i));
            lemma_taken(nodes@, roots@, nodes@.len() as int, i);
            if claimed_within(nodes@, 0, i) {
                let m = choose|m: int| 0 <= m < nodes@.len() && (#[trigger] nodes@[m]).value.claims(i);
                assert(visited(nodes@, roots@, m).claims(i));
            }
            if taken_after(nodes@, roots@, nodes@.len() as int)[i] {
                let j = choose|j: int|
                    0 <= j < nodes@.len() && (#[trigger] visited(nodes@, roots@, j)).claims(i);
                assert(nodes@[j].value.claims(i));
            }
        }
        assert(ready(converter, roots@, 0));
    }

    let mut timestamp: Option<u64> = None;
    if view.present_fields & OTEL_LOG_FIELD_TIMESTAMP != 0 {
        if !times.timestamp {
            return Err(RecordFault::TimestampRange);
        }
        timestamp = Some(view.timestamp_unix_nanos);
    }
    let mut observed_timestamp: Option<u64> = None;
    if view.present_fields & OTEL_LOG_FIELD_OBSERVED_TIMESTAMP != 0 {
        if !times.observed_timestamp {
            return Err(RecordFault::ObservedTimestampRange);
        }
        observed_timestamp = Some(view.observed_timestamp_unix_nanos);
    }
    let severity = severity_from_u32(view.severity_number);
    let severity_text = match &severity {
        Some(severity) => Some(severity.name()),
        None => None,
    };
    let mut trace_context: Option<TraceContext> = None;
    if view.present_fields & OTEL_LOG_FIELD_TRACE_CONTEXT != 0 {
        check_trace_context(&view.trace_context)?;
        trace_context =
        Some(
            TraceContext {
                trace_id: view.trace_context.trace_id,
                span_id: view.trace_context.span_id,
                trace_flags: view.trace_context.trace_flags,
            },
        );
    }
    let mut done: usize = 0;
    let mut body: Option<AnyValue> = None;
    if body_present {
        assert(roots@[0] == view.body);
        match convert_root(&mut converter, &view.body, Ghost(roots@), Ghost(0)) {
            Ok(value) => body = Some(value),
            Err(e) => {
                assert(value_refused(roots@[0], e->Convert_0));
                return Err(e);
            },
        }
        done = 1;
    }
    let mut converted: Vec<(String, AnyValue)> = Vec::new();
    let mut i: usize = 0;
    while i < attributes.len()
        invariant
            i <= attributes@.len(),
            record_fault(*view, times) is None,
            attributes@ == view.attributes.items(),
            nodes@ == view.value_nodes.items(),
            converter.nodes@ == nodes@,
            roots@ == view.roots(),
            done == (if view.body_present() {
                1usize
            } else {
                0usize
            }),
            ready(converter, roots@, done + i),
            keys@.len() == attributes@.len(),
            forall|j: int|
                0 <= j < keys@.len() ==> attributes@[j].key.text() == Ok::<Seq<char>, AbiError>(
                    (#[trigger] keys@[j])@,
                ),
            converted@.len() == i,
            forall|j: int|
                0 <= j < i ==> (#[trigger] converted@[j]).0@ == crate::log_value::key_text(
                    attributes@[j],
                ) && converted@[j].1.tree() == tree_of(nodes@, attributes@[j].value, -1),
        decreases attributes@.len() - i,
    {
        assert(roots@[done + i] == attributes@[i as int].value);
        let value = match convert_root(
            &mut converter,
            &attributes[i].value,
            Ghost(roots@),
            Ghost(done + i),
        ) {
            Ok(value) => value,
            Err(e) => {
                assert(value_refused(roots@[done + i], e->Convert_0));
                return Err(e);
            },
        };
        assert(attributes@[i as int].key.text() == Ok::<Seq<char>, AbiError>(keys@[i as int]@));
        converted.push((keys[i].to_owned(), value));
        i += 1;
    }
    Ok(
        LogRecord {
            timestamp_unix_nanos: timestamp,
            observed_timestamp_unix_nanos: observed_timestamp,
            severity,
            severity_text,
            trace_context,
            body,
            attributes: converted,
        },
    )
}

/// What refusing a record leaves in the error slot.
pub open spec fn refused(fault: RecordFault, status: OtelStatus, errors: ErrorState) -> bool {
    status == fault.spec_status() && errors.holds(fault.spec_status(), fault.spec_message())
}

/// Reports the outcome of converting a record: a refused one is recorded in the error slot and
/// turned into its status.
pub fn report_emission(errors: &mut ErrorState, outcome: Result<LogRecord, RecordFault>) -> (r:
    Result<LogRecord, OtelStatus>)
    ensures
        outcome matches Ok(emitted) ==> r == Ok::<LogRecord, OtelStatus>(emitted) && *final(errors)
            == *old(errors),
        outcome matches Err(fault) ==> r == Err::<LogRecord, OtelStatus>(fault.spec_status())
            && refused(fault, fault.spec_status(), *final(errors)),
{
    match outcome {
        Ok(emitted) => Ok(emitted),
        Err(fault) => Err(fail_owned(errors, fault.status(), fault.message())),
    }
}

/// The entry point of a logger: checks the logger and the record prefix, then converts the
/// record. On success the record is to be handed to the logger and nothing is recorded.
/// `view_size` is the size of the record structure on this platform.
pub fn logger_emit<'a>(
    errors: &mut ErrorState,
    logger_present: bool,
    record: Option<&OtelLogRecordView<'a>>,
    view_size: u64,
    times: RepresentableTimes,
) -> (r: Result<LogRecord, OtelStatus>)
    ensures
        !logger_present ==> r == Err::<LogRecord, OtelStatus>(OtelStatus::InvalidArgument)
            && final(errors).holds(OtelStatus::InvalidArgument, "logger context is NULL"@),
        logger_present && record is None ==> r == Err::<LogRecord, OtelStatus>(
            OtelStatus::InvalidArgument,
        ) && final(errors).holds(
            OtelStatus::InvalidArgument,
            "log record view must not be NULL"@,
        ),
        logger_present && record is Some && record->0.struct_size < view_size ==> r
            == Err::<LogRecord, OtelStatus>(OtelStatus::InvalidArgument) && final(errors).holds(
            OtelStatus::InvalidArgument,
            "log record view struct_size is smaller than the supported prefix"@,
        ),
        logger_present && record is Some && record->0.struct_size >= view_size ==> (
        match r {
            Ok(emitted) => record_fault(*record->0, times) is None && represents(
                emitted,
                *record->0,
            ) && *final(errors) == *old(errors),
            Err(status) => exists|fault: RecordFault|
                (if fault.is_memory() {
                    record_refused(*record->0, times, fault)
                } else {
                    record_fault(*record->0, times) == Some(fault)
                }) && #[trigger] refused(fault, status, *final(errors)),
        }),
        logger_present && record is Some && record->0.struct_size >= view_size ==> (
        header_fault(*record->0) matches Some(fault) ==> r == Err::<LogRecord, OtelStatus>(
            fault.spec_status(),
        ) && refused(fault, fault.spec_status(), *final(errors))),
        logger_present && record is Some && record->0.struct_size >= view_size
            && reserves_nothing(*record->0) ==> match record_fault(*record->0, times) {
            Some(fault) => r == Err::<LogRecord, OtelStatus>(fault.spec_status()) && refused(
                fault,
                fault.spec_status(),
                *final(errors),
            ),
            None => r is Ok,
        },
{
    if !logger_present {
        return Err(fail(errors, OtelStatus::InvalidArgument, "logger context is NULL"));
    }
    let view = match record {
        None => return Err(
            fail(errors, OtelStatus::InvalidArgument, "log record view must not be NULL"),
        ),
        Some(view) => view,
    };
    if view.struct_size < view_size {
        return Err(
            fail(
                errors,
                OtelStatus::InvalidArgument,
                "log record view struct_size is smaller than the supported prefix",
            ),
        );
    }
    report_emission(errors, emit_record(view, times))
}

/// Whether a logger can be asked about a severity, and with which one. Without a logger or with
/// a number outside the scale the answer is that logging is off.
pub fn logger_enabled(logger_present: bool, severity: u32) -> (r: Option<Severity>)
    ensures
        r is Some <==> logger_present && 1 <= severity <= 24,
        r matches Some(s) ==> number_of(s) == severity,
{
    if !logger_present {
        return None;
    }
    severity_from_u32(severity)
}

} // verus!
