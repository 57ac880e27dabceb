//! The read-only view of an exported log batch.
//!
//! A batch is converted as a whole: either every record, every scope and the resource can be
//! presented, or nothing is.

use vstd::prelude::*;

use crate::abi::{AbiError, OtelStringView};
use crate::export_error::{ConversionError, MemoryUse, OTEL_LOG_EXPORT_MAX_RECORDS};
use crate::log_emit::OtelLogTraceContext;
use crate::log_flatten::{
    attribute_items, attribute_keys, flattens, optional_string_view, optional_tree, owner_fault,
    owner_refused, source_item, source_wf, string_view, text_fault, Flattened, Flattener, Item,
    Source, Value,
};
use crate::log_severity::{number_of, severity_number, Severity};
use crate::log_value::{AnyValue, OtelLogValue, OtelLogValueNode, ValueTree};
use crate::memory::reserve;
use crate::time::SystemTime;

verus! {

/// `present_fields` bit selecting `timestamp_unix_nanos`.
pub const OTEL_LOG_EXPORT_FIELD_TIMESTAMP: u64 = 1;

/// `present_fields` bit selecting `observed_timestamp_unix_nanos`.
pub const OTEL_LOG_EXPORT_FIELD_OBSERVED_TIMESTAMP: u64 = 2;

/// `present_fields` bit selecting `trace_context`.
pub const OTEL_LOG_EXPORT_FIELD_TRACE_CONTEXT: u64 = 4;

/// `present_fields` bit selecting `severity_text`.
pub const OTEL_LOG_EXPORT_FIELD_SEVERITY_TEXT: u64 = 8;

/// `present_fields` bit selecting `event_name`.
pub const OTEL_LOG_EXPORT_FIELD_EVENT_NAME: u64 = 16;

/// `present_fields` bit selecting `target`.
pub const OTEL_LOG_EXPORT_FIELD_TARGET: u64 = 32;

/// `present_fields` bit distinguishing an explicitly empty body from an absent one.
pub const OTEL_LOG_EXPORT_FIELD_BODY: u64 = 64;

/// Every `present_fields` bit that can be set.
pub const OTEL_LOG_EXPORT_FIELD_KNOWN_MASK: u64 = 127;

/// The sizes of the exported structures on this platform, in bytes.
#[derive(Clone, Copy, Debug, PartialEq, Eq)]
pub struct ExportViewSizes {
    pub scope: u64,
    pub record: u64,
    pub batch: u64,
}

/// The trace correlation of a finished record.
#[derive(Clone, Copy, Debug)]
pub struct ExportedTraceContext {
    pub trace_id: [u8; 16],
    pub span_id: [u8; 8],
    pub trace_flags: Option<u8>,
}

/// A finished log record.
#[derive(Debug)]
pub struct ExportedRecord {
    pub timestamp: Option<SystemTime>,
    pub observed_timestamp: Option<SystemTime>,
    pub severity_number: Option<Severity>,
    pub severity_text: Option<String>,
    pub event_name: Option<String>,
    pub target: Option<String>,
    pub body: Option<AnyValue>,
    pub attributes: Vec<(String, AnyValue)>,
    pub trace_context: Option<ExportedTraceContext>,
}

/// An instrumentation scope.
#[derive(Debug)]
pub struct InstrumentationScope {
    pub name: String,
    pub version: Option<String>,
    pub schema_url: Option<String>,
    pub attributes: Vec<(String, Value)>,
}

/// The resource that a batch belongs to.
#[derive(Debug)]
pub struct Resource {
    pub schema_url: Option<String>,
    pub attributes: Vec<(String, Value)>,
}

/// One record of a batch with the scope that it came through. Records of the same scope carry
/// the same key.
#[derive(Clone, Copy)]
pub struct BatchEntry<'a> {
    pub record: &'a ExportedRecord,
    pub scope_key: usize,
    pub scope: &'a InstrumentationScope,
}

/// Instrumentation scope shared by one or more records of a batch.
pub struct OtelLogExportScopeView<'a> {
    pub struct_size: u64,
    pub name: OtelStringView<'a>,
    pub version: OtelStringView<'a>,
    pub schema_url: OtelStringView<'a>,
    pub attributes: Vec<OtelLogValueNode<'a>>,
    pub value_nodes: Vec<OtelLogValueNode<'a>>,
    pub reserved: [u64; 2],
}

/// View of one exported log record. `scope` is the index of its scope in the batch.
pub struct OtelLogExportRecordView<'a> {
    pub struct_size: u64,
    pub present_fields: u64,
    pub timestamp_unix_nanos: u64,
    pub observed_timestamp_unix_nanos: u64,
    pub severity_number: u32,
    pub reserved_flags: u32,
    pub severity_text: OtelStringView<'a>,
    pub event_name: OtelStringView<'a>,
    pub target: OtelStringView<'a>,
    pub body: OtelLogValue<'a>,
    pub attributes: Vec<OtelLogValueNode<'a>>,
    pub value_nodes: Vec<OtelLogValueNode<'a>>,
    pub trace_context: OtelLogTraceContext,
    pub scope: usize,
    pub reserved: [u64; 4],
}

/// View of one exported log batch.
pub struct OtelLogExportBatchView<'a> {
    pub struct_size: u64,
    pub records: Vec<OtelLogExportRecordView<'a>>,
    pub scopes: Vec<OtelLogExportScopeView<'a>>,
    pub resource_schema_url: OtelStringView<'a>,
    pub resource_attributes: Vec<OtelLogValueNode<'a>>,
    pub resource_value_nodes: Vec<OtelLogValueNode<'a>>,
    pub reserved: [u64; 4],
}

/// What is wrong with a time.
pub open spec fn time_fault(time: Option<SystemTime>, what: &'static str) -> Option<ConversionError> {
    match time {
        Some(t) => if t.nanos_since_epoch < 0 {
            Some(ConversionError::PredatesEpoch(what))
        } else if t.nanos_since_epoch > u64::MAX {
            Some(ConversionError::TimeRange(what))
        } else {
            None
        },
        None => None,
    }
}

/// What is wrong with an optional text.
pub open spec fn optional_text_fault(text: Option<String>) -> Option<ConversionError> {
    match text {
        Some(t) => text_fault(t@),
        None => None,
    }
}

/// The first fault of two.
pub open spec fn either_fault(
    a: Option<ConversionError>,
    b: Option<ConversionError>,
) -> Option<ConversionError> {
    if a is Some {
        a
    } else {
        b
    }
}

/// The tree of an optional owned value.
pub open spec fn body_tree(body: Option<AnyValue>) -> Option<ValueTree> {
    match body {
        Some(v) => Some(v.tree()),
        None => None,
    }
}

/// The keys of owned attributes.
pub open spec fn owned_keys<T>(attributes: Seq<(String, T)>) -> Seq<Seq<char>> {
    Seq::new(attributes.len(), |i: int| attributes[i].0@)
}

/// The items of owned log attributes.
pub open spec fn any_items(attributes: Seq<(String, AnyValue)>) -> Seq<Item> {
    Seq::new(attributes.len(), |i: int| source_item(Source::Any(&attributes[i].1)))
}

/// The items of owned resource or scope attributes.
pub open spec fn value_items(attributes: Seq<(String, Value)>) -> Seq<Item> {
    Seq::new(attributes.len(), |i: int| source_item(Source::Attribute(&attributes[i].1)))
}

/// What is wrong with the times and the texts of a record.
pub open spec fn record_head_fault(record: ExportedRecord) -> Option<ConversionError> {
    either_fault(
        time_fault(record.timestamp, "timestamp"),
        either_fault(
            time_fault(record.observed_timestamp, "observed timestamp"),
            either_fault(
                optional_text_fault(record.severity_text),
                either_fault(
                    optional_text_fault(record.event_name),
                    optional_text_fault(record.target),
                ),
            ),
        ),
    )
}

/// Why a record cannot be presented, if it cannot.
pub open spec fn export_record_fault(record: ExportedRecord) -> Option<ConversionError> {
    either_fault(
        record_head_fault(record),
        owner_fault(
            body_tree(record.body),
            owned_keys(record.attributes@),
            any_items(record.attributes@),
        ),
    )
}

/// The allocator refused room for a list of `count` attributes.
pub open spec fn list_refused(count: nat, purpose: MemoryUse, e: ConversionError) -> bool {
    e matches ConversionError::Memory(failure, what) && what == purpose && failure.refused(count)
}

/// The allocator refused room for one more piece of this name.
pub open spec fn piece_refused(name: Seq<char>, e: ConversionError) -> bool {
    e matches ConversionError::Memory(failure, MemoryUse::Piece(what)) && what@ == name
        && failure.refused(1)
}

/// The allocator refused room that a record with presentable times and texts asks for. One without
/// a body and attributes asks for none.
pub open spec fn export_record_refused(record: ExportedRecord, e: ConversionError) -> bool {
    &&& record_head_fault(record) is None
    &&& {
        ||| list_refused(record.attributes@.len(), MemoryUse::RecordAttributes, e)
        ||| owner_refused(
            body_tree(record.body),
            owned_keys(record.attributes@),
            any_items(record.attributes@),
            e,
        )
    }
}

/// The allocator refused room that the attributes of a scope ask for.
pub open spec fn scope_refused(scope: InstrumentationScope, e: ConversionError) -> bool {
    ||| list_refused(scope.attributes@.len(), MemoryUse::ScopeAttributes, e)
    ||| owner_refused(None, owned_keys(scope.attributes@), value_items(scope.attributes@), e)
}

/// The allocator refused room that the attributes of a resource ask for.
pub open spec fn resource_refused(resource: Resource, e: ConversionError) -> bool {
    ||| list_refused(resource.attributes@.len(), MemoryUse::ResourceAttributes, e)
    ||| owner_refused(None, owned_keys(resource.attributes@), value_items(resource.attributes@), e)
}

/// Why a scope cannot be presented, if it cannot.
pub open spec fn scope_fault(scope: InstrumentationScope) -> Option<ConversionError> {
    either_fault(
        owner_fault(None, owned_keys(scope.attributes@), value_items(scope.attributes@)),
        either_fault(
            text_fault(scope.name@),
            either_fault(
                optional_text_fault(scope.version),
                optional_text_fault(scope.schema_url),
            ),
        ),
    )
}

/// The view has the text, or no text where there is none.
pub open spec fn shows(view: OtelStringView, text: Option<String>) -> bool {
    view.text() == Ok::<Seq<char>, AbiError>(
        match text {
            Some(t) => t@,
            None => Seq::empty(),
        },
    )
}

/// The field with this bit is marked present exactly when it is.
pub open spec fn marks(view: OtelLogExportRecordView, bit: u64, present: bool) -> bool {
    (view.present_fields & bit != 0) == present
}

/// The view of a record says what the record says.
pub open spec fn presents_record(view: OtelLogExportRecordView, record: ExportedRecord) -> bool {
    &&& marks(view, OTEL_LOG_EXPORT_FIELD_TIMESTAMP, record.timestamp is Some)
    &&& marks(view, OTEL_LOG_EXPORT_FIELD_OBSERVED_TIMESTAMP, record.observed_timestamp is Some)
    &&& marks(view, OTEL_LOG_EXPORT_FIELD_TRACE_CONTEXT, record.trace_context is Some)
    &&& marks(view, OTEL_LOG_EXPORT_FIELD_SEVERITY_TEXT, record.severity_text is Some)
    &&& marks(view, OTEL_LOG_EXPORT_FIELD_EVENT_NAME, record.event_name is Some)
    &&& marks(view, OTEL_LOG_EXPORT_FIELD_TARGET, record.target is Some)
    &&& marks(view, OTEL_LOG_EXPORT_FIELD_BODY, record.body is Some)
    &&& view.present_fields & !OTEL_LOG_EXPORT_FIELD_KNOWN_MASK == 0
    &&& view.timestamp_unix_nanos == shown_time(record.timestamp)
    &&& view.observed_timestamp_unix_nanos == shown_time(record.observed_timestamp)
    &&& view.severity_number == (match record.severity_number {
        Some(severity) => number_of(severity),
        None => 0,
    })
    &&& view.reserved_flags == 0
    &&& shows(view.severity_text, record.severity_text)
    &&& shows(view.event_name, record.event_name)
    &&& shows(view.target, record.target)
    &&& flattens(
        (Flattened { body: view.body, attributes: view.attributes, nodes: view.value_nodes }),
        body_tree(record.body),
        owned_keys(record.attributes@),
        any_items(record.attributes@),
    )
    &&& view.trace_context.reserved@ =~= Seq::new(7, |i: int| 0u8)
    &&& match record.trace_context {
        Some(context) => view.trace_context.trace_id == context.trace_id
            && view.trace_context.span_id == context.span_id && view.trace_context.trace_flags == (
        match context.trace_flags {
            Some(flags) => flags,
            None => 0,
        }),
        None => view.trace_context.trace_id@ =~= Seq::new(16, |i: int| 0u8)
            && view.trace_context.span_id@ =~= Seq::new(8, |i: int| 0u8)
            && view.trace_context.trace_flags == 0,
    }
    &&& view.reserved@ =~= Seq::new(4, |i: int| 0u64)
}

/// The time that a view shows: zero where there is none.
pub open spec fn shown_time(time: Option<SystemTime>) -> int {
    match time {
        Some(t) => t.nanos_since_epoch as int,
        None => 0,
    }
}

/// The view of a scope says what the scope says.
pub open spec fn presents_scope(view: OtelLogExportScopeView, scope: InstrumentationScope) -> bool {
    &&& view.name.text() == Ok::<Seq<char>, AbiError>(scope.name@)
    &&& shows(view.version, scope.version)
    &&& shows(view.schema_url, scope.schema_url)
    &&& exists|body: OtelLogValue| #[trigger]
        flattens(
            (Flattened { body, attributes: view.attributes, nodes: view.value_nodes }),
            None,
            owned_keys(scope.attributes@),
            value_items(scope.attributes@),
        )
    &&& view.reserved@ =~= Seq::new(2, |i: int| 0u64)
}

/// Nanoseconds since the Unix epoch.
pub fn timestamp_nanos(value: SystemTime, what: &'static str) -> (r: Result<u64, ConversionError>)
    ensures
        r matches Ok(nanos) ==> nanos == value.nanos_since_epoch,
        r is Ok <==> time_fault(Some(value), what) is None,
        r matches Err(e) ==> time_fault(Some(value), what) == Some(e),
{
    if value.nanos_since_epoch < 0 {
        return Err(ConversionError::PredatesEpoch(what));
    }
    if value.nanos_since_epoch > u64::MAX as i128 {
        return Err(ConversionError::TimeRange(what));
    }
    Ok(value.nanos_since_epoch as u64)
}

fn optional_nanos(value: Option<SystemTime>, what: &'static str) -> (r: Result<u64, ConversionError>)
    ensures
        r matches Ok(nanos) ==> nanos == shown_time(value),
        r is Ok <==> time_fault(value, what) is None,
        r matches Err(e) ==> time_fault(value, what) == Some(e),
{
    match value {
        Some(time) => timestamp_nanos(time, what),
        None => Ok(0),
    }
}

fn view_of_optional<'a>(text: &'a Option<String>) -> (r: Result<OtelStringView<'a>, ConversionError>)
    ensures
        r matches Ok(view) ==> shows(view, *text),
        r is Ok <==> optional_text_fault(*text) is None,
        r matches Err(e) ==> optional_text_fault(*text) == Some(e),
{
    match text {
        Some(t) => optional_string_view(Some(t.as_str())),
        None => optional_string_view(None),
    }
}

/// The presence word of a record.
fn presence_bits(record: &ExportedRecord) -> (r: u64)
    ensures
        (r & OTEL_LOG_EXPORT_FIELD_TIMESTAMP != 0) == record.timestamp is Some,
        (r & OTEL_LOG_EXPORT_FIELD_OBSERVED_TIMESTAMP != 0) == record.observed_timestamp is Some,
        (r & OTEL_LOG_EXPORT_FIELD_TRACE_CONTEXT != 0) == record.trace_context is Some,
        (r & OTEL_LOG_EXPORT_FIELD_SEVERITY_TEXT != 0) == record.severity_text is Some,
        (r & OTEL_LOG_EXPORT_FIELD_EVENT_NAME != 0) == record.event_name is Some,
        (r & OTEL_LOG_EXPORT_FIELD_TARGET != 0) == record.target is Some,
        (r & OTEL_LOG_EXPORT_FIELD_BODY != 0) == record.body is Some,
        r & !OTEL_LOG_EXPORT_FIELD_KNOWN_MASK == 0,
{
    let a: u64 = if record.timestamp.is_some() {
        OTEL_LOG_EXPORT_FIELD_TIMESTAMP
    } else {
        0
    };
    let b: u64 = if record.observed_timestamp.is_some() {
        OTEL_LOG_EXPORT_FIELD_OBSERVED_TIMESTAMP
    } else {
        0
    };
    let c: u64 = if record.trace_context.is_some() {
        OTEL_LOG_EXPORT_FIELD_TRACE_CONTEXT
    } else {
        0
    };
    let d: u64 = if record.severity_text.is_some() {
        OTEL_LOG_EXPORT_FIELD_SEVERITY_TEXT
    } else {
        0
    };
    let e: u64 = if record.event_name.is_some() {
        OTEL_LOG_EXPORT_FIELD_EVENT_NAME
    } else {
        0
    };
    let f: u64 = if record.target.is_some() {
        OTEL_LOG_EXPORT_FIELD_TARGET
    } else {
        0
    };
    let g: u64 = if record.body.is_some() {
        OTEL_LOG_EXPORT_FIELD_BODY
    } else {
        0
    };
    let all: u64 = a | b | c | d | e | f | g;
    assert((all & 1 != 0) == (a != 0) && (all & 2 != 0) == (b != 0) && (all & 4 != 0) == (c != 0)
        && (all & 8 != 0) == (d != 0) && (all & 16 != 0) == (e != 0) && (all & 32 != 0) == (f != 0)
        && (all & 64 != 0) == (g != 0) && all & !127u64 == 0) by (bit_vector)
        requires
            all == a | b | c | d | e | f | g,
            a == 0 || a == 1,
            b == 0 || b == 2,
            c == 0 || c == 4,
            d == 0 || d == 8,
            e == 0 || e == 16,
            f == 0 || f == 32,
            g == 0 || g == 64,
    ;
    all
}

/// The attributes of a record as sources.
fn any_sources<'a>(attributes: &'a Vec<(String, AnyValue)>) -> (r: Result<
    Vec<(&'a str, Source<'a>)>,
    ConversionError,
>)
    ensures
        r matches Ok(sources) ==> attribute_keys(sources@) == owned_keys(attributes@)
            && attribute_items(sources@) == any_items(attributes@) && forall|i: int|
            0 <= i < sources@.len() ==> source_wf((#[trigger] sources@[i]).1),
        r matches Err(e) ==> list_refused(attributes@.len(), MemoryUse::RecordAttributes, e),
{
    let mut sources: Vec<(&'a str, Source<'a>)> = Vec::new();
    match reserve(&mut sources, attributes.len()) {
        Err(failure) => return Err(ConversionError::Memory(failure, MemoryUse::RecordAttributes)),
        Ok(_) => {},
    }
    let mut i: usize = 0;
    while i < attributes.len()
        invariant
            i <= attributes@.len(),
            sources@.len() == i,
            forall|j: int|
                0 <= j < i ==> (#[trigger] sources@[j]).0@ == attributes@[j].0@ && sources@[j].1
                    == Source::Any(&attributes@[j].1),
        decreases attributes@.len() - i,
    {
        sources.push((attributes[i].0.as_str(), Source::Any(&attributes[i].1)));
        i += 1;
    }
    assert(attribute_keys(sources@) =~= owned_keys(attributes@));
    assert(attribute_items(sources@) =~= any_items(attributes@));
    Ok(sources)
}

/// The attributes of a scope or a resource as sources.
fn value_sources<'a>(attributes: &'a Vec<(String, Value)>, purpose: MemoryUse) -> (r: Result<
    Vec<(&'a str, Source<'a>)>,
    ConversionError,
>)
    ensures
        r matches Ok(sources) ==> attribute_keys(sources@) == owned_keys(attributes@)
            && attribute_items(sources@) == value_items(attributes@) && forall|i: int|
            0 <= i < sources@.len() ==> source_wf((#[trigger] sources@[i]).1),
        r matches Err(e) ==> list_refused(attributes@.len(), purpose, e),
{
    let mut sources: Vec<(&'a str, Source<'a>)> = Vec::new();
    match reserve(&mut sources, attributes.len()) {
        Err(failure) => return Err(ConversionError::Memory(failure, purpose)),
        Ok(_) => {},
    }
    let mut i: usize = 0;
    while i < attributes.len()
        invariant
            i <= attributes@.len(),
            sources@.len() == i,
            forall|j: int|
                0 <= j < i ==> (#[trigger] sources@[j]).0@ == attributes@[j].0@ && sources@[j].1
                    == Source::Attribute(&attributes@[j].1),
        decreases attributes@.len() - i,
    {
        sources.push((attributes[i].0.as_str(), Source::Attribute(&attributes[i].1)));
        i += 1;
    }
    assert(attribute_keys(sources@) =~= owned_keys(attributes@));
    assert(attribute_items(sources@) =~= value_items(attributes@));
    Ok(sources)
}

/// Converts one record that belongs to the scope with the given index.
pub fn convert_record<'a>(
    record: &'a ExportedRecord,
    scope_index: usize,
    sizes: ExportViewSizes,
) -> (r: Result<OtelLogExportRecordView<'a>, ConversionError>)
    ensures
        r matches Ok(view) ==> export_record_fault(*record) is None && presents_record(view, *record)
            && view.scope == scope_index && view.struct_size == sizes.record,
        r matches Err(e) ==> if e.is_memory() {
            export_record_refused(*record, e)
        } else {
            export_record_fault(*record) == Some(e)
        },
        record_head_fault(*record) matches Some(e) ==> r == Err::<
            OtelLogExportRecordView<'a>,
            ConversionError,
        >(e),
        record_head_fault(*record) is None && record.body is None && record.attributes@.len() == 0
            ==> r is Ok,
{
    let timestamp_unix_nanos: u64 = optional_nanos(record.timestamp, "timestamp")?;
    let observed_timestamp_unix_nanos: u64 = optional_nanos(
        record.observed_timestamp,
        "observed timestamp",
    )?;
    let severity_text = view_of_optional(&record.severity_text)?;
    let event_name = view_of_optional(&record.event_name)?;
    let target = view_of_optional(&record.target)?;
    let present_fields: u64 = presence_bits(record);
    let mut trace_context = OtelLogTraceContext {
        trace_id: [0u8; 16],
        span_id: [0u8; 8],
        trace_flags: 0,
        reserved: [0u8; 7],
    };
    if let Some(context) = &record.trace_context {
        trace_context.trace_id = context.trace_id;
        trace_context.span_id = context.span_id;
        trace_context.trace_flags = match context.trace_flags {
            Some(flags) => flags,
            None => 0,
        };
    }
    let attributes = any_sources(&record.attributes)?;
    let body: Option<&'a AnyValue> = match &record.body {
        Some(value) => Some(value),
        None => None,
    };
    assert(optional_tree(body) == body_tree(record.body));
    let flattened = Flattener::new().flatten(body, attributes.as_slice())?;
    let severity: u32 = match record.severity_number {
        Some(severity) => severity_number(severity),
        None => 0,
    };
    Ok(
        OtelLogExportRecordView {
            struct_size: sizes.record,
            present_fields,
            timestamp_unix_nanos,
            observed_timestamp_unix_nanos,
            severity_number: severity,
            reserved_flags: 0,
            severity_text,
            event_name,
            target,
            body: flattened.body,
            attributes: flattened.attributes,
            value_nodes: flattened.nodes,
            trace_context,
            scope: scope_index,
            reserved: [0u64; 4],
        },
    )
}

/// Converts one scope.
pub fn convert_scope<'a>(scope: &'a InstrumentationScope, sizes: ExportViewSizes) -> (r: Result<
    OtelLogExportScopeView<'a>,
    ConversionError,
>)
    ensures
        r matches Ok(view) ==> scope_fault(*scope) is None && presents_scope(view, *scope)
            && view.struct_size == sizes.scope,
        r matches Err(e) ==> if e.is_memory() {
            scope_refused(*scope, e)
        } else {
            scope_fault(*scope) == Some(e)
        },
        scope.attributes@.len() == 0 ==> match scope_fault(*scope) {
            Some(e) => r == Err::<OtelLogExportScopeView<'a>, ConversionError>(e),
            None => r is Ok,
        },
{
    let attributes = value_sources(&scope.attributes, MemoryUse::ScopeAttributes)?;
    let flattened = Flattener::new().flatten(None, attributes.as_slice())?;
    let name = string_view(scope.name.as_str())?;
    let version = view_of_optional(&scope.version)?;
    let schema_url = view_of_optional(&scope.schema_url)?;
    let ghost whole = flattened;
    let view = OtelLogExportScopeView {
        struct_size: sizes.scope,
        name,
        version,
        schema_url,
        attributes: flattened.attributes,
        value_nodes: flattened.nodes,
        reserved: [0u64; 2],
    };
    assert(flattens(
        Flattened { body: whole.body, attributes: view.attributes, nodes: view.value_nodes },
        None,
        owned_keys(scope.attributes@),
        value_items(scope.attributes@),
    ));
    Ok(view)
}

/// Whether an entry before `i` has the same scope key.
pub open spec fn scope_seen(entries: Seq<BatchEntry>, i: int) -> bool {
    exists|j: int| 0 <= j < i && (#[trigger] entries[j]).scope_key == entries[i].scope_key
}

/// The entries among the first `n` whose scope occurs for the first time.
pub open spec fn first_seen(entries: Seq<BatchEntry>, n: int) -> Seq<int>
    decreases n,
{
    if n <= 0 {
        Seq::empty()
    } else if scope_seen(entries, n - 1) {
        first_seen(entries, n - 1)
    } else {
        first_seen(entries, n - 1).push(n - 1)
    }
}

/// What is wrong with entry `i`: too many records, a new scope that cannot be presented, or the
/// record itself.
pub open spec fn entry_fault(entries: Seq<BatchEntry>, i: int) -> Option<ConversionError> {
    if i + 1 > OTEL_LOG_EXPORT_MAX_RECORDS {
        Some(ConversionError::TooManyRecords)
    } else if !scope_seen(entries, i) && scope_fault(*entries[i].scope) is Some {
        scope_fault(*entries[i].scope)
    } else {
        export_record_fault(*entries[i].record)
    }
}

/// The allocator refused room at entry `i`: for its scope where that is new, for one more scope or
/// its key, for the record, or for one more record. Each comes after the checks before it.
pub open spec fn entry_refused(entries: Seq<BatchEntry>, i: int, e: ConversionError) -> bool {
    let scope = *entries[i].scope;
    let new_scope = !scope_seen(entries, i);
    &&& i + 1 <= OTEL_LOG_EXPORT_MAX_RECORDS
    &&& {
        ||| new_scope && scope_refused(scope, e)
        ||| new_scope && scope_fault(scope) is None && (piece_refused("scope view"@, e)
            || piece_refused("scope key"@, e))
        ||| (new_scope ==> scope_fault(scope) is None) && export_record_refused(
            *entries[i].record,
            e,
        )
        ||| entry_fault(entries, i) is None && piece_refused("record view"@, e)
    }
}

/// The allocator refused room at entry `i`, and no entry before it has a fault.
pub open spec fn refused_at(entries: Seq<BatchEntry>, i: int, e: ConversionError) -> bool {
    &&& 0 <= i < entries.len()
    &&& entry_refused(entries, i, e)
    &&& forall|j: int| 0 <= j < i ==> #[trigger] entry_fault(entries, j) is None
}

/// The allocator refused room that the batch asks for: for the attributes of the resource or, where
/// these can be presented, at some entry. A batch without entries whose resource has no attributes
/// asks for none.
pub open spec fn batch_refused(
    entries: Seq<BatchEntry>,
    resource: Resource,
    e: ConversionError,
) -> bool {
    ||| resource_refused(resource, e)
    ||| owner_fault(None, owned_keys(resource.attributes@), value_items(resource.attributes@)) is None
        && exists|i: int| #[trigger] refused_at(entries, i, e)
}

/// The conversion of the batch ends before anything is reserved for it: the resource has no
/// attributes, and either there is no entry or the scope of the first, which has no attributes
/// either, cannot be presented.
pub open spec fn reserves_nothing(entries: Seq<BatchEntry>, resource: Resource) -> bool {
    &&& resource.attributes@.len() == 0
    &&& entries.len() > 0 ==> entries[0].scope.attributes@.len() == 0 && scope_fault(
        *entries[0].scope,
    ) is Some
}

/// The first violation among the entries from `i` on.
pub open spec fn entries_fault(entries: Seq<BatchEntry>, i: int) -> Option<ConversionError>
    decreases entries.len() - i,
{
    if i >= entries.len() {
        None
    } else if entry_fault(entries, i) is Some {
        entry_fault(entries, i)
    } else {
        entries_fault(entries, i + 1)
    }
}

/// Why a batch cannot be presented, if it cannot.
pub open spec fn batch_fault(entries: Seq<BatchEntry>, resource: Resource) -> Option<
    ConversionError,
> {
    either_fault(
        owner_fault(None, owned_keys(resource.attributes@), value_items(resource.attributes@)),
        either_fault(entries_fault(entries, 0), optional_text_fault(resource.schema_url)),
    )
}

/// The view of a batch says what the batch says: its records in order, each with its scope, every
/// scope once in the order of first use, and the resource.
pub open spec fn presents_batch(
    view: OtelLogExportBatchView,
    entries: Seq<BatchEntry>,
    resource: Resource,
) -> bool {
    let firsts = first_seen(entries, entries.len() as int);
    &&& view.records@.len() == entries.len()
    &&& forall|i: int|
        0 <= i < entries.len() ==> presents_record(#[trigger] view.records@[i], *entries[i].record)
            && view.records@[i].scope < view.scopes@.len()
            && entries[firsts[view.records@[i].scope as int]].scope_key == entries[i].scope_key
    &&& view.scopes@.len() == firsts.len()
    &&& forall|t: int|
        0 <= t < firsts.len() ==> presents_scope(#[trigger] view.scopes@[t], *entries[firsts[t]].scope)
    &&& shows(view.resource_schema_url, resource.schema_url)
    &&& exists|body: OtelLogValue| #[trigger]
        flattens(
            (Flattened {
                body,
                attributes: view.resource_attributes,
                nodes: view.resource_value_nodes,
            }),
            None,
            owned_keys(resource.attributes@),
            value_items(resource.attributes@),
        )
    &&& view.reserved@ =~= Seq::new(4, |i: int| 0u64)
}

/// The structures of a batch view announce their sizes.
pub open spec fn sized(view: OtelLogExportBatchView, sizes: ExportViewSizes) -> bool {
    &&& view.struct_size == sizes.batch
    &&& forall|i: int|
        0 <= i < view.records@.len() ==> (#[trigger] view.records@[i]).struct_size == sizes.record
    &&& forall|t: int|
        0 <= t < view.scopes@.len() ==> (#[trigger] view.scopes@[t]).struct_size == sizes.scope
}

/// Appends one element, or reports that there is no room for it.
fn try_push<T>(values: &mut Vec<T>, value: T, what: &'static str) -> (r: Result<(), ConversionError>)
    ensures
        r is Ok ==> final(values)@ == old(values)@.push(value),
        r matches Err(e) ==> piece_refused(what@, e),
{
    match reserve(values, 1) {
        Err(failure) => return Err(ConversionError::Memory(failure, MemoryUse::Piece(what))),
        Ok(_) => {},
    }
    values.push(value);
    Ok(())
}

/// The position of a key.
fn position_of(keys: &Vec<usize>, key: usize) -> (r: Option<usize>)
    ensures
        match r {
            Some(i) => i < keys@.len() && keys@[i as int] == key,
            None => forall|i: int| 0 <= i < keys@.len() ==> #[trigger] keys@[i] != key,
        },
{
    let mut i: usize = 0;
    while i < keys.len()
        invariant
            i <= keys@.len(),
            forall|j: int| 0 <= j < i ==> #[trigger] keys@[j] != key,
        decreases keys@.len() - i,
    {
        if keys[i] == key {
            return Some(i);
        }
        i += 1;
    }
    None
}

/// The keys of the scopes seen so far, in order of first use.
spec fn seen_keys(entries: Seq<BatchEntry>, n: int) -> Seq<usize> {
    Seq::new(
        first_seen(entries, n).len(),
        |t: int| entries[first_seen(entries, n)[t]].scope_key,
    )
}

/// A scope occurred among the first `n` entries exactly when its key is known.
proof fn lemma_seen(entries: Seq<BatchEntry>, n: int, key: usize)
    requires
        0 <= n <= entries.len(),
    ensures
        (exists|j: int| 0 <= j < n && (#[trigger] entries[j]).scope_key == key) <==> exists|t: int|
            0 <= t < seen_keys(entries, n).len() && #[trigger] seen_keys(entries, n)[t] == key,
        forall|t: int|
            0 <= t < first_seen(entries, n).len() ==> 0 <= #[trigger] first_seen(entries, n)[t] < n,
    decreases n,
{
    if n > 0 {
        lemma_seen(entries, n - 1, key);
        lemma_seen(entries, n - 1, entries[n - 1].scope_key);
        let before = seen_keys(entries, n - 1);
        let now = seen_keys(entries, n);
        let firsts = first_seen(entries, n - 1);
        if scope_seen(entries, n - 1) {
            assert(now =~= before);
        } else {
            assert(now =~= before.push(entries[n - 1].scope_key));
        }
        if exists|j: int| 0 <= j < n && (#[trigger] entries[j]).scope_key == key {
            let j = choose|j: int| 0 <= j < n && (#[trigger] entries[j]).scope_key == key;
            if j < n - 1 {
                let t = choose|t: int| 0 <= t < before.len() && #[trigger] before[t] == key;
                assert(now[t] == key);
            } else if scope_seen(entries, n - 1) {
                let t = choose|t: int| 0 <= t < before.len() && #[trigger] before[t] == key;
                assert(now[t] == key);
            } else {
                assert(now[now.len() - 1] == key);
            }
        }
        if exists|t: int| 0 <= t < now.len() && #[trigger] now[t] == key {
            let t = choose|t: int| 0 <= t < now.len() && #[trigger] now[t] == key;
            if t < before.len() {
                assert(before[t] == key);
                let j = choose|j: int| 0 <= j < n - 1 && (#[trigger] entries[j]).scope_key == key;
                assert(entries[j].scope_key == key);
            } else {
                assert(entries[n - 1].scope_key == key);
            }
        }
    }
}

/// Where records with the same scope key come through the same scope, every record is shown with
/// its own scope.
pub proof fn records_are_shown_with_their_scope(
    view: OtelLogExportBatchView,
    entries: Seq<BatchEntry>,
    resource: Resource,
    i: int,
)
    requires
        presents_batch(view, entries, resource),
        forall|j: int, k: int|
            0 <= j < entries.len() && 0 <= k < entries.len() && (#[trigger] entries[j]).scope_key
                == (#[trigger] entries[k]).scope_key ==> entries[j].scope == entries[k].scope,
        0 <= i < entries.len(),
    ensures
        view.records@[i].scope < view.scopes@.len(),
        presents_scope(view.scopes@[view.records@[i].scope as int], *entries[i].scope),
{
    let firsts = first_seen(entries, entries.len() as int);
    lemma_seen(entries, entries.len() as int, entries[i].scope_key);
    assert(presents_record(view.records@[i], *entries[i].record));
    let t = view.records@[i].scope as int;
    assert(presents_scope(view.scopes@[t], *entries[firsts[t]].scope));
    assert(entries[firsts[t]].scope_key == entries[i].scope_key);
}

/// Converts a batch and the exporter's resource into the view. Either everything is converted or
/// nothing is handed out.
pub fn convert_batch<'a>(
    entries: &[BatchEntry<'a>],
    resource: &'a Resource,
    sizes: ExportViewSizes,
) -> (r: Result<OtelLogExportBatchView<'a>, ConversionError>)
    ensures
        r matches Ok(view) ==> batch_fault(entries@, *resource) is None && presents_batch(
            view,
            entries@,
            *resource,
        ) && sized(view, sizes),
        r matches Err(e) ==> if e.is_memory() {
            batch_refused(entries@, *resource, e)
        } else {
            batch_fault(entries@, *resource) == Some(e)
        },
        reserves_nothing(entries@, *resource) ==> match batch_fault(entries@, *resource) {
            Some(e) => r == Err::<OtelLogExportBatchView<'a>, ConversionError>(e),
            None => r is Ok,
        },
{
    assert(reserves_nothing(entries@, *resource) && entries@.len() > 0 ==> entry_fault(
        entries@,
        0,
    ) is Some);
    let resource_attributes = value_sources(&resource.attributes, MemoryUse::ResourceAttributes)?;
    let flattened = Flattener::new().flatten(None, resource_attributes.as_slice())?;
    let ghost whole = flattened;

    let mut scopes: Vec<OtelLogExportScopeView<'a>> = Vec::new();
    let mut scope_keys: Vec<usize> = Vec::new();
    let mut records: Vec<OtelLogExportRecordView<'a>> = Vec::new();
    assert(scope_keys@ =~= seen_keys(entries@, 0));
    let mut i: usize = 0;
    while i < entries.len()
        invariant
            i <= entries@.len(),
            owner_fault(None, owned_keys(resource.attributes@), value_items(resource.attributes@)) is None,
            entries_fault(entries@, 0) == entries_fault(entries@, i as int),
            forall|j: int| 0 <= j < i ==> #[trigger] entry_fault(entries@, j) is None,
            scope_keys@ == seen_keys(entries@, i as int),
            scopes@.len() == scope_keys@.len(),
            records@.len() == i,
            forall|j: int|
                0 <= j < records@.len() ==> (#[trigger] records@[j]).struct_size == sizes.record,
            forall|t: int|
                0 <= t < scopes@.len() ==> (#[trigger] scopes@[t]).struct_size == sizes.scope,
            forall|t: int|
                0 <= t < scopes@.len() ==> presents_scope(
                    #[trigger] scopes@[t],
                    *entries@[first_seen(entries@, i as int)[t]].scope,
                ),
            forall|j: int|
                0 <= j < i ==> presents_record(#[trigger] records@[j], *entries@[j].record)
                    && records@[j].scope < scopes@.len() && scope_keys@[records@[j].scope as int]
                    == entries@[j].scope_key,
        decreases entries@.len() - i,
    {
        if i >= OTEL_LOG_EXPORT_MAX_RECORDS {
            return Err(ConversionError::TooManyRecords);
        }
        let entry = entries[i];
        let ghost keys_before = scope_keys@;
        let ghost firsts = first_seen(entries@, i as int);
        proof {
            lemma_seen(entries@, i as int, entry.scope_key);
        }
        let scope_index: usize = match position_of(&scope_keys, entry.scope_key) {
            Some(index) => {
                assert(seen_keys(entries@, i as int)[index as int] == entry.scope_key);
                assert(scope_seen(entries@, i as int));
                assert(seen_keys(entries@, i + 1) =~= scope_keys@);
                index
            },
            None => {
                assert(!scope_seen(entries@, i as int)) by {
                    if scope_seen(entries@, i as int) {
                        let t = choose|t: int|
                            0 <= t < seen_keys(entries@, i as int).len() && #[trigger] seen_keys(
                                entries@,
                                i as int,
                            )[t] == entry.scope_key;
                        assert(scope_keys@[t] == entry.scope_key);
                    }
                }
                let added = match convert_scope(entry.scope, sizes) {
                    Ok(converted) => match try_push(&mut scopes, converted, "scope view") {
                        Ok(_) => try_push(&mut scope_keys, entry.scope_key, "scope key"),
                        Err(e) => Err(e),
                    },
                    Err(e) => Err(e),
                };
                if let Err(e) = added {
                    assert(entry_refused(entries@, i as int, e) ==> refused_at(
                        entries@,
                        i as int,
                        e,
                    ));
                    return Err(e);
                }
                assert(first_seen(entries@, i + 1) == firsts.push(i as int));
                assert(seen_keys(entries@, i + 1) =~= scope_keys@);
                scopes.len() - 1
            },
        };
        let added = match convert_record(entry.record, scope_index, sizes) {
            Ok(converted) => try_push(&mut records, converted, "record view"),
            Err(e) => Err(e),
        };
        if let Err(e) = added {
            assert(entry_refused(entries@, i as int, e) ==> refused_at(entries@, i as int, e));
            return Err(e);
        }
        proof {
            assert forall|j: int| 0 <= j < i implies scope_keys@[(#[trigger] records@[j]).scope as int]
                == entries@[j].scope_key by {
                assert(keys_before[records@[j].scope as int] == entries@[j].scope_key);
            }
        }
        i += 1;
    }
    let resource_schema_url = view_of_optional(&resource.schema_url)?;
    let view = OtelLogExportBatchView {
        struct_size: sizes.batch,
        records,
        scopes,
        resource_schema_url,
        resource_attributes: flattened.attributes,
        resource_value_nodes: flattened.nodes,
        reserved: [0u64; 4],
    };
    assert(flattens(
        Flattened {
            body: whole.body,
            attributes: view.resource_attributes,
            nodes: view.resource_value_nodes,
        },
        None,
        owned_keys(resource.attributes@),
        value_items(resource.attributes@),
    ));
    Ok(view)
}

} // verus!
