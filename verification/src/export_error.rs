//! Why an exported log batch cannot be presented to C.

use vstd::prelude::*;

use crate::abi::OtelStatus;
use crate::log_value::{
    OTEL_LOG_MAX_ARRAY_ELEMENTS, OTEL_LOG_MAX_ATTRIBUTES, OTEL_LOG_MAX_BYTES_LEN,
    OTEL_LOG_MAX_MAP_ENTRIES, OTEL_LOG_MAX_STRING_LEN, OTEL_LOG_MAX_VALUE_DEPTH,
    OTEL_LOG_MAX_VALUE_NODES,
};
use crate::memory::AllocationFailure;
use crate::text::{append_decimal, decimal, numbered, numbered_text};

verus! {

/// Maximum number of records one export callback may observe in a single batch.
pub const OTEL_LOG_EXPORT_MAX_RECORDS: usize = 65_536;

/// What a refused allocation was meant for.
#[derive(Clone, Copy, Debug)]
pub enum MemoryUse {
    Elements(usize),
    Nodes(usize),
    WorkQueue,
    MapOrder,
    ArrayAttribute,
    RecordAttributes,
    ScopeAttributes,
    ResourceAttributes,
    Piece(&'static str),
}

/// A conversion failure. It names the offending limit or field and reproduces no telemetry.
#[derive(Clone, Copy, Debug)]
pub enum ConversionError {
    StringTooLong(usize),
    BytesTooLong(usize),
    ArrayTooLarge(usize),
    MapTooLarge(usize),
    AttributeArrayTooLarge(usize),
    TooManyAttributes(usize),
    TooManyNodes(usize),
    NodeIndexRange,
    ContainerRange,
    NodeCountOverflow,
    TooDeep,
    UnknownKind,
    UnknownArrayElement,
    UnknownAttribute,
    PredatesEpoch(&'static str),
    TimeRange(&'static str),
    TooManyRecords,
    Memory(AllocationFailure, MemoryUse),
}

/// A count, what it counts, and the limit that it exceeds.
pub open spec fn exceeds(
    prefix: Seq<char>,
    n: nat,
    middle: Seq<char>,
    limit: nat,
    suffix: Seq<char>,
) -> Seq<char> {
    prefix + decimal(n) + middle + decimal(limit) + suffix
}

fn exceeds_text(prefix: &str, n: usize, middle: &str, limit: usize, suffix: &str) -> (r: String)
    ensures
        r@ == exceeds(prefix@, n as nat, middle@, limit as nat, suffix@),
{
    let mut out = prefix.to_owned();
    append_decimal(&mut out, n as u64);
    out.append(middle);
    append_decimal(&mut out, limit as u64);
    out.append(suffix);
    out
}

fn around(prefix: &str, what: &str, suffix: &str) -> (r: String)
    ensures
        r@ == prefix@ + what@ + suffix@,
{
    let mut out = prefix.to_owned();
    out.append(what);
    out.append(suffix);
    out
}

impl MemoryUse {
    /// The diagnostic of the refused allocation.
    pub open spec fn spec_message(self) -> Seq<char> {
        match self {
            MemoryUse::Elements(n) => numbered(
                "failed to allocate "@,
                n as nat,
                " elements for the exported log batch view"@,
            ),
            MemoryUse::Nodes(n) => numbered(
                "failed to allocate "@,
                n as nat,
                " exported log value nodes"@,
            ),
            MemoryUse::WorkQueue => "failed to allocate the exported log conversion work queue"@,
            MemoryUse::MapOrder => "failed to allocate an exported log map ordering"@,
            MemoryUse::ArrayAttribute => "failed to allocate an exported array attribute"@,
            MemoryUse::RecordAttributes =>
                "failed to allocate the exported log record attribute list"@,
            MemoryUse::ScopeAttributes => "failed to allocate the exported log scope attribute list"@,
            MemoryUse::ResourceAttributes =>
                "failed to allocate the exported log resource attribute list"@,
            MemoryUse::Piece(what) => "failed to allocate an exported log "@ + what@,
        }
    }

    /// The diagnostic of the refused allocation.
    pub fn message(&self) -> (r: String)
        ensures
            r@ == self.spec_message(),
    {
        match self {
            MemoryUse::Elements(n) => numbered_text(
                "failed to allocate ",
                *n as u64,
                " elements for the exported log batch view",
            ),
            MemoryUse::Nodes(n) => numbered_text(
                "failed to allocate ",
                *n as u64,
                " exported log value nodes",
            ),
            MemoryUse::WorkQueue =>
                "failed to allocate the exported log conversion work queue".to_owned(),
            MemoryUse::MapOrder => "failed to allocate an exported log map ordering".to_owned(),
            MemoryUse::ArrayAttribute => "failed to allocate an exported array attribute".to_owned(),
            MemoryUse::RecordAttributes =>
                "failed to allocate the exported log record attribute list".to_owned(),
            MemoryUse::ScopeAttributes =>
                "failed to allocate the exported log scope attribute list".to_owned(),
            MemoryUse::ResourceAttributes =>
                "failed to allocate the exported log resource attribute list".to_owned(),
            MemoryUse::Piece(what) => {
                let mut out = "failed to allocate an exported log ".to_owned();
                out.append(*what);
                out
            },
        }
    }
}

impl ConversionError {
    /// Whether the allocator, not the batch, is to blame.
    pub open spec fn is_memory(self) -> bool {
        self is Memory
    }

    /// The diagnostic of this failure.
    pub open spec fn spec_message(self) -> Seq<char> {
        match self {
            ConversionError::StringTooLong(n) => exceeds(
                "exported log string of "@,
                n as nat,
                " bytes exceeds the "@,
                OTEL_LOG_MAX_STRING_LEN as nat,
                "-byte limit"@,
            ),
            ConversionError::BytesTooLong(n) => exceeds(
                "exported log byte value of "@,
                n as nat,
                " bytes exceeds the "@,
                OTEL_LOG_MAX_BYTES_LEN as nat,
                "-byte limit"@,
            ),
            ConversionError::ArrayTooLarge(n) => exceeds(
                "exported log array of "@,
                n as nat,
                " elements exceeds the "@,
                OTEL_LOG_MAX_ARRAY_ELEMENTS as nat,
                "-element limit"@,
            ),
            ConversionError::MapTooLarge(n) => exceeds(
                "exported log map of "@,
                n as nat,
                " entries exceeds the "@,
                OTEL_LOG_MAX_MAP_ENTRIES as nat,
                "-entry limit"@,
            ),
            ConversionError::AttributeArrayTooLarge(n) => exceeds(
                "exported attribute array of "@,
                n as nat,
                " elements exceeds the "@,
                OTEL_LOG_MAX_ARRAY_ELEMENTS as nat,
                "-element limit"@,
            ),
            ConversionError::TooManyAttributes(n) => exceeds(
                "exported log owner carries "@,
                n as nat,
                " attributes, above the "@,
                OTEL_LOG_MAX_ATTRIBUTES as nat,
                "-attribute limit"@,
            ),
            ConversionError::TooManyNodes(n) => exceeds(
                "exported log value needs "@,
                n as nat,
                " nodes, above the "@,
                OTEL_LOG_MAX_VALUE_NODES as nat,
                "-node limit"@,
            ),
            ConversionError::NodeIndexRange =>
                "exported log value node index exceeds the 32-bit pool range"@,
            ConversionError::ContainerRange =>
                "exported log container size exceeds the 32-bit pool range"@,
            ConversionError::NodeCountOverflow =>
                "exported log value node count overflowed the address space"@,
            ConversionError::TooDeep => numbered(
                "exported log value nesting exceeds the "@,
                OTEL_LOG_MAX_VALUE_DEPTH as nat,
                "-level limit"@,
            ),
            ConversionError::UnknownKind =>
                "exported log value uses a value kind that this ABI version cannot represent"@,
            ConversionError::UnknownArrayElement =>
                "exported attribute array uses an unsupported element type"@,
            ConversionError::UnknownAttribute => "exported attribute uses an unsupported value type"@,
            ConversionError::PredatesEpoch(what) => "exported log "@ + what@
                + " predates the Unix epoch"@,
            ConversionError::TimeRange(what) => "exported log "@ + what@ + " exceeds the u64 range"@,
            ConversionError::TooManyRecords => numbered(
                "exported log batch carries more than "@,
                OTEL_LOG_EXPORT_MAX_RECORDS as nat,
                " records"@,
            ),
            ConversionError::Memory(_, purpose) => purpose.spec_message(),
        }
    }

    /// The status class of every conversion failure.
    pub fn status(&self) -> (r: OtelStatus)
        ensures
            r == OtelStatus::ExportFailed,
    {
        OtelStatus::ExportFailed
    }

    /// The diagnostic of this failure.
    pub fn message(&self) -> (r: String)
        ensures
            r@ == self.spec_message(),
    {
        match self {
            ConversionError::StringTooLong(n) => exceeds_text(
                "exported log string of ",
                *n,
                " bytes exceeds the ",
                OTEL_LOG_MAX_STRING_LEN,
                "-byte limit",
            ),
            ConversionError::BytesTooLong(n) => exceeds_text(
                "exported log byte value of ",
                *n,
                " bytes exceeds the ",
                OTEL_LOG_MAX_BYTES_LEN,
                "-byte limit",
            ),
            ConversionError::ArrayTooLarge(n) => exceeds_text(
                "exported log array of ",
                *n,
                " elements exceeds the ",
                OTEL_LOG_MAX_ARRAY_ELEMENTS,
                "-element limit",
            ),
            ConversionError::MapTooLarge(n) => exceeds_text(
                "exported log map of ",
                *n,
                " entries exceeds the ",
                OTEL_LOG_MAX_MAP_ENTRIES,
                "-entry limit",
            ),
            ConversionError::AttributeArrayTooLarge(n) => exceeds_text(
                "exported attribute array of ",
                *n,
                " elements exceeds the ",
                OTEL_LOG_MAX_ARRAY_ELEMENTS,
                "-element limit",
            ),
            ConversionError::TooManyAttributes(n) => exceeds_text(
                "exported log owner carries ",
                *n,
                " attributes, above the ",
                OTEL_LOG_MAX_ATTRIBUTES,
                "-attribute limit",
            ),
            ConversionError::TooManyNodes(n) => exceeds_text(
                "exported log value needs ",
                *n,
                " nodes, above the ",
                OTEL_LOG_MAX_VALUE_NODES,
                "-node limit",
            ),
            ConversionError::NodeIndexRange =>
                "exported log value node index exceeds the 32-bit pool range".to_owned(),
            ConversionError::ContainerRange =>
                "exported log container size exceeds the 32-bit pool range".to_owned(),
            ConversionError::NodeCountOverflow =>
                "exported log value node count overflowed the address space".to_owned(),
            ConversionError::TooDeep => numbered_text(
                "exported log value nesting exceeds the ",
                OTEL_LOG_MAX_VALUE_DEPTH as u64,
                "-level limit",
            ),
            ConversionError::UnknownKind =>
                "exported log value uses a value kind that this ABI version cannot represent".to_owned(),
            ConversionError::UnknownArrayElement =>
                "exported attribute array uses an unsupported element type".to_owned(),
            ConversionError::UnknownAttribute =>
                "exported attribute uses an unsupported value type".to_owned(),
            ConversionError::PredatesEpoch(what) => around(
                "exported log ",
                *what,
                " predates the Unix epoch",
            ),
            ConversionError::TimeRange(what) => around(
                "exported log ",
                *what,
                " exceeds the u64 range",
            ),
            ConversionError::TooManyRecords => numbered_text(
                "exported log batch carries more than ",
                OTEL_LOG_EXPORT_MAX_RECORDS as u64,
                " records",
            ),
            ConversionError::Memory(_, purpose) => purpose.message(),
        }
    }
}

} // verus!
