//! Log values: the flat node-pool form used on the C boundary, the owned form, and the tree
//! that both denote.

use vstd::prelude::*;

use crate::abi::OtelStringView;

verus! {

/// Longest accepted string or key, in bytes.
pub const OTEL_LOG_MAX_STRING_LEN: usize = 1_048_576;

/// Longest accepted byte value.
pub const OTEL_LOG_MAX_BYTES_LEN: usize = 1_048_576;

/// Most elements of one array.
pub const OTEL_LOG_MAX_ARRAY_ELEMENTS: usize = 1024;

/// Most entries of one map.
pub const OTEL_LOG_MAX_MAP_ENTRIES: usize = 1024;

/// Most attributes of one record, scope or resource.
pub const OTEL_LOG_MAX_ATTRIBUTES: usize = 1024;

/// Most nodes of one pool.
pub const OTEL_LOG_MAX_VALUE_NODES: usize = 8192;

/// Deepest accepted nesting; a scalar has depth one.
pub const OTEL_LOG_MAX_VALUE_DEPTH: usize = 32;

/// The kinds of log values.
#[derive(Clone, Copy, Debug, PartialEq, Eq, Structural)]
pub enum OtelLogValueType {
    Empty,
    String,
    Bool,
    Int64,
    Double,
    Bytes,
    Array,
    KvMap,
}

/// The owned value of a log body or attribute. A double is held by its bit pattern.
#[derive(Debug)]
pub enum AnyValue {
    Int(i64),
    Double(u64),
    String(String),
    Boolean(bool),
    Bytes(Vec<u8>),
    ListAny(Vec<AnyValue>),
    KvMap(Vec<(String, AnyValue)>),
    /// A kind of value that this version has no form for.
    Unknown,
}

/// The mathematical value of a log body or attribute.
pub enum ValueTree {
    Int(i64),
    Double(u64),
    Str(Seq<char>),
    Boolean(bool),
    Bytes(Seq<u8>),
    List(Seq<ValueTree>),
    Entries(Seq<(Seq<char>, ValueTree)>),
    /// No value.
    Invalid,
}

impl AnyValue {
    /// The tree of this value.
    pub open spec fn tree(self) -> ValueTree
        decreases self,
    {
        match self {
            AnyValue::Int(v) => ValueTree::Int(v),
            AnyValue::Double(v) => ValueTree::Double(v),
            AnyValue::String(v) => ValueTree::Str(v@),
            AnyValue::Boolean(v) => ValueTree::Boolean(v),
            AnyValue::Bytes(v) => ValueTree::Bytes(v@),
            AnyValue::Unknown => ValueTree::Invalid,
            AnyValue::ListAny(items) => ValueTree::List(
                Seq::new(
                    items@.len(),
                    |i: int|
                        if 0 <= i < items@.len() {
                            items@[i].tree()
                        } else {
                            ValueTree::Invalid
                        },
                ),
            ),
            AnyValue::KvMap(entries) => ValueTree::Entries(
                Seq::new(
                    entries@.len(),
                    |i: int|
                        if 0 <= i < entries@.len() {
                            (entries@[i].0@, entries@[i].1.tree())
                        } else {
                            (Seq::empty(), ValueTree::Invalid)
                        },
                ),
            ),
        }
    }
}

impl OtelLogValueType {
    /// The kind with the given C tag.
    pub open spec fn spec_from_u32(tag: u32) -> Option<OtelLogValueType> {
        match tag {
            0 => Some(OtelLogValueType::Empty),
            1 => Some(OtelLogValueType::String),
            2 => Some(OtelLogValueType::Bool),
            3 => Some(OtelLogValueType::Int64),
            4 => Some(OtelLogValueType::Double),
            5 => Some(OtelLogValueType::Bytes),
            6 => Some(OtelLogValueType::Array),
            7 => Some(OtelLogValueType::KvMap),
            _ => None,
        }
    }

    /// The C tag of this kind.
    pub open spec fn spec_as_u32(self) -> u32 {
        match self {
            OtelLogValueType::Empty => 0,
            OtelLogValueType::String => 1,
            OtelLogValueType::Bool => 2,
            OtelLogValueType::Int64 => 3,
            OtelLogValueType::Double => 4,
            OtelLogValueType::Bytes => 5,
            OtelLogValueType::Array => 6,
            OtelLogValueType::KvMap => 7,
        }
    }

    /// The kind with the given C tag.
    pub fn from_u32(tag: u32) -> (r: Option<OtelLogValueType>)
        ensures
            r == Self::spec_from_u32(tag),
    {
        match tag {
            0 => Some(OtelLogValueType::Empty),
            1 => Some(OtelLogValueType::String),
            2 => Some(OtelLogValueType::Bool),
            3 => Some(OtelLogValueType::Int64),
            4 => Some(OtelLogValueType::Double),
            5 => Some(OtelLogValueType::Bytes),
            6 => Some(OtelLogValueType::Array),
            7 => Some(OtelLogValueType::KvMap),
            _ => None,
        }
    }

    /// The C tag of this kind.
    pub fn as_u32(self) -> (r: u32)
        ensures
            r == self.spec_as_u32(),
    {
        match self {
            OtelLogValueType::Empty => 0,
            OtelLogValueType::String => 1,
            OtelLogValueType::Bool => 2,
            OtelLogValueType::Int64 => 3,
            OtelLogValueType::Double => 4,
            OtelLogValueType::Bytes => 5,
            OtelLogValueType::Array => 6,
            OtelLogValueType::KvMap => 7,
        }
    }
}

/// Tags and kinds correspond one to one.
pub proof fn tags_and_kinds_correspond(tag: u32, kind: OtelLogValueType)
    ensures
        OtelLogValueType::spec_from_u32(tag) == Some(kind) <==> kind.spec_as_u32() == tag,
{
}

/// A range `[first, first + count)` of pool nodes.
#[derive(Clone, Copy, Debug, PartialEq, Eq, Structural)]
pub struct OtelLogValueRange {
    pub first: u32,
    pub count: u32,
}

/// A borrowed byte string. `None` stands for a NULL pointer with a non-zero length.
#[derive(Clone, Copy, Debug)]
pub struct OtelLogBytesView<'a> {
    pub bytes: Option<&'a [u8]>,
}

/// The payload of a value: one slot per kind, of which the tag selects one.
#[derive(Clone, Copy, Debug)]
pub struct OtelLogValuePayload<'a> {
    pub string_value: OtelStringView<'a>,
    pub bytes_value: OtelLogBytesView<'a>,
    pub bool_value: u32,
    pub int64_value: i64,
    /// The bit pattern of a double.
    pub double_value: u64,
    pub children: OtelLogValueRange,
}

/// A tagged value. Containers address their children in a pool of nodes.
#[derive(Clone, Copy, Debug)]
pub struct OtelLogValue<'a> {
    pub value_type: u32,
    pub reserved: u32,
    pub value: OtelLogValuePayload<'a>,
}

/// A keyed value: a pool node or an attribute.
#[derive(Clone, Copy, Debug)]
pub struct OtelLogValueNode<'a> {
    pub key: OtelStringView<'a>,
    pub value: OtelLogValue<'a>,
}

impl<'a> OtelLogValue<'a> {
    /// The kind that the tag selects.
    pub open spec fn kind(self) -> Option<OtelLogValueType> {
        OtelLogValueType::spec_from_u32(self.value_type)
    }

    /// Whether the value has children.
    pub open spec fn is_container(self) -> bool {
        self.kind() == Some(OtelLogValueType::Array) || self.kind() == Some(OtelLogValueType::KvMap)
    }

    /// Index of the first child.
    pub open spec fn first(self) -> int {
        self.value.children.first as int
    }

    /// Number of children.
    pub open spec fn count(self) -> int {
        self.value.children.count as int
    }

    /// One past the index of the last child.
    pub open spec fn end(self) -> int {
        self.first() + self.count()
    }

    /// Whether node `index` is a child of this value.
    pub open spec fn claims(self, index: int) -> bool {
        self.is_container() && self.first() <= index < self.end()
    }

    /// A truth value is the word zero or the word one.
    pub open spec fn plain_truth(self) -> bool {
        self.kind() == Some(OtelLogValueType::Bool) ==> self.value.bool_value <= 1
    }

    /// The children lie inside a pool of `len` nodes, beyond index `floor`.
    pub open spec fn addresses(self, floor: int, len: nat) -> bool {
        self.count() == 0 || (floor < self.first() && self.end() <= len)
    }
}

/// The text of a key, empty where it has none.
pub open spec fn key_text(node: OtelLogValueNode) -> Seq<char> {
    match node.key.text() {
        Ok(text) => text,
        Err(_) => Seq::empty(),
    }
}

/// The tree that `value`, held at pool index `floor`, denotes over the pool `nodes`. A root is
/// held at index `-1`.
pub open spec fn tree_of(nodes: Seq<OtelLogValueNode>, value: OtelLogValue, floor: int) -> ValueTree
    decreases nodes.len() - floor,
{
    match value.kind() {
        Some(OtelLogValueType::String) => match value.value.string_value.text() {
            Ok(text) => ValueTree::Str(text),
            Err(_) => ValueTree::Invalid,
        },
        Some(OtelLogValueType::Bool) => ValueTree::Boolean(value.value.bool_value != 0),
        Some(OtelLogValueType::Int64) => ValueTree::Int(value.value.int64_value),
        Some(OtelLogValueType::Double) => ValueTree::Double(value.value.double_value),
        Some(OtelLogValueType::Bytes) => match value.value.bytes_value.bytes {
            Some(bytes) => ValueTree::Bytes(bytes@),
            None => ValueTree::Invalid,
        },
        Some(OtelLogValueType::Array) => if value.addresses(floor, nodes.len()) {
            ValueTree::List(
                Seq::new(
                    value.count() as nat,
                    |i: int|
                        if 0 <= i < value.count() {
                            tree_of(nodes, nodes[value.first() + i].value, value.first() + i)
                        } else {
                            ValueTree::Invalid
                        },
                ),
            )
        } else {
            ValueTree::Invalid
        },
        Some(OtelLogValueType::KvMap) => if value.addresses(floor, nodes.len()) {
            ValueTree::Entries(
                Seq::new(
                    value.count() as nat,
                    |i: int|
                        if 0 <= i < value.count() {
                            (
                                key_text(nodes[value.first() + i]),
                                tree_of(nodes, nodes[value.first() + i].value, value.first() + i),
                            )
                        } else {
                            (Seq::empty(), ValueTree::Invalid)
                        },
                ),
            )
        } else {
            ValueTree::Invalid
        },
        _ => ValueTree::Invalid,
    }
}

} // verus!
