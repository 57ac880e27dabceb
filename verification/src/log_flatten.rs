//! Breadth-first flattening of owned values into a node pool.
//!
//! A container's children are appended to the end of the pool in one contiguous block when the
//! container is visited, so the blocks of the visited values follow one another and every child
//! lies beyond its parent.

use vstd::prelude::*;
use vstd::utf8::encode_utf8;

use crate::abi::{AbiError, OtelStringView};
use crate::export_error::{ConversionError, MemoryUse};
use crate::key_order::{
    borrowed_entries, insert_ordered, lemma_sort_map, map_entries, sort_entries,
    sorting_orders_and_keeps_entries,
};
use crate::log_value::{
    key_text, tree_of, AnyValue, OtelLogBytesView, OtelLogValue, OtelLogValueNode,
    OtelLogValuePayload, OtelLogValueRange, OtelLogValueType, ValueTree,
    OTEL_LOG_MAX_ARRAY_ELEMENTS, OTEL_LOG_MAX_ATTRIBUTES, OTEL_LOG_MAX_BYTES_LEN,
    OTEL_LOG_MAX_MAP_ENTRIES, OTEL_LOG_MAX_STRING_LEN, OTEL_LOG_MAX_VALUE_DEPTH,
    OTEL_LOG_MAX_VALUE_NODES,
};
use crate::memory::reserve;

verus! {

/// An array attribute. Doubles are held by their bit patterns.
#[derive(Debug)]
pub enum Array {
    Bool(Vec<bool>),
    I64(Vec<i64>),
    F64(Vec<u64>),
    String(Vec<String>),
    /// A kind of array that this version has no form for.
    Unknown,
}

/// A resource or scope attribute value. A double is held by its bit pattern.
#[derive(Debug)]
pub enum Value {
    Bool(bool),
    I64(i64),
    F64(u64),
    String(String),
    Array(Array),
    /// A kind of value that this version has no form for.
    Unknown,
}

impl Array {
    /// The elements of the array.
    pub open spec fn elements(self) -> Seq<ValueTree> {
        match self {
            Array::Bool(v) => Seq::new(v@.len(), |i: int| ValueTree::Boolean(v@[i])),
            Array::I64(v) => Seq::new(v@.len(), |i: int| ValueTree::Int(v@[i])),
            Array::F64(v) => Seq::new(v@.len(), |i: int| ValueTree::Double(v@[i])),
            Array::String(v) => Seq::new(v@.len(), |i: int| ValueTree::Str(v@[i]@)),
            Array::Unknown => Seq::empty(),
        }
    }
}

impl Value {
    /// The tree of this value.
    pub open spec fn tree(self) -> ValueTree {
        match self {
            Value::Bool(v) => ValueTree::Boolean(v),
            Value::I64(v) => ValueTree::Int(v),
            Value::F64(v) => ValueTree::Double(v),
            Value::String(v) => ValueTree::Str(v@),
            Value::Array(Array::Unknown) => ValueTree::Invalid,
            Value::Array(a) => ValueTree::List(a.elements()),
            Value::Unknown => ValueTree::Invalid,
        }
    }
}

/// The tree with the entries of every map in ascending key order.
pub open spec fn sorted_tree(tree: ValueTree) -> ValueTree
    decreases tree,
{
    match tree {
        ValueTree::List(items) => ValueTree::List(
            Seq::new(
                items.len(),
                |i: int|
                    if 0 <= i < items.len() {
                        sorted_tree(items[i])
                    } else {
                        ValueTree::Invalid
                    },
            ),
        ),
        ValueTree::Entries(entries) => ValueTree::Entries(sort_entries(sorted_values(entries))),
        _ => tree,
    }
}

/// The entries with every map below them in ascending key order.
pub open spec fn sorted_values(entries: Seq<(Seq<char>, ValueTree)>) -> Seq<(Seq<char>, ValueTree)>
    decreases entries,
{
    Seq::new(
        entries.len(),
        |i: int|
            if 0 <= i < entries.len() {
                (entries[i].0, sorted_tree(entries[i].1))
            } else {
                (Seq::empty(), ValueTree::Invalid)
            },
    )
}

/// What is queued for conversion: a log value, an attribute value, an array attribute of an
/// unknown kind, or an array element that was converted already.
pub enum Item {
    Any(ValueTree),
    Attr(ValueTree),
    UnknownArray,
    Scalar(ValueTree),
}

/// The tree that an item is presented as.
pub open spec fn item_tree(item: Item) -> ValueTree {
    match item {
        Item::Any(tree) => sorted_tree(tree),
        Item::Attr(tree) => tree,
        Item::UnknownArray => ValueTree::Invalid,
        Item::Scalar(tree) => tree,
    }
}

/// Whether an item is presented as a container.
pub open spec fn is_container_item(item: Item) -> bool {
    match item {
        Item::Any(ValueTree::List(_)) => true,
        Item::Any(ValueTree::Entries(_)) => true,
        Item::Attr(ValueTree::List(_)) => true,
        _ => false,
    }
}

/// The children of an item with their keys, in the order in which they are presented.
pub open spec fn item_children(item: Item) -> Seq<(Seq<char>, Item)> {
    match item {
        Item::Any(ValueTree::List(items)) => Seq::new(
            items.len(),
            |i: int| (Seq::empty(), Item::Any(items[i])),
        ),
        Item::Any(ValueTree::Entries(entries)) => map_entries(
            sort_entries(entries),
            |tree: ValueTree| Item::Any(tree),
        ),
        Item::Attr(ValueTree::List(items)) => Seq::new(
            items.len(),
            |i: int| (Seq::empty(), Item::Scalar(items[i])),
        ),
        _ => Seq::empty(),
    }
}

/// Length of a text in bytes.
pub open spec fn byte_len(text: Seq<char>) -> nat {
    encode_utf8(text).len()
}

/// What is wrong with a text that is to be presented.
pub open spec fn text_fault(text: Seq<char>) -> Option<ConversionError> {
    if byte_len(text) > OTEL_LOG_MAX_STRING_LEN {
        Some(ConversionError::StringTooLong(byte_len(text) as usize))
    } else {
        None
    }
}

/// Why `count` more nodes do not fit behind `used` nodes.
pub open spec fn block_fault(used: nat, count: nat) -> Option<ConversionError> {
    if used > u32::MAX {
        Some(ConversionError::NodeIndexRange)
    } else if count > u32::MAX {
        Some(ConversionError::ContainerRange)
    } else if used + count > usize::MAX {
        Some(ConversionError::NodeCountOverflow)
    } else if used + count > OTEL_LOG_MAX_VALUE_NODES {
        Some(ConversionError::TooManyNodes((used + count) as usize))
    } else {
        None
    }
}

/// The first text among the elements from `i` on that is too long.
pub open spec fn elements_fault(items: Seq<ValueTree>, i: int) -> Option<ConversionError>
    decreases items.len() - i,
{
    if i >= items.len() {
        None
    } else if items[i] is Str && text_fault(items[i]->Str_0) is Some {
        text_fault(items[i]->Str_0)
    } else {
        elements_fault(items, i + 1)
    }
}

/// What is wrong with an item itself when `used` nodes are in the pool.
pub open spec fn item_fault(item: Item, used: nat) -> Option<ConversionError> {
    match item {
        Item::Any(ValueTree::Str(text)) => text_fault(text),
        Item::Any(ValueTree::Bytes(bytes)) => if bytes.len() > OTEL_LOG_MAX_BYTES_LEN {
            Some(ConversionError::BytesTooLong(bytes.len() as usize))
        } else {
            None
        },
        Item::Any(ValueTree::List(items)) => if items.len() > OTEL_LOG_MAX_ARRAY_ELEMENTS {
            Some(ConversionError::ArrayTooLarge(items.len() as usize))
        } else {
            block_fault(used, items.len())
        },
        Item::Any(ValueTree::Entries(entries)) => if entries.len() > OTEL_LOG_MAX_MAP_ENTRIES {
            Some(ConversionError::MapTooLarge(entries.len() as usize))
        } else {
            block_fault(used, entries.len())
        },
        Item::Any(ValueTree::Invalid) => Some(ConversionError::UnknownKind),
        Item::Attr(ValueTree::Str(text)) => text_fault(text),
        Item::Attr(ValueTree::List(items)) => if elements_fault(items, 0) is Some {
            elements_fault(items, 0)
        } else if items.len() > OTEL_LOG_MAX_ARRAY_ELEMENTS {
            Some(ConversionError::AttributeArrayTooLarge(items.len() as usize))
        } else {
            block_fault(used, items.len())
        },
        Item::Attr(ValueTree::Invalid) => Some(ConversionError::UnknownAttribute),
        Item::UnknownArray => Some(ConversionError::UnknownArrayElement),
        _ => None,
    }
}

/// What is wrong with queueing the children from `i` on of an item at this depth.
pub open spec fn queue_fault(item: Item, depth: nat, i: int) -> Option<ConversionError>
    decreases item_children(item).len() - i,
{
    if i >= item_children(item).len() {
        None
    } else if text_fault(item_children(item)[i].0) is Some {
        text_fault(item_children(item)[i].0)
    } else if depth + 1 > OTEL_LOG_MAX_VALUE_DEPTH {
        Some(ConversionError::TooDeep)
    } else {
        queue_fault(item, depth, i + 1)
    }
}

/// The children of an item as they are queued.
pub open spec fn queued(item: Item, depth: nat) -> Seq<(Item, nat)> {
    Seq::new(item_children(item).len(), |i: int| (item_children(item)[i].1, depth + 1))
}

/// The first violation met when the queue is worked off front to back, the children of each item
/// joining the queue at its end, with `used` nodes in the pool.
pub open spec fn work_fault(queue: Seq<(Item, nat)>, used: nat) -> Option<ConversionError>
    decreases OTEL_LOG_MAX_VALUE_NODES - used, queue.len(),
{
    if queue.len() == 0 {
        None
    } else {
        let item = queue[0].0;
        let depth = queue[0].1;
        if item_fault(item, used) is Some {
            item_fault(item, used)
        } else if queue_fault(item, depth, 0) is Some {
            queue_fault(item, depth, 0)
        } else {
            proof {
                lemma_children_fit(item, used);
            }
            work_fault(
                queue.drop_first() + queued(item, depth),
                used + item_children(item).len(),
            )
        }
    }
}

/// The allocator refused room for `count` attributes.
pub open spec fn elements_refused(count: nat, e: ConversionError) -> bool {
    e matches ConversionError::Memory(failure, MemoryUse::Elements(n)) && n == count
        && failure.refused(count)
}

/// The allocator refused room for a block of `count` nodes that fits behind `used` nodes.
pub open spec fn block_refused(used: nat, count: nat, e: ConversionError) -> bool {
    &&& block_fault(used, count) is None
    &&& e matches ConversionError::Memory(failure, MemoryUse::Nodes(n))
    &&& n == count
    &&& failure.refused(count)
}

/// The allocator refused room for one more queued value.
pub open spec fn entry_refused(e: ConversionError) -> bool {
    e matches ConversionError::Memory(failure, MemoryUse::WorkQueue) && failure.refused(1)
}

/// The allocator refused room to order `count` map entries.
pub open spec fn order_refused(count: nat, e: ConversionError) -> bool {
    e matches ConversionError::Memory(failure, MemoryUse::MapOrder) && failure.refused(count)
}

/// The allocator refused room for the `count` elements of an array attribute.
pub open spec fn array_refused(count: nat, e: ConversionError) -> bool {
    e matches ConversionError::Memory(failure, MemoryUse::ArrayAttribute) && failure.refused(count)
}

/// The allocator refused room that converting an item itself asks for. Only containers that have
/// children ask for any.
pub open spec fn item_refused(item: Item, used: nat, e: ConversionError) -> bool {
    match item {
        Item::Any(ValueTree::List(items)) => items.len() <= OTEL_LOG_MAX_ARRAY_ELEMENTS
            && block_refused(used, items.len(), e),
        Item::Any(ValueTree::Entries(entries)) => entries.len() <= OTEL_LOG_MAX_MAP_ENTRIES && (
        order_refused(entries.len(), e) || block_refused(used, entries.len(), e)),
        Item::Attr(ValueTree::List(items)) => array_refused(items.len(), e) || (elements_fault(
            items,
            0,
        ) is None && items.len() <= OTEL_LOG_MAX_ARRAY_ELEMENTS && block_refused(
            used,
            items.len(),
            e,
        )),
        _ => false,
    }
}

/// The allocator refused room to queue a child of an item at this depth. The first child at least
/// could be queued but for that.
pub open spec fn queue_refused(item: Item, depth: nat, e: ConversionError) -> bool {
    &&& item_children(item).len() > 0
    &&& text_fault(item_children(item)[0].0) is None
    &&& depth + 1 <= OTEL_LOG_MAX_VALUE_DEPTH
    &&& entry_refused(e)
}

/// The allocator refused room while the queue was worked off: for the first item itself, for its
/// children, or, where neither has a fault, further on.
pub open spec fn work_refused(queue: Seq<(Item, nat)>, used: nat, e: ConversionError) -> bool
    decreases OTEL_LOG_MAX_VALUE_NODES - used, queue.len(),
{
    if queue.len() == 0 {
        false
    } else {
        let item = queue[0].0;
        let depth = queue[0].1;
        if item_fault(item, used) is Some {
            item_refused(item, used, e)
        } else if queue_fault(item, depth, 0) is Some {
            item_refused(item, used, e) || queue_refused(item, depth, e)
        } else {
            proof {
                lemma_children_fit(item, used);
            }
            item_refused(item, used, e) || queue_refused(item, depth, e) || work_refused(
                queue.drop_first() + queued(item, depth),
                used + item_children(item).len(),
                e,
            )
        }
    }
}

/// The children of an item without a fault fit in the pool.
pub proof fn lemma_children_fit(item: Item, used: nat)
    requires
        item_fault(item, used) is None,
    ensures
        item_children(item).len() > 0 ==> used + item_children(item).len() <= OTEL_LOG_MAX_VALUE_NODES,
        item_children(item).len() > 0 ==> is_container_item(item),
        is_container_item(item) ==> used + item_children(item).len() <= OTEL_LOG_MAX_VALUE_NODES,
{
    if let Item::Any(ValueTree::Entries(entries)) = item {
        sorting_orders_and_keeps_entries(entries);
    }
}

/// The first key among the attributes from `i` on that is too long.
pub open spec fn keys_fault(keys: Seq<Seq<char>>, i: int) -> Option<ConversionError>
    decreases keys.len() - i,
{
    if i >= keys.len() {
        None
    } else if text_fault(keys[i]) is Some {
        text_fault(keys[i])
    } else {
        keys_fault(keys, i + 1)
    }
}

/// A scalar value is complete in itself.
pub open spec fn scalar_tree(value: OtelLogValue) -> ValueTree {
    tree_of(Seq::empty(), value, -1)
}

/// Where a converted value is written.
#[derive(Clone, Copy, PartialEq, Eq, Structural)]
pub enum Slot {
    Body,
    Attribute(usize),
    Node(usize),
}

/// A borrowed source value.
#[derive(Clone, Copy)]
pub enum Source<'a> {
    Any(&'a AnyValue),
    Attribute(&'a Value),
    /// One element of an attribute array, already reduced to a scalar log value.
    Scalar(OtelLogValue<'a>),
}

/// The item that a source stands for.
pub open spec fn source_item(source: Source) -> Item {
    match source {
        Source::Any(value) => Item::Any(value.tree()),
        Source::Attribute(Value::Array(Array::Unknown)) => Item::UnknownArray,
        Source::Attribute(value) => Item::Attr(value.tree()),
        Source::Scalar(value) => Item::Scalar(scalar_tree(value)),
    }
}

/// A queued array element is a scalar.
pub open spec fn source_wf(source: Source) -> bool {
    source matches Source::Scalar(value) ==> !value.is_container() && value.reserved == 0
        && value.plain_truth()
}

/// Children found while converting one value.
pub enum ContainerChildren<'a> {
    Leaf,
    List(&'a [AnyValue]),
    Entries(Vec<(&'a str, &'a AnyValue)>),
    Scalars(Vec<OtelLogValue<'a>>),
}

/// The children with their keys.
pub open spec fn found_children(children: ContainerChildren) -> Seq<(Seq<char>, Item)> {
    match children {
        ContainerChildren::Leaf => Seq::empty(),
        ContainerChildren::List(items) => Seq::new(
            items@.len(),
            |i: int| (Seq::empty(), Item::Any(items@[i].tree())),
        ),
        ContainerChildren::Entries(entries) => Seq::new(
            entries@.len(),
            |i: int| (entries@[i].0@, Item::Any(entries@[i].1.tree())),
        ),
        ContainerChildren::Scalars(items) => Seq::new(
            items@.len(),
            |i: int| (Seq::empty(), Item::Scalar(scalar_tree(items@[i]))),
        ),
    }
}

/// Array elements are scalars.
pub open spec fn children_wf(children: ContainerChildren) -> bool {
    children matches ContainerChildren::Scalars(items) ==> forall|i: int|
        0 <= i < items@.len() ==> !(#[trigger] items@[i]).is_container() && items@[i].reserved == 0
            && items@[i].plain_truth()
}

/// `value` presents `item`, with the children of a container in the block that starts at `first`.
pub open spec fn presents(value: OtelLogValue, item: Item, first: int) -> bool {
    &&& value.reserved == 0
    &&& value.plain_truth()
    &&& if is_container_item(item) {
        &&& value.kind() == Some(
            if item is Any && item->Any_0 is Entries {
                OtelLogValueType::KvMap
            } else {
                OtelLogValueType::Array
            },
        )
        &&& value.first() == first
        &&& value.count() == item_children(item).len()
    } else {
        &&& !value.is_container()
        &&& scalar_tree(value) == item_tree(item)
    }
}

/// The view of a text, unless it is too long.
pub fn string_view<'a>(value: &'a str) -> (r: Result<OtelStringView<'a>, ConversionError>)
    ensures
        r matches Ok(view) ==> text_fault(value@) is None && view.text() == Ok::<
            Seq<char>,
            AbiError,
        >(value@),
        r matches Err(e) ==> text_fault(value@) == Some(e),
{
    let len: usize = value.as_bytes().len();
    if len > OTEL_LOG_MAX_STRING_LEN {
        return Err(ConversionError::StringTooLong(len));
    }
    Ok(OtelStringView::of(value))
}

/// The view of a text where there is one, else the empty view.
pub fn optional_string_view<'a>(value: Option<&'a str>) -> (r: Result<
    OtelStringView<'a>,
    ConversionError,
>)
    ensures
        r matches Ok(view) ==> match value {
            Some(text) => text_fault(text@) is None && view.text() == Ok::<Seq<char>, AbiError>(
                text@,
            ),
            None => view.text() == Ok::<Seq<char>, AbiError>(Seq::empty()),
        },
        r matches Err(e) ==> value is Some && text_fault((value->0)@) == Some(e),
{
    match value {
        Some(text) => string_view(text),
        None => Ok(OtelStringView::empty()),
    }
}

/// A payload in which every kind of value is the empty or the zero one.
fn empty_payload<'a>() -> (r: OtelLogValuePayload<'a>)
    ensures
        r.string_value.text() == Ok::<Seq<char>, AbiError>(Seq::empty()),
        r.bytes_value.bytes is None,
        r.bool_value == 0,
        r.int64_value == 0,
        r.double_value == 0,
        r.children == (OtelLogValueRange { first: 0, count: 0 }),
{
    OtelLogValuePayload {
        string_value: OtelStringView::empty(),
        bytes_value: OtelLogBytesView { bytes: None },
        bool_value: 0,
        int64_value: 0,
        double_value: 0,
        children: OtelLogValueRange { first: 0, count: 0 },
    }
}

/// A value with the given kind and payload.
pub fn scalar<'a>(value_type: OtelLogValueType, value: OtelLogValuePayload<'a>) -> (r: OtelLogValue<
    'a,
>)
    ensures
        r.kind() == Some(value_type),
        r.value_type == value_type.spec_as_u32(),
        r.reserved == 0,
        r.value == value,
{
    OtelLogValue { value_type: value_type.as_u32(), reserved: 0, value }
}

fn int_value<'a>(value: i64) -> (r: OtelLogValue<'a>)
    ensures
        r.reserved == 0,
        !r.is_container(),
        scalar_tree(r) == ValueTree::Int(value),
{
    let mut payload = empty_payload();
    payload.int64_value = value;
    scalar(OtelLogValueType::Int64, payload)
}

fn double_value<'a>(value: u64) -> (r: OtelLogValue<'a>)
    ensures
        r.reserved == 0,
        !r.is_container(),
        scalar_tree(r) == ValueTree::Double(value),
{
    let mut payload = empty_payload();
    payload.double_value = value;
    scalar(OtelLogValueType::Double, payload)
}

fn bool_value<'a>(value: bool) -> (r: OtelLogValue<'a>)
    ensures
        r.reserved == 0,
        !r.is_container(),
        scalar_tree(r) == ValueTree::Boolean(value),
        r.value.bool_value <= 1,
{
    let mut payload = empty_payload();
    payload.bool_value = if value {
        1
    } else {
        0
    };
    scalar(OtelLogValueType::Bool, payload)
}

fn string_value<'a>(value: &'a str) -> (r: Result<OtelLogValue<'a>, ConversionError>)
    ensures
        r matches Ok(v) ==> text_fault(value@) is None && v.reserved == 0 && !v.is_container()
            && scalar_tree(v) == ValueTree::Str(value@),
        r matches Err(e) ==> text_fault(value@) == Some(e),
{
    let view = string_view(value)?;
    let mut payload = empty_payload();
    payload.string_value = view;
    Ok(scalar(OtelLogValueType::String, payload))
}

fn bytes_value<'a>(value: &'a [u8]) -> (r: Result<OtelLogValue<'a>, ConversionError>)
    ensures
        r matches Ok(v) ==> value@.len() <= OTEL_LOG_MAX_BYTES_LEN && v.reserved == 0
            && !v.is_container() && scalar_tree(v) == ValueTree::Bytes(value@),
        r matches Err(e) ==> value@.len() > OTEL_LOG_MAX_BYTES_LEN && e
            == ConversionError::BytesTooLong(value@.len() as usize),
{
    if value.len() > OTEL_LOG_MAX_BYTES_LEN {
        return Err(ConversionError::BytesTooLong(value.len()));
    }
    let mut payload = empty_payload();
    payload.bytes_value = OtelLogBytesView { bytes: Some(value) };
    Ok(scalar(OtelLogValueType::Bytes, payload))
}

fn container_value<'a>(kind: OtelLogValueType, range: OtelLogValueRange) -> (r: OtelLogValue<'a>)
    ensures
        r.reserved == 0,
        r.kind() == Some(kind),
        r.value.children == range,
{
    let mut payload = empty_payload();
    payload.children = range;
    scalar(kind, payload)
}

/// The value of an absent body.
pub fn empty_value<'a>() -> (r: OtelLogValue<'a>)
    ensures
        r.kind() == Some(OtelLogValueType::Empty),
        r.reserved == 0,
{
    scalar(OtelLogValueType::Empty, empty_payload())
}

/// A node without a key and without a value.
pub fn empty_node<'a>() -> (r: OtelLogValueNode<'a>)
    ensures
        r.key.text() == Ok::<Seq<char>, AbiError>(Seq::empty()),
        r.value.kind() == Some(OtelLogValueType::Empty),
        r.value.reserved == 0,
{
    OtelLogValueNode { key: OtelStringView::empty(), value: empty_value() }
}

/// Every node of the block has no key.
pub open spec fn keyless(nodes: Seq<OtelLogValueNode>, from: int) -> bool {
    forall|i: int|
        from <= i < nodes.len() ==> (#[trigger] nodes[i]).key.text() == Ok::<Seq<char>, AbiError>(
            Seq::empty(),
        )
}

/// `len` empty nodes.
fn try_sized_vec<'a>(len: usize) -> (r: Result<Vec<OtelLogValueNode<'a>>, ConversionError>)
    ensures
        r matches Ok(v) ==> v@.len() == len && keyless(v@, 0),
        r matches Err(e) ==> elements_refused(len as nat, e),
{
    let mut values: Vec<OtelLogValueNode<'a>> = Vec::new();
    match reserve(&mut values, len) {
        Err(failure) => return Err(ConversionError::Memory(failure, MemoryUse::Elements(len))),
        Ok(_) => {},
    }
    let mut i: usize = 0;
    while i < len
        invariant
            i <= len,
            values@.len() == i,
            keyless(values@, 0),
        decreases len - i,
    {
        values.push(empty_node());
        i += 1;
    }
    Ok(values)
}

/// The flattened form of one owner: a record, a scope or a resource.
pub struct Flattened<'a> {
    pub body: OtelLogValue<'a>,
    pub attributes: Vec<OtelLogValueNode<'a>>,
    pub nodes: Vec<OtelLogValueNode<'a>>,
}

/// The flattening of one owner in progress: the pool and the list of everything ever queued.
pub struct Flattener<'a> {
    pub nodes: Vec<OtelLogValueNode<'a>>,
    pub queue: Vec<(Slot, Source<'a>, usize)>,
}

impl<'a> Flattener<'a> {
    pub fn new() -> (r: Self)
        ensures
            r.nodes@.len() == 0,
            r.queue@.len() == 0,
    {
        Flattener { nodes: Vec::new(), queue: Vec::new() }
    }

    /// Appends `count` placeholder children and returns their contiguous range.
    pub fn reserve_children(&mut self, count: usize) -> (r: Result<
        OtelLogValueRange,
        ConversionError,
    >)
        ensures
            final(self).queue == old(self).queue,
            r matches Ok(range) ==> {
                &&& block_fault(old(self).nodes@.len(), count as nat) is None
                &&& range.first == old(self).nodes@.len()
                &&& range.count == count
                &&& final(self).nodes@.len() == old(self).nodes@.len() + count
                &&& final(self).nodes@.take(old(self).nodes@.len() as int) == old(self).nodes@
                &&& keyless(final(self).nodes@, old(self).nodes@.len() as int)
            },
            r matches Err(e) ==> if e.is_memory() {
                block_refused(old(self).nodes@.len(), count as nat, e)
            } else {
                block_fault(old(self).nodes@.len(), count as nat) == Some(e)
            },
    {
        let used: usize = self.nodes.len();
        if used as u64 > u32::MAX as u64 {
            return Err(ConversionError::NodeIndexRange);
        }
        if count as u64 > u32::MAX as u64 {
            return Err(ConversionError::ContainerRange);
        }
        let end: usize = match used.checked_add(count) {
            Some(end) => end,
            None => return Err(ConversionError::NodeCountOverflow),
        };
        if end > OTEL_LOG_MAX_VALUE_NODES {
            return Err(ConversionError::TooManyNodes(end));
        }
        match reserve(&mut self.nodes, count) {
            Err(failure) => return Err(ConversionError::Memory(failure, MemoryUse::Nodes(count))),
            Ok(_) => {},
        }
        let ghost before = self.nodes@;
        assert(before.take(used as int) =~= before);
        let mut i: usize = 0;
        while i < count
            invariant
                i <= count,
                self.queue == old(self).queue,
                before == old(self).nodes@,
                used == before.len(),
                self.nodes@.len() == used + i,
                self.nodes@.take(used as int) == before,
                keyless(self.nodes@, used as int),
            decreases count - i,
        {
            let ghost prior = self.nodes@;
            self.nodes.push(empty_node());
            assert(self.nodes@.take(used as int) =~= prior.take(used as int));
            i += 1;
        }
        Ok(OtelLogValueRange { first: used as u32, count: count as u32 })
    }

    /// Queues a source, unless it nests too deeply.
    pub fn enqueue(&mut self, slot: Slot, source: Source<'a>, depth: usize) -> (r: Result<
        (),
        ConversionError,
    >)
        ensures
            final(self).nodes == old(self).nodes,
            r is Ok ==> depth <= OTEL_LOG_MAX_VALUE_DEPTH && final(self).queue@ == old(
                self,
            ).queue@.push((slot, source, depth)),
            r matches Err(e) ==> if depth > OTEL_LOG_MAX_VALUE_DEPTH {
                e == ConversionError::TooDeep
            } else {
                entry_refused(e)
            },
    {
        if depth > OTEL_LOG_MAX_VALUE_DEPTH {
            return Err(ConversionError::TooDeep);
        }
        match reserve(&mut self.queue, 1) {
            Err(failure) => return Err(ConversionError::Memory(failure, MemoryUse::WorkQueue)),
            Ok(_) => {},
        }
        self.queue.push((slot, source, depth));
        Ok(())
    }

    /// What converting one source leaves behind.
    pub open spec fn converted(
        self,
        before: Flattener<'a>,
        item: Item,
        value: OtelLogValue<'a>,
        children: ContainerChildren<'a>,
    ) -> bool {
        let used = before.nodes@.len() as int;
        &&& self.queue == before.queue
        &&& item_fault(item, before.nodes@.len()) is None
        &&& presents(value, item, used)
        &&& children_wf(children)
        &&& found_children(children) == item_children(item)
        &&& self.nodes@.len() == used + item_children(item).len()
        &&& self.nodes@.take(used) == before.nodes@
        &&& keyless(self.nodes@, used)
    }

    /// Converts a log value and reserves the block of its children.
    pub fn convert_any(&mut self, value: &'a AnyValue) -> (r: Result<
        (OtelLogValue<'a>, ContainerChildren<'a>),
        ConversionError,
    >)
        ensures
            final(self).queue == old(self).queue,
            r matches Ok((v, children)) ==> final(self).converted(
                *old(self),
                Item::Any(value.tree()),
                v,
                children,
            ),
            r matches Err(e) ==> if e.is_memory() {
                item_refused(Item::Any(value.tree()), old(self).nodes@.len(), e)
            } else {
                item_fault(Item::Any(value.tree()), old(self).nodes@.len()) == Some(e)
            },
    {
        assert(self.nodes@.take(self.nodes@.len() as int) =~= self.nodes@);
        assert(found_children(ContainerChildren::Leaf) =~= Seq::empty());
        match value {
            AnyValue::Int(v) => Ok((int_value(*v), ContainerChildren::Leaf)),
            AnyValue::Double(v) => Ok((double_value(*v), ContainerChildren::Leaf)),
            AnyValue::Boolean(v) => Ok((bool_value(*v), ContainerChildren::Leaf)),
            AnyValue::String(v) => Ok((string_value(v.as_str())?, ContainerChildren::Leaf)),
            AnyValue::Bytes(v) => Ok((bytes_value(v.as_slice())?, ContainerChildren::Leaf)),
            AnyValue::ListAny(values) => {
                if values.len() > OTEL_LOG_MAX_ARRAY_ELEMENTS {
                    return Err(ConversionError::ArrayTooLarge(values.len()));
                }
                let range = self.reserve_children(values.len())?;
                let children = ContainerChildren::List(values.as_slice());
                assert(found_children(children) =~= item_children(Item::Any(value.tree())));
                Ok((container_value(OtelLogValueType::Array, range), children))
            },
            AnyValue::KvMap(entries) => {
                if entries.len() > OTEL_LOG_MAX_MAP_ENTRIES {
                    return Err(ConversionError::MapTooLarge(entries.len()));
                }
                let sorted = sort_map(entries)?;
                proof {
                    sorting_orders_and_keeps_entries(value.tree()->Entries_0);
                }
                let range = self.reserve_children(sorted.len())?;
                let children = ContainerChildren::Entries(sorted);
                assert(found_children(children) =~= item_children(Item::Any(value.tree())));
                Ok((container_value(OtelLogValueType::KvMap, range), children))
            },
            AnyValue::Unknown => Err(ConversionError::UnknownKind),
        }
    }

    /// Reduces the elements of an array attribute to scalar log values.
    pub fn convert_attribute_array(&mut self, array: &'a Array) -> (r: Result<
        Vec<OtelLogValue<'a>>,
        ConversionError,
    >)
        ensures
            *final(self) == *old(self),
            r matches Ok(elements) ==> *array !is Unknown && elements_fault(array.elements(), 0) is None
                && elements@.len() == array.elements().len() && forall|i: int|
                0 <= i < elements@.len() ==> scalar_tree(#[trigger] elements@[i])
                    == array.elements()[i] && !elements@[i].is_container() && elements@[i].reserved
                    == 0 && elements@[i].plain_truth(),
            r matches Err(e) ==> if *array is Unknown {
                e == ConversionError::UnknownArrayElement
            } else {
                if e.is_memory() {
                    array_refused(array.elements().len(), e)
                } else {
                    elements_fault(array.elements(), 0) == Some(e)
                }
            },
    {
        let mut elements: Vec<OtelLogValue<'a>> = Vec::new();
        let len: usize = match array {
            Array::Bool(values) => values.len(),
            Array::I64(values) => values.len(),
            Array::F64(values) => values.len(),
            Array::String(values) => values.len(),
            Array::Unknown => return Err(ConversionError::UnknownArrayElement),
        };
        match reserve(&mut elements, len) {
            Err(failure) => return Err(
                ConversionError::Memory(failure, MemoryUse::ArrayAttribute),
            ),
            Ok(_) => {},
        }
        let mut i: usize = 0;
        while i < len
            invariant
                i <= len,
                *self == *old(self),
                *array !is Unknown,
                len == array.elements().len(),
                elements@.len() == i,
                elements_fault(array.elements(), 0) == elements_fault(array.elements(), i as int),
                forall|j: int|
                    0 <= j < i ==> scalar_tree(#[trigger] elements@[j]) == array.elements()[j]
                        && !elements@[j].is_container() && elements@[j].reserved == 0
                        && elements@[j].plain_truth(),
            decreases len - i,
        {
            let element = match array {
                Array::Bool(values) => bool_value(values[i]),
                Array::I64(values) => int_value(values[i]),
                Array::F64(values) => double_value(values[i]),
                Array::String(values) => string_value(values[i].as_str())?,
                Array::Unknown => return Err(ConversionError::UnknownArrayElement),
            };
            elements.push(element);
            i += 1;
        }
        Ok(elements)
    }

    /// Converts an attribute value and reserves the block of its children.
    pub fn convert_attribute_value(&mut self, value: &'a Value) -> (r: Result<
        (OtelLogValue<'a>, ContainerChildren<'a>),
        ConversionError,
    >)
        ensures
            final(self).queue == old(self).queue,
            r matches Ok((v, children)) ==> final(self).converted(
                *old(self),
                source_item(Source::Attribute(value)),
                v,
                children,
            ),
            r matches Err(e) ==> if e.is_memory() {
                item_refused(source_item(Source::Attribute(value)), old(self).nodes@.len(), e)
            } else {
                item_fault(source_item(Source::Attribute(value)), old(self).nodes@.len()) == Some(e)
            },
    {
        assert(self.nodes@.take(self.nodes@.len() as int) =~= self.nodes@);
        assert(found_children(ContainerChildren::Leaf) =~= Seq::empty());
        match value {
            Value::Bool(v) => Ok((bool_value(*v), ContainerChildren::Leaf)),
            Value::I64(v) => Ok((int_value(*v), ContainerChildren::Leaf)),
            Value::F64(v) => Ok((double_value(*v), ContainerChildren::Leaf)),
            Value::String(v) => Ok((string_value(v.as_str())?, ContainerChildren::Leaf)),
            Value::Array(array) => {
                let elements = self.convert_attribute_array(array)?;
                if elements.len() > OTEL_LOG_MAX_ARRAY_ELEMENTS {
                    return Err(ConversionError::AttributeArrayTooLarge(elements.len()));
                }
                let range = self.reserve_children(elements.len())?;
                let children = ContainerChildren::Scalars(elements);
                assert(found_children(children) =~= item_children(
                    source_item(Source::Attribute(value)),
                ));
                Ok((container_value(OtelLogValueType::Array, range), children))
            },
            Value::Unknown => Err(ConversionError::UnknownAttribute),
        }
    }
}

/// The entries of a map in ascending key order.
fn sort_map<'a>(entries: &'a Vec<(String, AnyValue)>) -> (r: Result<
    Vec<(&'a str, &'a AnyValue)>,
    ConversionError,
>)
    ensures
        r matches Ok(sorted) ==> found_children(ContainerChildren::Entries(sorted))
            == item_children(Item::Any(AnyValue::KvMap(*entries).tree())) && sorted@.len()
            == entries@.len(),
        r matches Err(e) ==> order_refused(entries@.len(), e),
{
    let mut sorted: Vec<(&'a str, &'a AnyValue)> = Vec::new();
    match reserve(&mut sorted, entries.len()) {
        Err(failure) => return Err(ConversionError::Memory(failure, MemoryUse::MapOrder)),
        Ok(_) => {},
    }
    let ghost all: Seq<(Seq<char>, AnyValue)> = Seq::new(
        entries@.len(),
        |i: int| (entries@[i].0@, entries@[i].1),
    );
    assert(borrowed_entries(sorted@) =~= sort_entries(all.take(0)));
    let mut i: usize = 0;
    while i < entries.len()
        invariant
            i <= entries@.len(),
            all == Seq::new(entries@.len(), |j: int| (entries@[j].0@, entries@[j].1)),
            borrowed_entries(sorted@) == sort_entries(all.take(i as int)),
        decreases entries@.len() - i,
    {
        insert_ordered(&mut sorted, entries[i].0.as_str(), &entries[i].1);
        assert(all.take(i + 1).drop_last() =~= all.take(i as int));
        assert(all.take(i + 1).last() == (entries@[i as int].0@, entries@[i as int].1));
        i += 1;
    }
    proof {
        assert(all.take(entries@.len() as int) =~= all);
        let tree = AnyValue::KvMap(*entries).tree()->Entries_0;
        let f = |v: AnyValue| v.tree();
        assert(tree =~= map_entries(all, f));
        lemma_sort_map(all, f);
        assert forall|j: int| 0 <= j < sorted@.len() implies found_children(
            ContainerChildren::Entries(sorted),
        )[j] == item_children(Item::Any(ValueTree::Entries(tree)))[j] by {
            assert(borrowed_entries(sorted@)[j] == sort_entries(all)[j]);
        }
        sorting_orders_and_keeps_entries(all);
        sorting_orders_and_keeps_entries(tree);
        assert(found_children(ContainerChildren::Entries(sorted)) =~= item_children(
            Item::Any(ValueTree::Entries(tree)),
        ));
    }
    Ok(sorted)
}

/// The items of everything ever queued.
pub open spec fn queue_items(queue: Seq<(Slot, Source, usize)>) -> Seq<Item> {
    Seq::new(queue.len(), |k: int| source_item(queue[k].1))
}

/// What is still queued when the first `head` entries are done.
pub open spec fn remaining(queue: Seq<(Slot, Source, usize)>, head: int) -> Seq<(Item, nat)> {
    Seq::new(
        (queue.len() - head) as nat,
        |j: int| (source_item(queue[head + j].1), queue[head + j].2 as nat),
    )
}

/// How many children the first `k` items have together.
pub open spec fn kids_before(items: Seq<Item>, k: int) -> nat
    decreases k,
{
    if k <= 0 {
        0
    } else {
        kids_before(items, k - 1) + item_children(items[k - 1]).len()
    }
}

/// Where the `k`-th visited value goes: the body, then the attributes, then the pool in order.
pub open spec fn slot_at(has_body: bool, attributes: int, k: int) -> Slot {
    if has_body && k == 0 {
        Slot::Body
    } else if k < root_count(has_body, attributes) {
        Slot::Attribute((k - root_count(has_body, 0)) as usize)
    } else {
        Slot::Node((k - root_count(has_body, attributes)) as usize)
    }
}

/// Number of roots.
pub open spec fn root_count(has_body: bool, attributes: int) -> int {
    if has_body {
        attributes + 1
    } else {
        attributes
    }
}

/// The value in a slot.
pub open spec fn slot_value<'a>(
    body: OtelLogValue<'a>,
    attributes: Seq<OtelLogValueNode<'a>>,
    nodes: Seq<OtelLogValueNode<'a>>,
    slot: Slot,
) -> OtelLogValue<'a> {
    match slot {
        Slot::Body => body,
        Slot::Attribute(i) => attributes[i as int].value,
        Slot::Node(i) => nodes[i as int].value,
    }
}

/// The `c`-th child of an item is placed at node `at`.
pub open spec fn placed(
    items: Seq<Item>,
    nodes: Seq<OtelLogValueNode>,
    roots: int,
    item: Item,
    c: int,
    at: int,
) -> bool {
    items[roots + at] == item_children(item)[c].1 && nodes[at].key.text() == Ok::<
        Seq<char>,
        AbiError,
    >(item_children(item)[c].0)
}

/// The value of the `k`-th item is written and its children are placed.
#[verifier::opaque]
pub open spec fn settled(
    value: OtelLogValue,
    items: Seq<Item>,
    nodes: Seq<OtelLogValueNode>,
    roots: int,
    k: int,
) -> bool {
    let first = kids_before(items, k) as int;
    &&& presents(value, items[k], first)
    &&& k < roots + first
    &&& forall|c: int|
        0 <= c < item_children(items[k]).len() ==> #[trigger] placed(
            items,
            nodes,
            roots,
            items[k],
            c,
            first + c,
        )
}

proof fn lemma_kids_prefix(a: Seq<Item>, b: Seq<Item>, k: int)
    requires
        0 <= k <= a.len() <= b.len(),
        forall|i: int| 0 <= i < a.len() ==> a[i] == b[i],
    ensures
        kids_before(a, k) == kids_before(b, k),
    decreases k,
{
    if k > 0 {
        lemma_kids_prefix(a, b, k - 1);
    }
}

proof fn lemma_kids_grow(items: Seq<Item>, j: int, k: int)
    requires
        0 <= j <= k,
    ensures
        kids_before(items, j) <= kids_before(items, k),
    decreases k,
{
    if j < k {
        lemma_kids_grow(items, j, k - 1);
    }
}

/// A settled value stays settled while the queue and the pool grow behind it.
proof fn lemma_stays_settled(
    value: OtelLogValue,
    items: Seq<Item>,
    nodes: Seq<OtelLogValueNode>,
    more_items: Seq<Item>,
    more_nodes: Seq<OtelLogValueNode>,
    roots: int,
    k: int,
    head: int,
)
    requires
        0 <= k < head <= items.len() <= more_items.len(),
        0 <= roots,
        items.len() == roots + nodes.len(),
        nodes.len() == kids_before(items, head),
        nodes.len() <= more_nodes.len(),
        forall|i: int| 0 <= i < items.len() ==> items[i] == more_items[i],
        forall|i: int| 0 <= i < nodes.len() ==> (#[trigger] more_nodes[i]).key == nodes[i].key,
        settled(value, items, nodes, roots, k),
    ensures
        settled(value, more_items, more_nodes, roots, k),
{
    reveal(settled);
    lemma_kids_prefix(items, more_items, k);
    lemma_kids_grow(items, k + 1, head);
    let first = kids_before(items, k) as int;
    assert forall|c: int| 0 <= c < item_children(items[k]).len() implies #[trigger] placed(
        more_items,
        more_nodes,
        roots,
        more_items[k],
        c,
        first + c,
    ) by {
        assert(placed(items, nodes, roots, items[k], c, first + c));
    }
}

/// The node at `first + c` has the key and the tree of child `c`.
spec fn child_presented(
    nodes: Seq<OtelLogValueNode>,
    first: int,
    kids: Seq<(Seq<char>, Item)>,
    c: int,
) -> bool {
    tree_of(nodes, nodes[first + c].value, first + c) == item_tree(kids[c].1) && key_text(
        nodes[first + c],
    ) == kids[c].0
}

/// Sorting a map tree sorts its entries and every tree below.
proof fn lemma_sorted_entries(entries: Seq<(Seq<char>, ValueTree)>)
    ensures
        sorted_tree(ValueTree::Entries(entries)) == ValueTree::Entries(
            sort_entries(map_entries(entries, |tree: ValueTree| sorted_tree(tree))),
        ),
{
    let f = |tree: ValueTree| sorted_tree(tree);
    assert(map_entries(entries, f) =~= sorted_values(entries));
}

/// A settled pool denotes the items: by induction from the end of the pool, every value has the
/// tree of its item.
proof fn lemma_settled_tree(
    value: OtelLogValue,
    items: Seq<Item>,
    nodes: Seq<OtelLogValueNode>,
    roots: int,
    k: int,
    floor: int,
)
    requires
        0 <= roots,
        0 <= k < items.len(),
        items.len() == roots + nodes.len(),
        kids_before(items, items.len() as int) == nodes.len(),
        forall|i: int|
            0 <= i < nodes.len() ==> settled((#[trigger] nodes[i]).value, items, nodes, roots, roots + i),
        settled(value, items, nodes, roots, k),
        floor == (if k < roots {
            -1
        } else {
            k - roots
        }),
    ensures
        tree_of(nodes, value, floor) == item_tree(items[k]),
    decreases items.len() - k,
{
    reveal(settled);
    let item = items[k];
    let first = kids_before(items, k) as int;
    let kids = item_children(item);
    lemma_kids_grow(items, k + 1, items.len() as int);
    if is_container_item(item) {
        assert(value.addresses(floor, nodes.len()));
        assert forall|c: int| 0 <= c < kids.len() implies #[trigger] child_presented(
            nodes,
            first,
            kids,
            c,
        ) by {
            assert(placed(items, nodes, roots, item, c, first + c));
            let node = nodes[first + c];
            assert(settled(node.value, items, nodes, roots, roots + (first + c)));
            lemma_settled_tree(node.value, items, nodes, roots, roots + first + c, first + c);
        }
        if item is Any && item->Any_0 is Entries {
            let entries = item->Any_0->Entries_0;
            let f = |tree: ValueTree| sorted_tree(tree);
            let presented = tree_of(nodes, value, floor)->Entries_0;
            lemma_sorted_entries(entries);
            lemma_sort_map(entries, f);
            assert forall|c: int| 0 <= c < kids.len() implies presented[c] == map_entries(
                sort_entries(entries),
                f,
            )[c] by {
                assert(child_presented(nodes, first, kids, c));
            }
            assert(presented =~= map_entries(sort_entries(entries), f));
        } else {
            let presented = tree_of(nodes, value, floor)->List_0;
            assert forall|c: int| 0 <= c < kids.len() implies presented[c] == item_tree(
                item,
            )->List_0[c] by {
                assert(child_presented(nodes, first, kids, c));
            }
            assert(presented =~= item_tree(item)->List_0);
        }
    } else {
        assert(tree_of(nodes, value, floor) == scalar_tree(value));
    }
}

impl<'a> Flattener<'a> {
    /// Queues the children of a converted value and writes their keys.
    fn queue_children(
        &mut self,
        children: ContainerChildren<'a>,
        first: usize,
        depth: usize,
        Ghost(item): Ghost<Item>,
    ) -> (r: Result<(), ConversionError>)
        requires
            children_wf(children),
            found_children(children) == item_children(item),
            old(self).nodes@.len() == first + item_children(item).len(),
            keyless(old(self).nodes@, first as int),
            depth <= OTEL_LOG_MAX_VALUE_DEPTH,
        ensures
            r is Ok ==> {
                let kids = item_children(item);
                let queue = final(self).queue@;
                let start = old(self).queue@.len();
                &&& queue_fault(item, depth as nat, 0) is None
                &&& final(self).nodes@.len() == old(self).nodes@.len()
                &&& forall|i: int|
                    0 <= i < old(self).nodes@.len() ==> (#[trigger] final(self).nodes@[i]).value
                        == old(self).nodes@[i].value
                &&& forall|i: int|
                    0 <= i < first ==> (#[trigger] final(self).nodes@[i]).key == old(
                        self,
                    ).nodes@[i].key
                &&& forall|c: int|
                    0 <= c < kids.len() ==> (#[trigger] final(self).nodes@[first + c]).key.text()
                        == Ok::<Seq<char>, AbiError>(kids[c].0)
                &&& queue.len() == start + kids.len()
                &&& queue.take(start as int) == old(self).queue@
                &&& forall|c: int|
                    0 <= c < kids.len() ==> (#[trigger] queue[start + c]).0 == Slot::Node(
                        (first + c) as usize,
                    ) && queue[start + c].2 == depth + 1 && source_wf(queue[start + c].1)
                        && source_item(queue[start + c].1) == kids[c].1
            },
            r matches Err(e) ==> if e.is_memory() {
                queue_refused(item, depth as nat, e)
            } else {
                queue_fault(item, depth as nat, 0) == Some(e)
            },
    {
        let ghost kids = item_children(item);
        let ghost start = self.queue@.len() as int;
        let count: usize = match &children {
            ContainerChildren::Leaf => 0,
            ContainerChildren::List(values) => values.len(),
            ContainerChildren::Entries(entries) => entries.len(),
            ContainerChildren::Scalars(values) => values.len(),
        };
        assert(self.queue@.take(start) =~= self.queue@);
        let mut offset: usize = 0;
        while offset < count
            invariant
                offset <= count,
                count == kids.len(),
                kids == item_children(item),
                kids == found_children(children),
                children_wf(children),
                depth <= OTEL_LOG_MAX_VALUE_DEPTH,
                start == old(self).queue@.len(),
                self.nodes@.len() == old(self).nodes@.len(),
                self.nodes@.len() == first + kids.len(),
                forall|i: int|
                    0 <= i < self.nodes@.len() ==> (#[trigger] self.nodes@[i]).value == old(
                        self,
                    ).nodes@[i].value,
                forall|i: int|
                    0 <= i < first ==> (#[trigger] self.nodes@[i]).key == old(self).nodes@[i].key,
                forall|i: int|
                    first + offset <= i < self.nodes@.len() ==> (#[trigger] self.nodes@[i]).key.text()
                        == Ok::<Seq<char>, AbiError>(Seq::empty()),
                forall|c: int|
                    0 <= c < offset ==> (#[trigger] self.nodes@[first + c]).key.text() == Ok::<
                        Seq<char>,
                        AbiError,
                    >(kids[c].0),
                self.queue@.len() == start + offset,
                self.queue@.take(start) == old(self).queue@,
                forall|c: int|
                    0 <= c < offset ==> (#[trigger] self.queue@[start + c]).0 == Slot::Node(
                        (first + c) as usize,
                    ) && self.queue@[start + c].2 == depth + 1 && source_wf(self.queue@[start + c].1)
                        && source_item(self.queue@[start + c].1) == kids[c].1,
                queue_fault(item, depth as nat, 0) == queue_fault(item, depth as nat, offset as int),
                offset > 0 ==> text_fault(kids[0].0) is None && depth + 1 <= OTEL_LOG_MAX_VALUE_DEPTH,
            decreases count - offset,
        {
            proof {
                crate::abi::lemma_empty_text();
            }
            let pool_len: usize = self.nodes.len();
            let at: usize = first + offset;
            let source = match &children {
                ContainerChildren::List(values) => Source::Any(&values[offset]),
                ContainerChildren::Entries(entries) => {
                    let (key, value) = entries[offset];
                    let view = string_view(key)?;
                    let mut node = self.nodes[at];
                    node.key = view;
                    self.nodes.set(at, node);
                    Source::Any(value)
                },
                ContainerChildren::Scalars(values) => Source::Scalar(values[offset]),
                ContainerChildren::Leaf => return Ok(()),
            };
            let ghost queue_before = self.queue@;
            self.enqueue(Slot::Node(at), source, depth + 1)?;
            assert(self.queue@.take(start) =~= queue_before.take(start));
            assert(self.queue@[start + offset] == (Slot::Node(at), source, (depth + 1) as usize));
            offset += 1;
        }
        Ok(())
    }
}

/// Number of children of a value.
pub open spec fn child_count(value: OtelLogValue) -> nat {
    if value.is_container() {
        value.count() as nat
    } else {
        0
    }
}

/// How many children the first `k` values have together.
pub open spec fn counts_before(values: Seq<OtelLogValue>, k: int) -> nat
    decreases k,
{
    if k <= 0 {
        0
    } else {
        counts_before(values, k - 1) + child_count(values[k - 1])
    }
}

impl<'a> Flattened<'a> {
    /// The values in the order of their visits: the body where there is one, the attributes, and
    /// the pool front to back.
    pub open spec fn visit_order(self, has_body: bool) -> Seq<OtelLogValue<'a>> {
        Seq::new(
            (root_count(has_body, self.attributes@.len() as int) + self.nodes@.len()) as nat,
            |k: int|
                slot_value(
                    self.body,
                    self.attributes@,
                    self.nodes@,
                    slot_at(has_body, self.attributes@.len() as int, k),
                ),
        )
    }

    /// The blocks of children follow one another in visiting order and fill the pool, and every
    /// block lies beyond the container that owns it.
    pub open spec fn breadth_first(self, has_body: bool) -> bool {
        let order = self.visit_order(has_body);
        let roots = root_count(has_body, self.attributes@.len() as int);
        &&& forall|k: int|
            0 <= k < order.len() && (#[trigger] order[k]).is_container() ==> order[k].first()
                == counts_before(order, k) && k < roots + order[k].first()
        &&& counts_before(order, order.len() as int) == self.nodes@.len()
    }

    /// No value uses its reserved word, every truth value is zero or one, every node has a readable
    /// key, and the elements of arrays have an empty one.
    pub open spec fn keys_fit(self, has_body: bool) -> bool {
        let order = self.visit_order(has_body);
        &&& forall|k: int|
            0 <= k < order.len() ==> (#[trigger] order[k]).reserved == 0 && order[k].plain_truth()
        &&& forall|k: int, c: int|
            0 <= k < order.len() && #[trigger] order[k].claims(c) ==> fits_below(
                self.nodes@[c],
                order[k],
            )
    }
}

/// The key of a node can be read, and is empty below an array.
pub open spec fn fits_below(node: OtelLogValueNode, value: OtelLogValue) -> bool {
    match node.key.text() {
        Ok(key) => value.kind() == Some(OtelLogValueType::Array) ==> key.len() == 0,
        Err(_) => false,
    }
}

/// The flattened owner denotes the body and the attributes.
pub open spec fn flattens(
    flat: Flattened,
    body: Option<ValueTree>,
    keys: Seq<Seq<char>>,
    items: Seq<Item>,
) -> bool {
    &&& match body {
        Some(tree) => tree_of(flat.nodes@, flat.body, -1) == sorted_tree(tree),
        None => flat.body.kind() == Some(OtelLogValueType::Empty) && flat.body.reserved == 0,
    }
    &&& flat.attributes@.len() == items.len()
    &&& forall|i: int|
        0 <= i < items.len() ==> (#[trigger] flat.attributes@[i]).key.text() == Ok::<
            Seq<char>,
            AbiError,
        >(keys[i]) && tree_of(flat.nodes@, flat.attributes@[i].value, -1) == item_tree(items[i])
    &&& flat.nodes@.len() <= OTEL_LOG_MAX_VALUE_NODES
    &&& flat.breadth_first(body is Some)
    &&& flat.keys_fit(body is Some)
}

/// The roots as they are queued at first.
pub open spec fn initial_queue(body: Option<ValueTree>, items: Seq<Item>) -> Seq<(Item, nat)> {
    let rest = Seq::new(items.len(), |i: int| (items[i], 1nat));
    match body {
        Some(tree) => seq![(Item::Any(tree), 1nat)] + rest,
        None => rest,
    }
}

/// Why an owner with this body and these attributes cannot be presented, if it cannot.
pub open spec fn owner_fault(
    body: Option<ValueTree>,
    keys: Seq<Seq<char>>,
    items: Seq<Item>,
) -> Option<ConversionError> {
    if items.len() > OTEL_LOG_MAX_ATTRIBUTES {
        Some(ConversionError::TooManyAttributes(items.len() as usize))
    } else if keys_fault(keys, 0) is Some {
        keys_fault(keys, 0)
    } else {
        work_fault(initial_queue(body, items), 0)
    }
}

/// The allocator refused room to queue the body or an attribute. The first of them at least could
/// be queued but for that.
pub open spec fn roots_refused(
    body: Option<ValueTree>,
    keys: Seq<Seq<char>>,
    e: ConversionError,
) -> bool {
    (body is Some || (keys.len() > 0 && text_fault(keys[0]) is None)) && entry_refused(e)
}

/// The allocator refused room that flattening this owner asks for: for its attributes, for the
/// queue, or while the queue was worked off. An owner without a body and attributes asks for none.
pub open spec fn owner_refused(
    body: Option<ValueTree>,
    keys: Seq<Seq<char>>,
    items: Seq<Item>,
    e: ConversionError,
) -> bool {
    &&& items.len() <= OTEL_LOG_MAX_ATTRIBUTES
    &&& {
        ||| elements_refused(items.len(), e)
        ||| roots_refused(body, keys, e)
        ||| keys_fault(keys, 0) is None && work_refused(initial_queue(body, items), 0, e)
    }
}

/// The tree of an optional value.
pub open spec fn optional_tree(value: Option<&AnyValue>) -> Option<ValueTree> {
    match value {
        Some(v) => Some(v.tree()),
        None => None,
    }
}

/// The keys of borrowed attributes.
pub open spec fn attribute_keys(attributes: Seq<(&str, Source)>) -> Seq<Seq<char>> {
    Seq::new(attributes.len(), |i: int| attributes[i].0@)
}

/// The items of borrowed attributes.
pub open spec fn attribute_items(attributes: Seq<(&str, Source)>) -> Seq<Item> {
    Seq::new(attributes.len(), |i: int| source_item(attributes[i].1))
}

/// What holds of the queue: each entry goes to its slot and nests no deeper than allowed.
spec fn queue_wf(queue: Seq<(Slot, Source, usize)>, has_body: bool, attributes: int) -> bool {
    forall|k: int|
        0 <= k < queue.len() ==> (#[trigger] queue[k]).0 == slot_at(has_body, attributes, k)
            && queue[k].2 <= OTEL_LOG_MAX_VALUE_DEPTH && source_wf(queue[k].1)
}

impl<'a> Flattener<'a> {
    /// Queues the body and the attributes and writes the keys of the attributes.
    fn queue_roots(
        &mut self,
        body: Option<&'a AnyValue>,
        attributes: &[(&'a str, Source<'a>)],
        attribute_nodes: &mut Vec<OtelLogValueNode<'a>>,
    ) -> (r: Result<(), ConversionError>)
        requires
            old(self).nodes@.len() == 0,
            old(self).queue@.len() == 0,
            old(attribute_nodes)@.len() == attributes@.len(),
            attributes@.len() <= OTEL_LOG_MAX_ATTRIBUTES,
            forall|i: int| 0 <= i < attributes@.len() ==> source_wf((#[trigger] attributes@[i]).1),
        ensures
            final(self).nodes == old(self).nodes,
            final(attribute_nodes)@.len() == attributes@.len(),
            r is Ok ==> {
                &&& keys_fault(attribute_keys(attributes@), 0) is None
                &&& queue_wf(final(self).queue@, body is Some, attributes@.len() as int)
                &&& final(self).queue@.len() == root_count(body is Some, attributes@.len() as int)
                &&& remaining(final(self).queue@, 0) == initial_queue(
                    optional_tree(body),
                    attribute_items(attributes@),
                )
                &&& forall|i: int|
                    0 <= i < attributes@.len() ==> (#[trigger] final(attribute_nodes)@[i]).key.text()
                        == Ok::<Seq<char>, AbiError>(attributes@[i].0@)
            },
            r matches Err(e) ==> if e.is_memory() {
                roots_refused(optional_tree(body), attribute_keys(attributes@), e)
            } else {
                keys_fault(attribute_keys(attributes@), 0) == Some(e)
            },
    {
        let ghost has_body = body is Some;
        let ghost extra = root_count(has_body, 0);
        let ghost count = attributes@.len() as int;
        if let Some(body) = body {
            self.enqueue(Slot::Body, Source::Any(body), 1)?;
        }
        let mut index: usize = 0;
        while index < attributes.len()
            invariant
                index <= attributes@.len(),
                count == attributes@.len(),
                count <= OTEL_LOG_MAX_ATTRIBUTES,
                has_body == body is Some,
                extra == root_count(has_body, 0),
                self.nodes == old(self).nodes,
                attribute_nodes@.len() == count,
                self.queue@.len() == extra + index,
                queue_wf(self.queue@, has_body, count),
                body matches Some(b) ==> self.queue@[0].1 == Source::Any(b) && self.queue@[0].2 == 1,
                forall|i: int|
                    0 <= i < index ==> (#[trigger] self.queue@[extra + i]).1 == attributes@[i].1
                        && self.queue@[extra + i].2 == 1,
                forall|i: int|
                    0 <= i < index ==> (#[trigger] attribute_nodes@[i]).key.text() == Ok::<
                        Seq<char>,
                        AbiError,
                    >(attributes@[i].0@),
                forall|i: int| 0 <= i < attributes@.len() ==> source_wf((#[trigger] attributes@[i]).1),
                keys_fault(attribute_keys(attributes@), 0) == keys_fault(
                    attribute_keys(attributes@),
                    index as int,
                ),
                index > 0 ==> text_fault(attribute_keys(attributes@)[0]) is None,
            decreases attributes@.len() - index,
        {
            let (key, source) = attributes[index];
            assert(attribute_keys(attributes@)[index as int] == key@);
            let view = string_view(key)?;
            let mut node = attribute_nodes[index];
            node.key = view;
            attribute_nodes.set(index, node);
            self.enqueue(Slot::Attribute(index), source, 1)?;
            index += 1;
        }
        proof {
            let first = initial_queue(optional_tree(body), attribute_items(attributes@));
            assert forall|k: int| 0 <= k < self.queue@.len() implies remaining(self.queue@, 0)[k]
                == first[k] by {
                if k >= extra {
                    assert(self.queue@[extra + (k - extra)].1 == attributes@[k - extra].1);
                }
            }
            assert(remaining(self.queue@, 0) =~= first);
        }
        Ok(())
    }
}

/// The state of the flattening between two visits.
spec fn in_progress<'a>(
    flattener: Flattener<'a>,
    body: OtelLogValue<'a>,
    attributes: Seq<OtelLogValueNode<'a>>,
    has_body: bool,
    head: int,
) -> bool {
    let queue = flattener.queue@;
    let items = queue_items(queue);
    let roots = root_count(has_body, attributes.len() as int);
    &&& 0 <= head <= queue.len()
    &&& queue.len() == roots + flattener.nodes@.len()
    &&& flattener.nodes@.len() == kids_before(items, head)
    &&& flattener.nodes@.len() <= OTEL_LOG_MAX_VALUE_NODES
    &&& attributes.len() <= OTEL_LOG_MAX_ATTRIBUTES
    &&& queue_wf(queue, has_body, attributes.len() as int)
    &&& forall|k: int|
        0 <= k < head ==> settled(
            slot_value(
                body,
                attributes,
                flattener.nodes@,
                #[trigger] slot_at(has_body, attributes.len() as int, k),
            ),
            items,
            flattener.nodes@,
            roots,
            k,
        )
}

/// The visited value is settled once its children are placed.
proof fn lemma_head_settled(
    value: OtelLogValue,
    items: Seq<Item>,
    nodes: Seq<OtelLogValueNode>,
    roots: int,
    head: int,
    used: int,
    kids: Seq<(Seq<char>, Item)>,
)
    requires
        0 <= head < items.len(),
        used == kids_before(items, head),
        head < roots + used,
        presents(value, items[head], used),
        kids == item_children(items[head]),
        items.len() == roots + nodes.len(),
        nodes.len() == used + kids.len(),
        forall|c: int|
            0 <= c < kids.len() ==> (#[trigger] nodes[used + c]).key.text() == Ok::<
                Seq<char>,
                AbiError,
            >(kids[c].0),
        forall|c: int| 0 <= c < kids.len() ==> #[trigger] items[roots + used + c] == kids[c].1,
    ensures
        settled(value, items, nodes, roots, head),
{
    reveal(settled);
    assert forall|c: int| 0 <= c < kids.len() implies #[trigger] placed(
        items,
        nodes,
        roots,
        items[head],
        c,
        used + c,
    ) by {
        assert(nodes[used + c].key.text() == Ok::<Seq<char>, AbiError>(kids[c].0));
        assert(items[roots + used + c] == kids[c].1);
    }
}

/// One visit keeps the state: the value of the visited entry is written, its children are placed
/// behind the pool and queued behind the queue, and everything else stays.
proof fn lemma_visit<'a>(
    before: Flattener<'a>,
    after: Flattener<'a>,
    body: OtelLogValue<'a>,
    body_after: OtelLogValue<'a>,
    attributes: Seq<OtelLogValueNode<'a>>,
    attributes_after: Seq<OtelLogValueNode<'a>>,
    has_body: bool,
    head: int,
    value: OtelLogValue<'a>,
)
    requires
        in_progress(before, body, attributes, has_body, head),
        head < before.queue@.len(),
        attributes_after.len() == attributes.len(),
        ({
            let item = source_item(before.queue@[head].1);
            let kids = item_children(item);
            let used = before.nodes@.len() as int;
            let start = before.queue@.len() as int;
            let slot = before.queue@[head].0;
            &&& presents(value, item, used)
            &&& slot_value(body_after, attributes_after, after.nodes@, slot) == value
            &&& forall|other: Slot|
                other != slot && valid_slot(other, attributes.len() as int, used)
                    ==> #[trigger] slot_value(body_after, attributes_after, after.nodes@, other)
                    == slot_value(body, attributes, before.nodes@, other)
            &&& after.nodes@.len() == used + kids.len()
            &&& after.nodes@.len() <= OTEL_LOG_MAX_VALUE_NODES
            &&& forall|i: int|
                0 <= i < used ==> (#[trigger] after.nodes@[i]).key == before.nodes@[i].key
            &&& forall|c: int|
                0 <= c < kids.len() ==> (#[trigger] after.nodes@[used + c]).key.text() == Ok::<
                    Seq<char>,
                    AbiError,
                >(kids[c].0)
            &&& after.queue@.len() == start + kids.len()
            &&& after.queue@.take(start) == before.queue@
            &&& forall|c: int|
                0 <= c < kids.len() ==> (#[trigger] after.queue@[start + c]).0 == Slot::Node(
                    (used + c) as usize,
                ) && after.queue@[start + c].2 <= OTEL_LOG_MAX_VALUE_DEPTH && source_wf(
                    after.queue@[start + c].1,
                ) && source_item(after.queue@[start + c].1) == kids[c].1
        }),
    ensures
        in_progress(after, body_after, attributes_after, has_body, head + 1),
{
    let count = attributes.len() as int;
    let roots = root_count(has_body, count);
    let items = queue_items(before.queue@);
    let more = queue_items(after.queue@);
    let item = source_item(before.queue@[head].1);
    let kids = item_children(item);
    let used = before.nodes@.len() as int;
    let start = before.queue@.len() as int;
    assert forall|i: int| 0 <= i < start implies items[i] == more[i] && before.queue@[i]
        == after.queue@[i] by {
        assert(after.queue@.take(start)[i] == after.queue@[i]);
    }
    lemma_kids_prefix(items, more, head);
    assert(kids_before(more, head + 1) == used + kids.len());
    assert forall|k: int| 0 <= k < after.queue@.len() implies (#[trigger] after.queue@[k]).0
        == slot_at(has_body, count, k) && after.queue@[k].2 <= OTEL_LOG_MAX_VALUE_DEPTH
        && source_wf(after.queue@[k].1) by {
        if k < start {
            assert(before.queue@[k] == after.queue@[k]);
        } else {
            assert(after.queue@[start + (k - start)] == after.queue@[k]);
        }
    }
    assert forall|c: int| 0 <= c < kids.len() implies #[trigger] more[roots + used + c]
        == kids[c].1 by {
        assert(source_item(after.queue@[start + c].1) == kids[c].1);
    }
    assert forall|k: int| 0 <= k < head + 1 implies settled(
        slot_value(
            body_after,
            attributes_after,
            after.nodes@,
            #[trigger] slot_at(has_body, count, k),
        ),
        more,
        after.nodes@,
        roots,
        k,
    ) by {
        let slot = slot_at(has_body, count, k);
        assert(before.queue@[head].0 == slot_at(has_body, count, head));
        if k < head {
            assert(slot != slot_at(has_body, count, head));
            assert(valid_slot(slot, count, used));
            let old_value = slot_value(body, attributes, before.nodes@, slot);
            lemma_stays_settled(
                old_value,
                items,
                before.nodes@,
                more,
                after.nodes@,
                roots,
                k,
                head,
            );
        } else {
            lemma_head_settled(value, more, after.nodes@, roots, head, used, kids);
        }
    }
}

/// A slot that exists when the pool holds `nodes` nodes.
spec fn valid_slot(slot: Slot, attributes: int, nodes: int) -> bool {
    match slot {
        Slot::Body => true,
        Slot::Attribute(i) => i < attributes,
        Slot::Node(i) => i < nodes,
    }
}

/// When everything is visited the pool denotes the owner.
proof fn lemma_finished<'a>(
    flattener: Flattener<'a>,
    flat: Flattened<'a>,
    body: Option<&'a AnyValue>,
    attributes: Seq<(&'a str, Source<'a>)>,
)
    requires
        in_progress(
            flattener,
            flat.body,
            flat.attributes@,
            body is Some,
            flattener.queue@.len() as int,
        ),
        flat.nodes@ == flattener.nodes@,
        flat.attributes@.len() == attributes.len(),
        body is None ==> flat.body.kind() == Some(OtelLogValueType::Empty) && flat.body.reserved == 0,
        forall|i: int|
            0 <= i < attributes.len() ==> (#[trigger] flat.attributes@[i]).key.text() == Ok::<
                Seq<char>,
                AbiError,
            >(attributes[i].0@),
        root_count(body is Some, attributes.len() as int) <= flattener.queue@.len(),
        remaining(flattener.queue@.take(root_count(body is Some, attributes.len() as int)), 0)
            == initial_queue(optional_tree(body), attribute_items(attributes)),
    ensures
        flattens(flat, optional_tree(body), attribute_keys(attributes), attribute_items(attributes)),
{
    let has_body = body is Some;
    let count = attributes.len() as int;
    let roots = root_count(has_body, count);
    let extra = root_count(has_body, 0);
    let items = queue_items(flattener.queue@);
    let nodes = flat.nodes@;
    let order = flat.visit_order(has_body);
    let total = flattener.queue@.len() as int;
    let head_items = initial_queue(optional_tree(body), attribute_items(attributes));
    assert forall|k: int| 0 <= k < roots implies items[k] == (#[trigger] head_items[k]).0 by {
        assert(remaining(flattener.queue@.take(roots), 0)[k] == head_items[k]);
    }
    assert forall|k: int| 0 <= k < total implies settled(#[trigger] order[k], items, nodes, roots, k) by {
        let slot = slot_at(has_body, count, k);
        assert(order[k] == slot_value(flat.body, flat.attributes@, nodes, slot));
    }
    assert forall|i: int| 0 <= i < nodes.len() implies settled(
        (#[trigger] nodes[i]).value,
        items,
        nodes,
        roots,
        roots + i,
    ) by {
        assert(order[roots + i] == nodes[i].value);
    }
    if has_body {
        assert(order[0] == flat.body);
        lemma_settled_tree(flat.body, items, nodes, roots, 0, -1);
        assert(head_items[0].0 == Item::Any(body->0.tree()));
    }
    assert forall|i: int| 0 <= i < count implies (#[trigger] flat.attributes@[i]).key.text() == Ok::<
        Seq<char>,
        AbiError,
    >(attribute_keys(attributes)[i]) && tree_of(nodes, flat.attributes@[i].value, -1) == item_tree(
        attribute_items(attributes)[i],
    ) by {
        assert(order[extra + i] == flat.attributes@[i].value);
        assert(settled(order[extra + i], items, nodes, roots, extra + i));
        lemma_settled_tree(flat.attributes@[i].value, items, nodes, roots, extra + i, -1);
        assert(head_items[extra + i].0 == attribute_items(attributes)[i]);
    }
    lemma_layout(flat, has_body, items, roots);
}

/// A settled pool is laid out breadth first, and its keys fit.
proof fn lemma_layout<'a>(flat: Flattened<'a>, has_body: bool, items: Seq<Item>, roots: int)
    requires
        roots == root_count(has_body, flat.attributes@.len() as int),
        items.len() == flat.visit_order(has_body).len(),
        kids_before(items, items.len() as int) == flat.nodes@.len(),
        forall|k: int|
            0 <= k < items.len() ==> settled(
                #[trigger] flat.visit_order(has_body)[k],
                items,
                flat.nodes@,
                roots,
                k,
            ),
    ensures
        flat.breadth_first(has_body),
        flat.keys_fit(has_body),
{
    let order = flat.visit_order(has_body);
    let nodes = flat.nodes@;
    assert(flat.breadth_first(has_body)) by {
        lemma_counts(order, items, nodes, roots, order.len() as int);
        assert forall|k: int| 0 <= k < order.len() && (#[trigger] order[k]).is_container() implies
            order[k].first() == counts_before(order, k) && k < roots + order[k].first() by {
            lemma_counts(order, items, nodes, roots, k);
            lemma_settled_block(order[k], items, nodes, roots, k);
        }
    }
    assert(flat.keys_fit(has_body)) by {
        assert forall|k: int| 0 <= k < order.len() implies (#[trigger] order[k]).reserved == 0
            && order[k].plain_truth() by {
            lemma_settled_words(order[k], items, nodes, roots, k);
        }
        assert forall|k: int, c: int|
            0 <= k < order.len() && #[trigger] order[k].claims(c) implies fits_below(
            nodes[c],
            order[k],
        ) by {
            lemma_settled_key(order[k], items, nodes, roots, k, c);
        }
    }
}

/// The block of a settled container starts behind the blocks before it.
proof fn lemma_settled_block(
    value: OtelLogValue,
    items: Seq<Item>,
    nodes: Seq<OtelLogValueNode>,
    roots: int,
    k: int,
)
    requires
        settled(value, items, nodes, roots, k),
    ensures
        value.is_container() ==> value.first() == kids_before(items, k) && k < roots + value.first(),
{
    reveal(settled);
}

/// The key of a child of a settled container fits.
proof fn lemma_settled_key(
    value: OtelLogValue,
    items: Seq<Item>,
    nodes: Seq<OtelLogValueNode>,
    roots: int,
    k: int,
    c: int,
)
    requires
        settled(value, items, nodes, roots, k),
        value.claims(c),
    ensures
        fits_below(nodes[c], value),
{
    reveal(settled);
    let first = kids_before(items, k) as int;
    assert(placed(items, nodes, roots, items[k], c - first, first + (c - first)));
}

/// A settled value has plain words.
proof fn lemma_settled_words(
    value: OtelLogValue,
    items: Seq<Item>,
    nodes: Seq<OtelLogValueNode>,
    roots: int,
    k: int,
)
    requires
        settled(value, items, nodes, roots, k),
    ensures
        value.reserved == 0,
        value.plain_truth(),
{
    reveal(settled);
}

proof fn lemma_counts(
    order: Seq<OtelLogValue>,
    items: Seq<Item>,
    nodes: Seq<OtelLogValueNode>,
    roots: int,
    k: int,
)
    requires
        0 <= k <= order.len(),
        order.len() == items.len(),
        forall|j: int| 0 <= j < order.len() ==> settled(#[trigger] order[j], items, nodes, roots, j),
    ensures
        counts_before(order, k) == kids_before(items, k),
    decreases k,
{
    if k > 0 {
        lemma_counts(order, items, nodes, roots, k - 1);
        assert(settled(order[k - 1], items, nodes, roots, k - 1));
        reveal(settled);
        lemma_leaf_has_no_children(items[k - 1]);
    }
}

proof fn lemma_leaf_has_no_children(item: Item)
    ensures
        !is_container_item(item) ==> item_children(item).len() == 0,
{
}

/// After a visit the rest of the queue is what was behind the visited entry, then its children.
proof fn lemma_rest_of_queue(
    before: Seq<(Slot, Source, usize)>,
    after: Seq<(Slot, Source, usize)>,
    head: int,
    item: Item,
    depth: nat,
)
    requires
        0 <= head < before.len(),
        item == source_item(before[head].1),
        after.len() == before.len() + item_children(item).len(),
        after.take(before.len() as int) == before,
        forall|c: int|
            0 <= c < item_children(item).len() ==> (#[trigger] after[before.len() + c]).2 == depth + 1
                && source_item(after[before.len() + c].1) == item_children(item)[c].1,
    ensures
        remaining(after, head + 1) == remaining(before, head).drop_first() + queued(item, depth),
{
    let left = remaining(after, head + 1);
    let right = remaining(before, head).drop_first() + queued(item, depth);
    let split = before.len() - head - 1;
    assert forall|j: int| 0 <= j < left.len() implies left[j] == right[j] by {
        if j < split {
            assert(after.take(before.len() as int)[head + 1 + j] == after[head + 1 + j]);
        } else {
            assert(after[before.len() + (j - split)].2 == depth + 1);
        }
    }
    assert(left =~= right);
}

impl<'a> Flattener<'a> {
    /// Visits one queued entry: converts it, writes it to its slot and queues its children.
    fn visit(
        &mut self,
        head: usize,
        body_value: &mut OtelLogValue<'a>,
        attribute_nodes: &mut Vec<OtelLogValueNode<'a>>,
        Ghost(has_body): Ghost<bool>,
    ) -> (r: Result<(), ConversionError>)
        requires
            head < old(self).queue@.len(),
            in_progress(
                *old(self),
                *old(body_value),
                old(attribute_nodes)@,
                has_body,
                head as int,
            ),
        ensures
            r is Ok ==> {
                let queue = old(self).queue@;
                let used = old(self).nodes@.len();
                &&& in_progress(
                    *final(self),
                    *final(body_value),
                    final(attribute_nodes)@,
                    has_body,
                    head + 1,
                )
                &&& work_fault(remaining(queue, head as int), used) == work_fault(
                    remaining(final(self).queue@, head + 1),
                    final(self).nodes@.len(),
                )
                &&& forall|e: ConversionError| #[trigger]
                    work_refused(
                        remaining(final(self).queue@, head + 1),
                        final(self).nodes@.len(),
                        e,
                    ) ==> work_refused(remaining(queue, head as int), used, e)
                &&& final(self).queue@.len() >= queue.len()
                &&& final(self).queue@.take(queue.len() as int) == queue
                &&& final(attribute_nodes)@.len() == old(attribute_nodes)@.len()
                &&& forall|i: int|
                    0 <= i < old(attribute_nodes)@.len() ==> (#[trigger] final(attribute_nodes)@[i]).key
                        == old(attribute_nodes)@[i].key
                &&& !has_body ==> *final(body_value) == *old(body_value)
                &&& final(self).queue@.len() - queue.len() == final(self).nodes@.len() - used
                &&& final(self).nodes@.len() >= used
            },
            r matches Err(e) ==> if e.is_memory() {
                work_refused(remaining(old(self).queue@, head as int), old(self).nodes@.len(), e)
            } else {
                work_fault(remaining(old(self).queue@, head as int), old(self).nodes@.len())
                    == Some(e)
            },
    {
        let ghost before = *self;
        let ghost count = attribute_nodes@.len() as int;
        let (slot, source, depth) = self.queue[head];
        let ghost item = source_item(source);
        let ghost rest = remaining(self.queue@, head as int);
        let used: usize = self.nodes.len();
        assert(rest[0] == (item, depth as nat));
        assert(slot == slot_at(has_body, count, head as int));
        assert(source_wf(source) && depth <= OTEL_LOG_MAX_VALUE_DEPTH);
        let (value, children) = self.convert_source(source)?;
        self.write(slot, value, body_value, attribute_nodes, Ghost(used as int));
        self.queue_children(children, used, depth, Ghost(item))?;
        proof {
            lemma_children_fit(item, used as nat);
            lemma_queue_depth(item, depth as nat, 0);
            lemma_visit(
                before,
                *self,
                *old(body_value),
                *body_value,
                old(attribute_nodes)@,
                attribute_nodes@,
                has_body,
                head as int,
                value,
            );
            lemma_rest_of_queue(before.queue@, self.queue@, head as int, item, depth as nat);
        }
        Ok(())
    }

    /// Converts one source.
    fn convert_source(&mut self, source: Source<'a>) -> (r: Result<
        (OtelLogValue<'a>, ContainerChildren<'a>),
        ConversionError,
    >)
        requires
            source_wf(source),
        ensures
            r matches Ok((value, children)) ==> final(self).converted(
                *old(self),
                source_item(source),
                value,
                children,
            ),
            r matches Err(e) ==> if e.is_memory() {
                item_refused(source_item(source), old(self).nodes@.len(), e)
            } else {
                item_fault(source_item(source), old(self).nodes@.len()) == Some(e)
            },
    {
        match source {
            Source::Any(value) => self.convert_any(value),
            Source::Attribute(value) => self.convert_attribute_value(value),
            Source::Scalar(value) => {
                assert(self.nodes@.take(self.nodes@.len() as int) =~= self.nodes@);
                assert(found_children(ContainerChildren::Leaf) =~= Seq::empty());
                Ok((value, ContainerChildren::Leaf))
            },
        }
    }

    /// Writes a converted value to its slot.
    fn write(
        &mut self,
        slot: Slot,
        value: OtelLogValue<'a>,
        body_value: &mut OtelLogValue<'a>,
        attribute_nodes: &mut Vec<OtelLogValueNode<'a>>,
        Ghost(used): Ghost<int>,
    )
        requires
            used <= old(self).nodes@.len(),
            valid_slot(slot, old(attribute_nodes)@.len() as int, used),
        ensures
            final(self).queue == old(self).queue,
            final(self).nodes@.len() == old(self).nodes@.len(),
            final(attribute_nodes)@.len() == old(attribute_nodes)@.len(),
            slot_value(*final(body_value), final(attribute_nodes)@, final(self).nodes@, slot) == value,
            slot != Slot::Body ==> *final(body_value) == *old(body_value),
            forall|i: int|
                0 <= i < old(attribute_nodes)@.len() ==> (#[trigger] final(attribute_nodes)@[i]).key
                    == old(attribute_nodes)@[i].key && (slot != Slot::Attribute(i as usize)
                    ==> final(attribute_nodes)@[i].value == old(attribute_nodes)@[i].value),
            forall|i: int|
                0 <= i < old(self).nodes@.len() ==> (#[trigger] final(self).nodes@[i]).key == old(
                    self,
                ).nodes@[i].key && (slot != Slot::Node(i as usize) ==> final(self).nodes@[i].value
                    == old(self).nodes@[i].value),
    {
        match slot {
            Slot::Body => {
                *body_value = value;
            },
            Slot::Attribute(index) => {
                let mut node = attribute_nodes[index];
                node.value = value;
                attribute_nodes.set(index, node);
            },
            Slot::Node(index) => {
                let mut node = self.nodes[index];
                node.value = value;
                self.nodes.set(index, node);
            },
        }
    }

    /// Flattens one owner's body and attributes into a self-contained pool.
    pub fn flatten(self, body: Option<&'a AnyValue>, attributes: &[(&'a str, Source<'a>)]) -> (r:
        Result<Flattened<'a>, ConversionError>)
        requires
            self.nodes@.len() == 0,
            self.queue@.len() == 0,
            forall|i: int| 0 <= i < attributes@.len() ==> source_wf((#[trigger] attributes@[i]).1),
        ensures
            r matches Ok(flat) ==> owner_fault(
                optional_tree(body),
                attribute_keys(attributes@),
                attribute_items(attributes@),
            ) is None && flattens(
                flat,
                optional_tree(body),
                attribute_keys(attributes@),
                attribute_items(attributes@),
            ),
            r matches Err(e) ==> if e.is_memory() {
                owner_refused(
                    optional_tree(body),
                    attribute_keys(attributes@),
                    attribute_items(attributes@),
                    e,
                )
            } else {
                owner_fault(
                    optional_tree(body),
                    attribute_keys(attributes@),
                    attribute_items(attributes@),
                ) == Some(e)
            },
            body is None && attributes@.len() == 0 ==> r is Ok,
    {
        let mut flattener = self;
        if attributes.len() > OTEL_LOG_MAX_ATTRIBUTES {
            return Err(ConversionError::TooManyAttributes(attributes.len()));
        }
        let mut attribute_nodes = try_sized_vec(attributes.len())?;
        flattener.queue_roots(body, attributes, &mut attribute_nodes)?;
        let ghost has_body = body is Some;
        let ghost count = attributes@.len() as int;
        let ghost roots = root_count(has_body, count);
        let ghost fault = work_fault(
            initial_queue(optional_tree(body), attribute_items(attributes@)),
            0,
        );
        let mut body_value = empty_value();
        let mut head: usize = 0;
        assert(flattener.queue@.take(roots) =~= flattener.queue@);
        while head < flattener.queue.len()
            invariant
                has_body == body is Some,
                count == attributes@.len(),
                roots == root_count(has_body, count),
                attribute_nodes@.len() == count,
                count <= OTEL_LOG_MAX_ATTRIBUTES,
                keys_fault(attribute_keys(attributes@), 0) is None,
                in_progress(flattener, body_value, attribute_nodes@, has_body, head as int),
                roots <= flattener.queue@.len(),
                remaining(flattener.queue@.take(roots), 0) == initial_queue(
                    optional_tree(body),
                    attribute_items(attributes@),
                ),
                !has_body ==> body_value.kind() == Some(OtelLogValueType::Empty)
                    && body_value.reserved == 0,
                forall|i: int|
                    0 <= i < count ==> (#[trigger] attribute_nodes@[i]).key.text() == Ok::<
                        Seq<char>,
                        AbiError,
                    >(attributes@[i].0@),
                fault == work_fault(
                    initial_queue(optional_tree(body), attribute_items(attributes@)),
                    0,
                ),
                fault == work_fault(
                    remaining(flattener.queue@, head as int),
                    flattener.nodes@.len(),
                ),
                forall|e: ConversionError| #[trigger]
                    work_refused(
                        remaining(flattener.queue@, head as int),
                        flattener.nodes@.len(),
                        e,
                    ) ==> work_refused(
                        initial_queue(optional_tree(body), attribute_items(attributes@)),
                        0,
                        e,
                    ),
            decreases
                    OTEL_LOG_MAX_VALUE_NODES - flattener.nodes@.len(),
                    flattener.queue@.len() - head,
        {
            flattener.visit(head, &mut body_value, &mut attribute_nodes, Ghost(has_body))?;
            head += 1;
        }
        let flat = Flattened { body: body_value, attributes: attribute_nodes, nodes: flattener.nodes };
        proof {
            lemma_finished(
                Flattener { nodes: flat.nodes, queue: flattener.queue },
                flat,
                body,
                attributes@,
            );
        }
        Ok(flat)
    }
}

/// Children that could be queued nest no deeper than allowed.
proof fn lemma_queue_depth(item: Item, depth: nat, i: int)
    requires
        queue_fault(item, depth, i) is None,
        0 <= i,
    ensures
        i < item_children(item).len() ==> depth + 1 <= OTEL_LOG_MAX_VALUE_DEPTH,
{
}

} // verus!
