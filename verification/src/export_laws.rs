//! Which log records can be exported: exactly those within the limits, as far as memory allows,
//! whatever order the limits are checked in.

use vstd::prelude::*;
use vstd::utf8::encode_utf8;

use crate::export_error::ConversionError;
use crate::key_order::{insert_entry, sort_entries, sorting_orders_and_keeps_entries};
use crate::log_export::{
    any_items, body_tree, convert_batch, convert_record, convert_scope, entries_fault, entry_fault,
    owned_keys, scope_seen, value_items, BatchEntry, ExportViewSizes, ExportedRecord,
    InstrumentationScope, OtelLogExportBatchView, OtelLogExportRecordView, OtelLogExportScopeView,
    Resource,
};
use crate::log_flatten::{
    elements_fault, initial_queue, item_children, item_fault, keys_fault,
    lemma_children_fit, owner_fault, queue_fault, queued, source_item, work_fault,
    Array, Item, Source, Value,
};
use crate::log_laws::lemma_sorted_member;
use crate::log_value::{AnyValue, ValueTree, OTEL_LOG_MAX_VALUE_NODES};
use crate::metric_laws::countable;
use crate::record_laws::{lemma_sorted_place, opens_scope};

verus! {

/// The text has at most a mebibyte.
pub open spec fn text_fits(text: Seq<char>) -> bool {
    encode_utf8(text).len() <= 1_048_576
}

/// The optional text has at most a mebibyte.
pub open spec fn optional_text_fits(text: Option<String>) -> bool {
    text matches Some(t) ==> text_fits(t@)
}

/// The tree keeps the limits within so many levels: texts, keys and bytes have at most a mebibyte,
/// and lists and maps at most 1024 entries. Every part has a kind.
pub open spec fn tree_fits(tree: ValueTree, levels: int) -> bool
    decreases tree,
{
    levels >= 1 && match tree {
        ValueTree::Str(text) => text_fits(text),
        ValueTree::Bytes(bytes) => bytes.len() <= 1_048_576,
        ValueTree::List(items) => items.len() <= 1024 && forall|i: int|
            0 <= i < items.len() ==> tree_fits(#[trigger] items[i], levels - 1),
        ValueTree::Entries(entries) => entries.len() <= 1024 && forall|i: int|
            0 <= i < entries.len() ==> text_fits((#[trigger] entries[i]).0) && tree_fits(
                entries[i].1,
                levels - 1,
            ),
        ValueTree::Invalid => false,
        _ => true,
    }
}

/// How many values lie below this one.
pub open spec fn below(tree: ValueTree) -> nat
    decreases tree, 0nat,
{
    match tree {
        ValueTree::List(items) => items.len() + below_items(items, items.len()),
        ValueTree::Entries(entries) => entries.len() + below_entries(entries, entries.len()),
        _ => 0,
    }
}

/// How many values lie below the first `n` items.
pub open spec fn below_items(items: Seq<ValueTree>, n: nat) -> nat
    decreases items, n,
{
    if n == 0 || n > items.len() {
        0
    } else {
        below_items(items, (n - 1) as nat) + below(items[n - 1])
    }
}

/// How many values lie below the first `n` entries.
pub open spec fn below_entries(entries: Seq<(Seq<char>, ValueTree)>, n: nat) -> nat
    decreases entries, n,
{
    if n == 0 || n > entries.len() {
        0
    } else {
        below_entries(entries, (n - 1) as nat) + below(entries[n - 1].1)
    }
}

/// The attribute value keeps the limits: its texts have at most a mebibyte, an array has at most
/// 1024 elements, and it has a kind.
pub open spec fn value_fits(value: Value) -> bool {
    match value {
        Value::String(text) => text_fits(text@),
        Value::Array(Array::String(texts)) => texts@.len() <= 1024 && forall|i: int|
            0 <= i < texts@.len() ==> text_fits((#[trigger] texts@[i])@),
        Value::Array(Array::Bool(truths)) => truths@.len() <= 1024,
        Value::Array(Array::I64(numbers)) => numbers@.len() <= 1024,
        Value::Array(Array::F64(bits)) => bits@.len() <= 1024,
        Value::Array(Array::Unknown) => false,
        Value::Unknown => false,
        _ => true,
    }
}

/// How many elements an attribute value has.
pub open spec fn value_elements(value: Value) -> nat {
    match value {
        Value::Array(Array::String(texts)) => texts@.len(),
        Value::Array(Array::Bool(truths)) => truths@.len(),
        Value::Array(Array::I64(numbers)) => numbers@.len(),
        Value::Array(Array::F64(bits)) => bits@.len(),
        _ => 0,
    }
}

/// The item keeps the limits within so many levels.
spec fn item_fits(item: Item, levels: int) -> bool {
    match item {
        Item::Any(tree) => tree_fits(tree, levels),
        Item::Attr(ValueTree::Str(text)) => text_fits(text),
        Item::Attr(ValueTree::List(items)) => items.len() <= 1024 && (items.len() > 0 ==> levels >= 2)
            && forall|i: int|
            0 <= i < items.len() ==> ((#[trigger] items[i]) matches ValueTree::Str(text) ==> text_fits(
                text,
            )),
        Item::Attr(ValueTree::Invalid) => false,
        Item::UnknownArray => false,
        _ => true,
    }
}

/// How many values lie below an item.
spec fn below_item(item: Item) -> nat {
    match item {
        Item::Any(tree) => below(tree),
        Item::Attr(ValueTree::List(items)) => items.len(),
        _ => 0,
    }
}

/// How many values lie below the first `n` items of a queue.
spec fn below_queue(queue: Seq<(Item, nat)>, n: int) -> nat
    decreases n,
{
    if n <= 0 {
        0
    } else {
        below_queue(queue, n - 1) + below_item(queue[n - 1].0)
    }
}

proof fn lemma_below_parts(a: Seq<(Item, nat)>, b: Seq<(Item, nat)>, n: int)
    requires
        0 <= n <= b.len(),
    ensures
        below_queue(a + b, a.len() + n) == below_queue(a, a.len() as int) + below_queue(b, n),
    decreases n,
{
    if n > 0 {
        lemma_below_parts(a, b, n - 1);
        assert((a + b)[a.len() + n - 1] == b[n - 1]);
    } else {
        lemma_below_same(a + b, a, a.len() as int);
    }
}

proof fn lemma_below_same(a: Seq<(Item, nat)>, b: Seq<(Item, nat)>, n: int)
    requires
        0 <= n <= a.len(),
        n <= b.len(),
        forall|i: int| 0 <= i < n ==> (#[trigger] a[i]) == b[i],
    ensures
        below_queue(a, n) == below_queue(b, n),
    decreases n,
{
    if n > 0 {
        lemma_below_same(a, b, n - 1);
    }
}

proof fn lemma_below_rest(queue: Seq<(Item, nat)>, n: int)
    requires
        1 <= n <= queue.len(),
    ensures
        below_queue(queue, n) == below_item(queue[0].0) + below_queue(queue.drop_first(), n - 1),
    decreases n,
{
    reveal_with_fuel(below_queue, 2);
    if n > 1 {
        lemma_below_rest(queue, n - 1);
        assert(queue.drop_first()[n - 2] == queue[n - 1]);
    }
}

/// The values below entries stay as many when an entry is put among them.
proof fn lemma_below_insert(entries: Seq<(Seq<char>, ValueTree)>, entry: (Seq<char>, ValueTree))
    ensures
        insert_entry(entries, entry).len() == entries.len() + 1,
        below_entries(insert_entry(entries, entry), insert_entry(entries, entry).len())
            == below_entries(entries, entries.len()) + below(entry.1),
    decreases entries.len(),
{
    let now = insert_entry(entries, entry);
    if entries.len() > 0 && crate::key_order::key_less(entry.0, entries.last().0) {
        let before = entries.drop_last();
        lemma_below_insert(before, entry);
        let front = insert_entry(before, entry);
        lemma_below_prefix(now, front, front.len());
        lemma_below_prefix(entries, before, before.len());
    } else {
        lemma_below_prefix(now, entries, entries.len());
    }
}

proof fn lemma_below_prefix(
    a: Seq<(Seq<char>, ValueTree)>,
    b: Seq<(Seq<char>, ValueTree)>,
    n: nat,
)
    requires
        n <= a.len(),
        n <= b.len(),
        forall|i: int| 0 <= i < n ==> (#[trigger] a[i]) == b[i],
    ensures
        below_entries(a, n) == below_entries(b, n),
    decreases n,
{
    if n > 0 {
        lemma_below_prefix(a, b, (n - 1) as nat);
    }
}

proof fn lemma_below_sorted(entries: Seq<(Seq<char>, ValueTree)>)
    ensures
        sort_entries(entries).len() == entries.len(),
        below_entries(sort_entries(entries), entries.len()) == below_entries(
            entries,
            entries.len(),
        ),
    decreases entries.len(),
{
    if entries.len() > 0 {
        let before = entries.drop_last();
        lemma_below_sorted(before);
        lemma_below_insert(sort_entries(before), entries.last());
        lemma_below_prefix(entries, before, before.len());
    }
}

/// The children of an item and what lies below them is what lies below the item.
proof fn lemma_below_children(item: Item, depth: nat)
    ensures
        below_item(item) == item_children(item).len() + below_queue(
            queued(item, depth),
            queued(item, depth).len() as int,
        ),
{
    let kids = item_children(item);
    let queue = queued(item, depth);
    match item {
        Item::Any(ValueTree::List(items)) => {
            lemma_below_list(items, queue, items.len());
        },
        Item::Any(ValueTree::Entries(entries)) => {
            lemma_below_sorted(entries);
            lemma_below_map(sort_entries(entries), queue, entries.len());
        },
        Item::Attr(ValueTree::List(items)) => {
            lemma_below_scalars(queue, queue.len() as int);
        },
        _ => {},
    }
}

proof fn lemma_below_list(items: Seq<ValueTree>, queue: Seq<(Item, nat)>, n: nat)
    requires
        n <= items.len(),
        queue.len() == items.len(),
        forall|i: int| 0 <= i < items.len() ==> (#[trigger] queue[i]).0 == Item::Any(items[i]),
    ensures
        below_queue(queue, n as int) == below_items(items, n),
    decreases n,
{
    if n > 0 {
        lemma_below_list(items, queue, (n - 1) as nat);
        assert(queue[n - 1].0 == Item::Any(items[n - 1]));
    }
}

proof fn lemma_below_map(
    entries: Seq<(Seq<char>, ValueTree)>,
    queue: Seq<(Item, nat)>,
    n: nat,
)
    requires
        n <= entries.len(),
        queue.len() == entries.len(),
        forall|i: int| 0 <= i < entries.len() ==> (#[trigger] queue[i]).0 == Item::Any(entries[i].1),
    ensures
        below_queue(queue, n as int) == below_entries(entries, n),
    decreases n,
{
    if n > 0 {
        lemma_below_map(entries, queue, (n - 1) as nat);
        assert(queue[n - 1].0 == Item::Any(entries[n - 1].1));
    }
}

proof fn lemma_below_scalars(queue: Seq<(Item, nat)>, n: int)
    requires
        0 <= n <= queue.len(),
        forall|i: int| 0 <= i < queue.len() ==> (#[trigger] queue[i]).0 is Scalar,
    ensures
        below_queue(queue, n) == 0,
    decreases n,
{
    if n > 0 {
        lemma_below_scalars(queue, n - 1);
        assert(queue[n - 1].0 is Scalar);
    }
}

/// Everything in the queue keeps the limits with the levels that are left to it.
spec fn queue_fits(queue: Seq<(Item, nat)>) -> bool {
    forall|i: int|
        0 <= i < queue.len() ==> (#[trigger] queue[i]).1 <= 32 && item_fits(
            queue[i].0,
            33 - queue[i].1,
        )
}

proof fn lemma_elements(items: Seq<ValueTree>, from: int)
    requires
        0 <= from <= items.len(),
    ensures
        elements_fault(items, from) is None <==> forall|i: int|
            from <= i < items.len() ==> ((#[trigger] items[i]) matches ValueTree::Str(text)
                ==> text_fits(text)),
    decreases items.len() - from,
{
    if from < items.len() {
        lemma_elements(items, from + 1);
    }
}

proof fn lemma_queueing(item: Item, depth: nat, from: int)
    requires
        0 <= from <= item_children(item).len(),
    ensures
        queue_fault(item, depth, from) is None <==> forall|c: int|
            from <= c < item_children(item).len() ==> text_fits(
                (#[trigger] item_children(item)[c]).0,
            ) && depth + 1 <= 32,
    decreases item_children(item).len() - from,
{
    if from < item_children(item).len() {
        lemma_queueing(item, depth, from + 1);
    }
}

/// An item keeps the limits exactly when it has no fault of its own, its children can be queued and
/// keep the limits, and there is room for them.
proof fn lemma_item(item: Item, depth: nat, used: nat)
    requires
        1 <= depth <= 32,
        used <= 8192,
    ensures
        item_fits(item, 33 - depth) && used + item_children(item).len() <= 8192 ==> item_fault(
            item,
            used,
        ) is None && queue_fault(item, depth, 0) is None && queue_fits(queued(item, depth)),
        item_fault(item, used) is None && queue_fault(item, depth, 0) is None && queue_fits(
            queued(item, depth),
        ) ==> item_fits(item, 33 - depth),
        item_fault(item, used) is None ==> used + item_children(item).len() <= 8192,
{
    let kids = item_children(item);
    let queue = queued(item, depth);
    let levels = 33 - depth;
    lemma_queueing(item, depth, 0);
    vstd::utf8::is_ascii_chars_encode_utf8(Seq::<char>::empty());
    if item_fault(item, used) is None {
        lemma_children_fit(item, used);
    }
    match item {
        Item::Any(ValueTree::List(items)) => {
            assert forall|c: int| 0 <= c < kids.len() implies (#[trigger] kids[c]).0.len() == 0
                && kids[c].1 == Item::Any(items[c]) by {}
            if item_fits(item, levels) {
                assert forall|c: int| 0 <= c < kids.len() implies text_fits(
                    (#[trigger] kids[c]).0,
                ) && depth + 1 <= 32 by {
                    assert(kids[c].0 =~= Seq::<char>::empty());
                    assert(tree_fits(items[c], levels - 1));
                }
                assert forall|c: int| 0 <= c < queue.len() implies (#[trigger] queue[c]).1 <= 32
                    && item_fits(queue[c].0, 33 - queue[c].1) by {
                    assert(tree_fits(items[c], levels - 1));
                    assert(text_fits(kids[c].0));
                }
            }
            if queue_fits(queue) {
                assert forall|c: int| 0 <= c < items.len() implies tree_fits(
                    #[trigger] items[c],
                    levels - 1,
                ) by {
                    assert(item_fits(queue[c].0, 33 - queue[c].1));
                }
            }
        },
        Item::Any(ValueTree::Entries(entries)) => {
            let sorted = sort_entries(entries);
            sorting_orders_and_keeps_entries(entries);
            assert forall|c: int| 0 <= c < kids.len() implies #[trigger] kids[c] == (
                sorted[c].0,
                Item::Any(sorted[c].1),
            ) by {}
            if item_fits(item, levels) {
                assert forall|c: int| 0 <= c < kids.len() implies text_fits(
                    (#[trigger] kids[c]).0,
                ) && depth + 1 <= 32 by {
                    let j = lemma_sorted_member(entries, c);
                    assert(text_fits(entries[j].0) && tree_fits(entries[j].1, levels - 1));
                }
                assert forall|c: int| 0 <= c < queue.len() implies (#[trigger] queue[c]).1 <= 32
                    && item_fits(queue[c].0, 33 - queue[c].1) by {
                    let j = lemma_sorted_member(entries, c);
                    assert(text_fits(entries[j].0) && tree_fits(entries[j].1, levels - 1));
                    assert(text_fits(kids[c].0));
                }
            }
            if queue_fits(queue) && queue_fault(item, depth, 0) is None {
                assert forall|i: int| 0 <= i < entries.len() implies text_fits(
                    (#[trigger] entries[i]).0,
                ) && tree_fits(entries[i].1, levels - 1) by {
                    let c = lemma_sorted_place(entries, i);
                    assert(text_fits(kids[c].0));
                    assert(item_fits(queue[c].0, 33 - queue[c].1));
                }
            }
        },
        Item::Attr(ValueTree::List(items)) => {
            lemma_elements(items, 0);
            assert forall|c: int| 0 <= c < kids.len() implies (#[trigger] kids[c]).0.len() == 0
                && kids[c].1 == Item::Scalar(items[c]) by {}
            assert forall|c: int| 0 <= c < kids.len() implies text_fits((#[trigger] kids[c]).0) by {
                assert(kids[c].0 =~= Seq::<char>::empty());
            }
            if items.len() > 0 && queue_fault(item, depth, 0) is None {
                assert(text_fits(kids[0].0));
            }
        },
        _ => {},
    }
}

proof fn lemma_work(queue: Seq<(Item, nat)>, used: nat)
    requires
        used <= 8192,
        forall|i: int| 0 <= i < queue.len() ==> 1 <= (#[trigger] queue[i]).1 <= 32,
    ensures
        work_fault(queue, used) is None <==> queue_fits(queue) && used + below_queue(
            queue,
            queue.len() as int,
        ) <= 8192,
    decreases OTEL_LOG_MAX_VALUE_NODES - used, queue.len(),
{
    if queue.len() > 0 {
        let item = queue[0].0;
        let depth = queue[0].1;
        let kids = item_children(item);
        let tail = queue.drop_first();
        let more = queued(item, depth);
        let rest = tail + more;
        assert(1 <= queue[0].1 <= 32);
        lemma_item(item, depth, used);
        lemma_below_children(item, depth);
        lemma_below_rest(queue, queue.len() as int);
        lemma_below_parts(tail, more, more.len() as int);
        if item_fault(item, used) is None && queue_fault(item, depth, 0) is None {
            lemma_children_fit(item, used);
            lemma_queueing(item, depth, 0);
            assert forall|i: int| 0 <= i < rest.len() implies 1 <= (#[trigger] rest[i]).1 <= 32 by {
                if i < tail.len() {
                    assert(rest[i] == queue[i + 1]);
                } else {
                    let c = i - tail.len();
                    assert(text_fits(kids[c].0) && depth + 1 <= 32);
                }
            }
            lemma_work(rest, used + kids.len());
            if queue_fits(rest) {
                assert forall|i: int| 0 <= i < more.len() implies (#[trigger] more[i]).1 <= 32
                    && item_fits(more[i].0, 33 - more[i].1) by {
                    assert(rest[tail.len() + i] == more[i]);
                }
                assert(queue_fits(more));
                assert forall|i: int| 0 <= i < queue.len() implies (#[trigger] queue[i]).1 <= 32
                    && item_fits(queue[i].0, 33 - queue[i].1) by {
                    if i > 0 {
                        assert(rest[i - 1] == queue[i]);
                    }
                }
            }
            if queue_fits(queue) && used + below_queue(queue, queue.len() as int) <= 8192 {
                assert(item_fits(queue[0].0, 33 - queue[0].1));
                assert forall|i: int| 0 <= i < rest.len() implies (#[trigger] rest[i]).1 <= 32
                    && item_fits(rest[i].0, 33 - rest[i].1) by {
                    if i < tail.len() {
                        assert(rest[i] == queue[i + 1]);
                    } else {
                        assert(rest[i] == more[i - tail.len()]);
                    }
                }
            }
        } else if queue_fits(queue) {
            assert(item_fits(queue[0].0, 33 - queue[0].1));
        }
    }
}

proof fn lemma_keys(keys: Seq<Seq<char>>, from: int)
    requires
        0 <= from <= keys.len(),
    ensures
        keys_fault(keys, from) is None <==> forall|i: int|
            from <= i < keys.len() ==> text_fits(#[trigger] keys[i]),
    decreases keys.len() - from,
{
    if from < keys.len() {
        lemma_keys(keys, from + 1);
    }
}

/// How many values lie below the first `n` attributes of a record.
pub open spec fn below_attributes(attributes: Seq<(String, AnyValue)>, n: int) -> nat
    decreases n,
{
    if n <= 0 {
        0
    } else {
        below_attributes(attributes, n - 1) + below(attributes[n - 1].1.tree())
    }
}

/// How many elements the first `n` attributes have.
pub open spec fn attribute_elements(attributes: Seq<(String, Value)>, n: int) -> nat
    decreases n,
{
    if n <= 0 {
        0
    } else {
        attribute_elements(attributes, n - 1) + value_elements(attributes[n - 1].1)
    }
}

/// The record can be exported: its times can be counted, its texts, keys and values keep the limits
/// within 32 levels, it has at most 1024 attributes, and at most 8192 values lie below the body and
/// the attributes.
pub open spec fn exportable(record: ExportedRecord) -> bool {
    &&& record.timestamp matches Some(time) ==> countable(time)
    &&& record.observed_timestamp matches Some(time) ==> countable(time)
    &&& optional_text_fits(record.severity_text)
    &&& optional_text_fits(record.event_name)
    &&& optional_text_fits(record.target)
    &&& record.attributes@.len() <= 1024
    &&& record.body matches Some(body) ==> tree_fits(body.tree(), 32)
    &&& forall|i: int|
        0 <= i < record.attributes@.len() ==> text_fits((#[trigger] record.attributes@[i]).0@)
            && tree_fits(record.attributes@[i].1.tree(), 32)
    &&& (match record.body {
        Some(body) => below(body.tree()),
        None => 0,
    }) + below_attributes(record.attributes@, record.attributes@.len() as int) <= 8192
}

/// The attributes of a scope or a resource can be exported: at most 1024 of them, with keys and
/// values that keep the limits, and at most 8192 elements together.
pub open spec fn attributes_exportable(attributes: Seq<(String, Value)>) -> bool {
    &&& attributes.len() <= 1024
    &&& forall|i: int|
        0 <= i < attributes.len() ==> text_fits((#[trigger] attributes[i]).0@) && value_fits(
            attributes[i].1,
        )
    &&& attribute_elements(attributes, attributes.len() as int) <= 8192
}

proof fn lemma_owned_queue(
    body: Option<ValueTree>,
    attributes: Seq<(String, AnyValue)>,
    n: int,
)
    requires
        0 <= n <= attributes.len(),
    ensures
        below_queue(
            initial_queue(body, any_items(attributes)),
            n + (if body is Some {
                1int
            } else {
                0int
            }),
        ) == (match body {
            Some(tree) => below(tree),
            None => 0,
        }) + below_attributes(attributes, n),
    decreases n,
{
    let queue = initial_queue(body, any_items(attributes));
    if n > 0 {
        lemma_owned_queue(body, attributes, n - 1);
        let at: int = if body is Some {
            n
        } else {
            n - 1
        };
        assert(queue[at].0 == any_items(attributes)[n - 1]);
        assert(any_items(attributes)[n - 1] == Item::Any(attributes[n - 1].1.tree()));
    } else {
        reveal_with_fuel(below_queue, 2);
        if let Some(tree) = body {
            assert(queue[0].0 == Item::Any(tree));
        }
    }
}

proof fn lemma_owner(record: ExportedRecord)
    ensures
        owner_fault(
            body_tree(record.body),
            owned_keys(record.attributes@),
            any_items(record.attributes@),
        ) is None <==> {
            &&& record.attributes@.len() <= 1024
            &&& record.body matches Some(body) ==> tree_fits(body.tree(), 32)
            &&& forall|i: int|
                0 <= i < record.attributes@.len() ==> text_fits(
                    (#[trigger] record.attributes@[i]).0@,
                ) && tree_fits(record.attributes@[i].1.tree(), 32)
            &&& (match record.body {
                Some(body) => below(body.tree()),
                None => 0,
            }) + below_attributes(record.attributes@, record.attributes@.len() as int) <= 8192
        },
{
    let attributes = record.attributes@;
    let keys = owned_keys(attributes);
    let items = any_items(attributes);
    let body = body_tree(record.body);
    let queue = initial_queue(body, items);
    let base: int = if body is Some {
        1
    } else {
        0
    };
    lemma_keys(keys, 0);
    lemma_work(queue, 0);
    lemma_owned_queue(body, attributes, attributes.len() as int);
    assert(queue.len() == attributes.len() + base);
    assert forall|i: int| 0 <= i < attributes.len() implies #[trigger] queue[base + i] == (
        Item::Any(attributes[i].1.tree()),
        1nat,
    ) by {
        assert(items[i] == Item::Any(attributes[i].1.tree()));
    }
    assert(forall|i: int| 0 <= i < keys.len() ==> #[trigger] keys[i] == attributes[i].0@);
    if (forall|i: int|
        0 <= i < attributes.len() ==> text_fits((#[trigger] attributes[i]).0@) && tree_fits(
            attributes[i].1.tree(),
            32,
        )) && (record.body matches Some(owned) ==> tree_fits(owned.tree(), 32)) {
        assert forall|i: int| 0 <= i < queue.len() implies (#[trigger] queue[i]).1 <= 32 && item_fits(
            queue[i].0,
            33 - queue[i].1,
        ) by {
            if i >= base {
                assert(queue[base + (i - base)] == queue[i]);
                assert(tree_fits(attributes[i - base].1.tree(), 32));
            }
        }
        assert forall|i: int| 0 <= i < keys.len() implies text_fits(#[trigger] keys[i]) by {
            assert(text_fits(attributes[i].0@));
        }
    }
    if queue_fits(queue) {
        if base == 1 {
            assert(item_fits(queue[0].0, 33 - queue[0].1));
        }
        assert forall|i: int| 0 <= i < attributes.len() implies tree_fits(
            (#[trigger] attributes[i]).1.tree(),
            32,
        ) by {
            assert(item_fits(queue[base + i].0, 33 - queue[base + i].1));
        }
    }
    if keys_fault(keys, 0) is None {
        assert forall|i: int| 0 <= i < attributes.len() implies text_fits(
            (#[trigger] attributes[i]).0@,
        ) by {
            assert(text_fits(keys[i]));
        }
    }
}

/// A record is exported only when it keeps the limits, and refused only when it does not or when
/// there is no memory for it.
pub proof fn export_is_decided_by_limits<'a>(
    record: &'a ExportedRecord,
    scope_index: usize,
    sizes: ExportViewSizes,
    r: Result<OtelLogExportRecordView<'a>, ConversionError>,
)
    requires
        call_ensures(convert_record, (record, scope_index, sizes), r),
    ensures
        r is Ok ==> exportable(*record),
        r matches Err(e) ==> (!(e is Memory) ==> !exportable(*record)),
{
    lemma_owner(*record);
}

proof fn lemma_value_item(value: Value)
    ensures
        item_fits(source_item(Source::Attribute(&value)), 32) <==> value_fits(value),
        below_item(source_item(Source::Attribute(&value))) == value_elements(value),
{
    if let Value::Array(array) = value {
        let items = array.elements();
        if let Array::String(texts) = array {
            assert forall|i: int| 0 <= i < items.len() implies #[trigger] items[i]
                == ValueTree::Str(texts@[i]@) by {}
            if value_fits(value) {
                assert forall|i: int| 0 <= i < items.len() implies ((#[trigger] items[i]) matches ValueTree::Str(
                    text,
                ) ==> text_fits(text)) by {
                    assert(text_fits(texts@[i]@));
                }
            }
            if item_fits(source_item(Source::Attribute(&value)), 32) {
                assert forall|i: int| 0 <= i < texts@.len() implies text_fits(
                    (#[trigger] texts@[i])@,
                ) by {
                    assert(items[i] == ValueTree::Str(texts@[i]@));
                }
            }
        }
    }
}

proof fn lemma_value_queue(attributes: Seq<(String, Value)>, n: int)
    requires
        0 <= n <= attributes.len(),
    ensures
        below_queue(initial_queue(None, value_items(attributes)), n) == attribute_elements(
            attributes,
            n,
        ),
    decreases n,
{
    if n > 0 {
        lemma_value_queue(attributes, n - 1);
        lemma_value_item(attributes[n - 1].1);
        assert(initial_queue(None, value_items(attributes))[n - 1].0 == value_items(
            attributes,
        )[n - 1]);
    }
}

proof fn lemma_value_owner(attributes: Seq<(String, Value)>)
    ensures
        owner_fault(None, owned_keys(attributes), value_items(attributes)) is None
            <==> attributes_exportable(attributes),
{
    let keys = owned_keys(attributes);
    let items = value_items(attributes);
    let queue = initial_queue(None, items);
    lemma_keys(keys, 0);
    lemma_work(queue, 0);
    lemma_value_queue(attributes, attributes.len() as int);
    assert(queue.len() == attributes.len());
    assert forall|i: int| 0 <= i < attributes.len() implies #[trigger] queue[i] == (
        source_item(Source::Attribute(&attributes[i].1)),
        1nat,
    ) && (item_fits(queue[i].0, 32) <==> value_fits(attributes[i].1)) by {
        assert(items[i] == source_item(Source::Attribute(&attributes[i].1)));
        lemma_value_item(attributes[i].1);
    }
    assert(forall|i: int| 0 <= i < keys.len() ==> #[trigger] keys[i] == attributes[i].0@);
    if attributes_exportable(attributes) {
        assert forall|i: int| 0 <= i < queue.len() implies (#[trigger] queue[i]).1 <= 32 && item_fits(
            queue[i].0,
            33 - queue[i].1,
        ) by {
            assert(value_fits(attributes[i].1));
        }
        assert forall|i: int| 0 <= i < keys.len() implies text_fits(#[trigger] keys[i]) by {
            assert(text_fits(attributes[i].0@));
        }
    }
    if owner_fault(None, keys, items) is None {
        assert forall|i: int| 0 <= i < attributes.len() implies text_fits(
            (#[trigger] attributes[i]).0@,
        ) && value_fits(attributes[i].1) by {
            assert(text_fits(keys[i]));
            assert(item_fits(queue[i].0, 33 - queue[i].1));
        }
    }
}

/// A scope is exported only when its texts and its attributes keep the limits, and refused only when
/// they do not or when there is no memory for it.
pub proof fn scope_export_is_decided_by_limits<'a>(
    scope: &'a InstrumentationScope,
    sizes: ExportViewSizes,
    r: Result<OtelLogExportScopeView<'a>, ConversionError>,
)
    requires
        call_ensures(convert_scope, (scope, sizes), r),
    ensures
        r is Ok ==> text_fits(scope.name@) && optional_text_fits(scope.version)
            && optional_text_fits(scope.schema_url) && attributes_exportable(scope.attributes@),
        r matches Err(e) ==> (!(e is Memory) ==> !(text_fits(scope.name@) && optional_text_fits(
            scope.version,
        ) && optional_text_fits(scope.schema_url) && attributes_exportable(scope.attributes@))),
{
    lemma_value_owner(scope.attributes@);
}

/// The scope can be exported.
pub open spec fn scope_exportable(scope: InstrumentationScope) -> bool {
    &&& text_fits(scope.name@)
    &&& optional_text_fits(scope.version)
    &&& optional_text_fits(scope.schema_url)
    &&& attributes_exportable(scope.attributes@)
}

/// The batch can be exported: it has at most 65536 records, every record and the scope of every
/// entry that is the first of its scope can be, and so can the resource.
pub open spec fn batch_exportable(entries: Seq<BatchEntry>, resource: Resource) -> bool {
    &&& entries.len() <= 65_536
    &&& forall|i: int| 0 <= i < entries.len() ==> exportable(*(#[trigger] entries[i]).record)
    &&& forall|i: int| #[trigger]
        opens_scope(entries, i) ==> scope_exportable(*entries[i].scope)
    &&& optional_text_fits(resource.schema_url)
    &&& attributes_exportable(resource.attributes@)
}

proof fn lemma_entry(entries: Seq<BatchEntry>, i: int)
    requires
        0 <= i < entries.len(),
    ensures
        entry_fault(entries, i) is None <==> i < 65_536 && exportable(*entries[i].record) && (
        opens_scope(entries, i) ==> scope_exportable(*entries[i].scope)),
{
    lemma_owner(*entries[i].record);
    lemma_value_owner(entries[i].scope.attributes@);
    if opens_scope(entries, i) {
        assert(!scope_seen(entries, i));
    } else {
        assert(scope_seen(entries, i));
    }
}

proof fn lemma_entries(entries: Seq<BatchEntry>, from: int)
    requires
        0 <= from <= entries.len(),
    ensures
        entries_fault(entries, from) is None <==> forall|i: int|
            from <= i < entries.len() ==> (#[trigger] entry_fault(entries, i)) is None,
    decreases entries.len() - from,
{
    if from < entries.len() {
        lemma_entries(entries, from + 1);
    }
}

/// A batch is exported only when all of it keeps the limits, and refused only when some of it does
/// not or when there is no memory for it.
pub proof fn batch_export_is_decided_by_limits<'a>(
    entries: &[BatchEntry<'a>],
    resource: &'a Resource,
    sizes: ExportViewSizes,
    r: Result<OtelLogExportBatchView<'a>, ConversionError>,
)
    requires
        call_ensures(convert_batch, (entries, resource, sizes), r),
    ensures
        r is Ok ==> batch_exportable(entries@, *resource),
        r matches Err(e) ==> (!(e is Memory) ==> !batch_exportable(entries@, *resource)),
{
    let all = entries@;
    lemma_value_owner(resource.attributes@);
    lemma_entries(all, 0);
    assert forall|i: int| 0 <= i < all.len() implies ((#[trigger] entry_fault(all, i)) is None
        <==> i < 65_536 && exportable(*all[i].record) && (opens_scope(all, i) ==> scope_exportable(
        *all[i].scope,
    ))) by {
        lemma_entry(all, i);
    }
    if entries_fault(all, 0) is None {
        assert forall|i: int| 0 <= i < all.len() implies exportable(
            *(#[trigger] all[i]).record,
        ) by {
            assert(entry_fault(all, i) is None);
        }
        assert forall|i: int| #[trigger] opens_scope(all, i) implies scope_exportable(
            *all[i].scope,
        ) by {
            assert(entry_fault(all, i) is None);
        }
        if all.len() > 0 {
            assert(entry_fault(all, all.len() - 1) is None);
        }
    }
    if batch_exportable(all, *resource) {
        assert forall|i: int| 0 <= i < all.len() implies (#[trigger] entry_fault(all, i)) is None by {
            assert(exportable(*all[i].record));
        }
    }
}

} // verus!
