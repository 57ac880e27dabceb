//! What holds of log values as a whole: accepted and exported pools are forests, exports have one
//! order, and what is emitted comes out again.

use vstd::prelude::*;

use crate::key_order::{
    ascending, key_less, key_order_is_total, lemma_sort_map, map_entries, sort_entries,
    sorting_orders_and_keeps_entries,
};
use crate::log_convert::{lemma_accepted, lemma_forward, lemma_single_claim, lemma_taken};
use crate::log_emit::{represents, LogRecord, OtelLogRecordView};
use crate::log_export::{
    any_items, body_tree, export_record_fault, owned_keys, presents_record, ExportedRecord,
    OtelLogExportRecordView,
};
use crate::log_flatten::{
    child_count, counts_before, flattens, initial_queue, item_tree, root_count, sorted_tree,
    sorted_values, work_fault, Flattened, Item,
};
use crate::log_validate::{
    child_fault, children_fault, first_free, pool_fault, taken_after, value_depth, visited,
};
use crate::log_value::{
    key_text, tree_of, OtelLogValue, OtelLogValueNode, OtelLogValueType, ValueTree,
    OTEL_LOG_MAX_VALUE_DEPTH,
};

verus! {

/// Exactly one of the values claims node `i`.
pub open spec fn claimed_once(values: Seq<OtelLogValue>, i: int) -> bool {
    exists|k: int| #[trigger] sole_claim(values, k, i)
}

/// The `k`-th value claims node `i` and no other does.
pub open spec fn sole_claim(values: Seq<OtelLogValue>, k: int, i: int) -> bool {
    &&& 0 <= k < values.len()
    &&& values[k].claims(i)
    &&& forall|j: int| 0 <= j < values.len() && (#[trigger] values[j]).claims(i) ==> j == k
}

/// The values of a pool in order, then its roots.
pub open spec fn pool_values<'a>(
    nodes: Seq<OtelLogValueNode<'a>>,
    roots: Seq<OtelLogValue<'a>>,
) -> Seq<OtelLogValue<'a>> {
    Seq::new(nodes.len() + roots.len(), |k: int| visited(nodes, roots, k))
}

proof fn lemma_all_taken(taken: Seq<bool>, from: int, i: int)
    requires
        0 <= from <= i < taken.len(),
        first_free(taken, from) is None,
    ensures
        taken[i],
    decreases i - from,
{
    if from < i {
        lemma_all_taken(taken, from + 1, i);
    }
}

proof fn lemma_child_accepted(nodes: Seq<OtelLogValueNode>, value: OtelLogValue, from: int, c: int)
    requires
        from <= c < value.end(),
        children_fault(nodes, value, from) is None,
    ensures
        child_fault(nodes, value, c) is None,
    decreases c - from,
{
    if from < c {
        lemma_child_accepted(nodes, value, from + 1, c);
    }
}

/// An accepted pool is a forest: every container addresses children inside the pool and beyond
/// itself, every node is the child of exactly one node or root, and no root nests beyond the
/// limit.
pub proof fn accepted_pool_is_a_forest(nodes: Seq<OtelLogValueNode>, roots: Seq<OtelLogValue>)
    requires
        pool_fault(nodes, roots) is None,
    ensures
        forall|k: int|
            0 <= k < nodes.len() && (#[trigger] nodes[k]).value.is_container()
                ==> nodes[k].value.addresses(k, nodes.len()),
        forall|r: int|
            0 <= r < roots.len() && (#[trigger] roots[r]).is_container() ==> roots[r].addresses(
                -1,
                nodes.len(),
            ),
        forall|i: int|
            0 <= i < nodes.len() ==> #[trigger] claimed_once(pool_values(nodes, roots), i),
        forall|r: int|
            0 <= r < roots.len() ==> value_depth(nodes, #[trigger] roots[r], -1)
                <= OTEL_LOG_MAX_VALUE_DEPTH,
{
    let values = pool_values(nodes, roots);
    assert forall|k: int| 0 <= k < nodes.len() && (#[trigger] nodes[k]).value.is_container() implies
        nodes[k].value.addresses(k, nodes.len()) by {
        lemma_forward(nodes, roots, k);
    }
    assert forall|r: int| 0 <= r < roots.len() && (#[trigger] roots[r]).is_container() implies
        roots[r].addresses(-1, nodes.len()) by {
        lemma_forward(nodes, roots, nodes.len() + r);
    }
    assert forall|i: int| 0 <= i < nodes.len() implies #[trigger] claimed_once(values, i) by {
        let total = (nodes.len() + roots.len()) as int;
        lemma_all_taken(taken_after(nodes, roots, total), 0, i);
        lemma_taken(nodes, roots, total, i);
        let k = choose|k: int| 0 <= k < total && (#[trigger] visited(nodes, roots, k)).claims(i);
        assert forall|j: int| 0 <= j < values.len() && (#[trigger] values[j]).claims(i) implies j
            == k by {
            lemma_single_claim(nodes, roots, j, k, i);
        }
        assert(sole_claim(values, k, i));
    }
}

/// In an accepted pool the elements of an array have no key, and the entries of a map have
/// different keys of which none is empty.
pub proof fn accepted_children_have_fitting_keys(
    nodes: Seq<OtelLogValueNode>,
    roots: Seq<OtelLogValue>,
    k: int,
    b: int,
    c: int,
)
    requires
        pool_fault(nodes, roots) is None,
        0 <= k < nodes.len() + roots.len(),
        visited(nodes, roots, k).claims(b),
        visited(nodes, roots, k).claims(c),
    ensures
        nodes[c].key.text() is Ok,
        visited(nodes, roots, k).kind() == Some(OtelLogValueType::Array) ==> key_text(
            nodes[c],
        ).len() == 0,
        visited(nodes, roots, k).kind() == Some(OtelLogValueType::KvMap) ==> key_text(
            nodes[c],
        ).len() > 0,
        visited(nodes, roots, k).kind() == Some(OtelLogValueType::KvMap) && b != c ==> key_text(
            nodes[b],
        ) != key_text(nodes[c]),
{
    let value = visited(nodes, roots, k);
    lemma_accepted(nodes, roots, k);
    lemma_child_accepted(nodes, value, value.first(), b);
    lemma_child_accepted(nodes, value, value.first(), c);
}

/// No two entries of one map, at any level, have the same key.
pub open spec fn distinct_keys(tree: ValueTree) -> bool
    decreases tree,
{
    match tree {
        ValueTree::List(items) => forall|i: int|
            0 <= i < items.len() ==> distinct_keys(#[trigger] items[i]),
        ValueTree::Entries(entries) => different_keys(entries) && forall|i: int|
            0 <= i < entries.len() ==> distinct_keys((#[trigger] entries[i]).1),
        _ => true,
    }
}

/// No two entries have the same key.
pub open spec fn different_keys<T>(entries: Seq<(Seq<char>, T)>) -> bool {
    forall|i: int, j: int|
        0 <= i < j < entries.len() ==> (#[trigger] entries[i]).0 != (#[trigger] entries[j]).0
}

/// The maps of the tree, at every level, have their entries in ascending key order.
pub open spec fn ordered(tree: ValueTree) -> bool
    decreases tree,
{
    match tree {
        ValueTree::List(items) => forall|i: int|
            0 <= i < items.len() ==> ordered(#[trigger] items[i]),
        ValueTree::Entries(entries) => ascending(entries) && forall|i: int|
            0 <= i < entries.len() ==> ordered((#[trigger] entries[i]).1),
        _ => true,
    }
}

/// Every sorted entry is one of the entries.
pub proof fn lemma_sorted_member<T>(entries: Seq<(Seq<char>, T)>, i: int) -> (j: int)
    requires
        0 <= i < sort_entries(entries).len(),
    ensures
        0 <= j < entries.len(),
        entries[j] == sort_entries(entries)[i],
{
    broadcast use vstd::seq_lib::group_to_multiset_ensures;

    let sorted = sort_entries(entries);
    sorting_orders_and_keeps_entries(entries);
    assert(sorted.contains(sorted[i]));
    assert(sorted.to_multiset().count(sorted[i]) > 0);
    assert(entries.contains(sorted[i]));
    choose|j: int| 0 <= j < entries.len() && entries[j] == sorted[i]
}

/// The maps of an exported value are in ascending key order at every level.
pub proof fn exported_maps_are_ordered(tree: ValueTree)
    ensures
        ordered(sorted_tree(tree)),
    decreases tree,
{
    match tree {
        ValueTree::List(items) => {
            let sorted = sorted_tree(tree)->List_0;
            assert forall|i: int| 0 <= i < sorted.len() implies ordered(#[trigger] sorted[i]) by {
                exported_maps_are_ordered(items[i]);
            }
        },
        ValueTree::Entries(entries) => {
            let values = sorted_values(entries);
            let sorted = sort_entries(values);
            sorting_orders_and_keeps_entries(values);
            assert forall|i: int| 0 <= i < sorted.len() implies ordered(
                (#[trigger] sorted[i]).1,
            ) by {
                let j = lemma_sorted_member(values, i);
                exported_maps_are_ordered(entries[j].1);
            }
        },
        _ => {},
    }
}

/// Ordered entries with different keys are fixed by which entries they are.
proof fn lemma_one_order<T>(a: Seq<(Seq<char>, T)>, b: Seq<(Seq<char>, T)>)
    requires
        ascending(a),
        ascending(b),
        different_keys(a),
        a.to_multiset() == b.to_multiset(),
    ensures
        a == b,
    decreases a.len(),
{
    broadcast use vstd::seq_lib::group_to_multiset_ensures;

    assert(a.to_multiset().len() == a.len());
    assert(b.to_multiset().len() == b.len());
    if a.len() > 0 {
        let x = a.last();
        let y = b.last();
        assert(a.contains(x) && b.contains(y));
        assert(b.to_multiset().count(x) > 0);
        assert(a.to_multiset().count(y) > 0);
        let i = choose|i: int| 0 <= i < a.len() && a[i] == y;
        let j = choose|j: int| 0 <= j < b.len() && b[j] == x;
        if i < a.len() - 1 && j < b.len() - 1 {
            assert(!key_less(a[a.len() - 1].0, a[i].0));
            assert(!key_less(b[b.len() - 1].0, b[j].0));
            key_order_is_total(x.0, y.0);
        }
        let c = a.drop_last();
        let d = b.drop_last();
        assert(a =~= c.push(x));
        assert(b =~= d.push(x));
        assert(c.to_multiset() =~= a.to_multiset().remove(x));
        assert(d.to_multiset() =~= b.to_multiset().remove(x));
        assert forall|i: int, j: int| 0 <= i < j < c.len() implies !key_less(
            (#[trigger] c[j]).0,
            (#[trigger] c[i]).0,
        ) by {
            assert(c[i] == a[i] && c[j] == a[j]);
        }
        assert forall|i: int, j: int| 0 <= i < j < d.len() implies !key_less(
            (#[trigger] d[j]).0,
            (#[trigger] d[i]).0,
        ) by {
            assert(d[i] == b[i] && d[j] == b[j]);
        }
        assert forall|i: int, j: int| 0 <= i < j < c.len() implies (#[trigger] c[i]).0 != (
        #[trigger] c[j]).0 by {
            assert(c[i] == a[i] && c[j] == a[j]);
        }
        lemma_one_order(c, d);
    } else {
        assert(a =~= b);
    }
}

/// Sorting keeps keys different.
pub proof fn lemma_sorting_keeps_keys_different<T>(entries: Seq<(Seq<char>, T)>)
    requires
        different_keys(entries),
    ensures
        different_keys(sort_entries(entries)),
{
    broadcast use vstd::seq_lib::group_to_multiset_ensures;

    let sorted = sort_entries(entries);
    sorting_orders_and_keeps_entries(entries);
    assert forall|i: int, j: int| 0 <= i < j < sorted.len() implies (#[trigger] sorted[i]).0 != (
    #[trigger] sorted[j]).0 by {
        let a = lemma_sorted_member(entries, i);
        let b = lemma_sorted_member(entries, j);
        if a == b {
            lemma_repeated_entry(sorted, i, j);
            lemma_single_entry(entries, a);
        }
    }
}

/// What stands at two places is counted twice.
proof fn lemma_repeated_entry<T>(entries: Seq<T>, i: int, j: int)
    requires
        0 <= i < j < entries.len(),
        entries[i] == entries[j],
    ensures
        entries.to_multiset().count(entries[i]) >= 2,
{
    broadcast use vstd::seq_lib::group_to_multiset_ensures;

    let rest = entries.remove(j);
    assert(rest[i] == entries[i]);
    assert(rest.contains(entries[i]));
    assert(rest.insert(j, entries[j]) =~= entries);
    assert(rest.to_multiset().count(entries[i]) > 0);
    assert(entries.to_multiset() =~= rest.to_multiset().insert(entries[j]));
}

/// An entry whose key no other has is counted once.
proof fn lemma_single_entry<T>(entries: Seq<(Seq<char>, T)>, a: int)
    requires
        0 <= a < entries.len(),
        different_keys(entries),
    ensures
        entries.to_multiset().count(entries[a]) == 1,
{
    broadcast use vstd::seq_lib::group_to_multiset_ensures;

    let rest = entries.remove(a);
    assert(rest.insert(a, entries[a]) =~= entries);
    assert(entries.to_multiset() =~= rest.to_multiset().insert(entries[a]));
    if rest.to_multiset().count(entries[a]) > 0 {
        assert(rest.contains(entries[a]));
        let b = choose|b: int| 0 <= b < rest.len() && rest[b] == entries[a];
        if b < a {
            assert(rest[b] == entries[b]);
        } else {
            assert(rest[b] == entries[b + 1]);
        }
    }
}

/// An export does not depend on the order in which a map holds its entries.
pub proof fn exports_have_one_order(
    a: Seq<(Seq<char>, ValueTree)>,
    b: Seq<(Seq<char>, ValueTree)>,
)
    requires
        different_keys(a),
        a.to_multiset() == b.to_multiset(),
    ensures
        sorted_tree(ValueTree::Entries(a)) == sorted_tree(ValueTree::Entries(b)),
{
    let f = |tree: ValueTree| sorted_tree(tree);
    sorting_orders_and_keeps_entries(a);
    sorting_orders_and_keeps_entries(b);
    lemma_sorting_keeps_keys_different(a);
    lemma_one_order(sort_entries(a), sort_entries(b));
    lemma_sort_map(a, f);
    lemma_sort_map(b, f);
    assert(map_entries(a, f) =~= sorted_values(a));
    assert(map_entries(b, f) =~= sorted_values(b));
}

/// Sorting keeps the keys of every map different.
proof fn lemma_sorted_distinct(tree: ValueTree)
    requires
        distinct_keys(tree),
    ensures
        distinct_keys(sorted_tree(tree)),
    decreases tree,
{
    match tree {
        ValueTree::List(items) => {
            let sorted = sorted_tree(tree)->List_0;
            assert forall|i: int| 0 <= i < sorted.len() implies distinct_keys(
                #[trigger] sorted[i],
            ) by {
                lemma_sorted_distinct(items[i]);
            }
        },
        ValueTree::Entries(entries) => {
            let values = sorted_values(entries);
            let sorted = sort_entries(values);
            assert forall|i: int, j: int| 0 <= i < j < values.len() implies (#[trigger] values[i]).0
                != (#[trigger] values[j]).0 by {
                assert(entries[i].0 != entries[j].0);
            }
            lemma_sorting_keeps_keys_different(values);
            assert forall|i: int| 0 <= i < sorted.len() implies distinct_keys(
                (#[trigger] sorted[i]).1,
            ) by {
                let j = lemma_sorted_member(values, i);
                lemma_sorted_distinct(entries[j].1);
            }
        },
        _ => {},
    }
}

proof fn lemma_counts_grow(values: Seq<OtelLogValue>, j: int, k: int)
    requires
        0 <= j <= k,
    ensures
        counts_before(values, j) <= counts_before(values, k),
    decreases k - j,
{
    if j < k {
        lemma_counts_grow(values, j, k - 1);
    }
}

/// The value in whose block node `i` lies.
proof fn lemma_block_of(values: Seq<OtelLogValue>, n: int, i: int) -> (k: int)
    requires
        0 <= i < counts_before(values, n),
    ensures
        0 <= k < n,
        counts_before(values, k) <= i < counts_before(values, k + 1),
    decreases n,
{
    if i >= counts_before(values, n - 1) {
        n - 1
    } else {
        lemma_block_of(values, n - 1, i)
    }
}

/// An exported pool is a forest: every container addresses children inside the pool and beyond
/// itself, and every node is the child of exactly one node or root.
pub proof fn exported_pool_is_a_forest(
    flat: Flattened,
    body: Option<ValueTree>,
    keys: Seq<Seq<char>>,
    items: Seq<Item>,
)
    requires
        flattens(flat, body, keys, items),
    ensures
        forall|k: int|
            0 <= k < flat.visit_order(body is Some).len() && (#[trigger] flat.visit_order(
                body is Some,
            )[k]).is_container() ==> flat.visit_order(body is Some)[k].addresses(
                held_at(flat, body is Some, k),
                flat.nodes@.len(),
            ),
        forall|i: int|
            0 <= i < flat.nodes@.len() ==> #[trigger] claimed_once(
                flat.visit_order(body is Some),
                i,
            ),
{
    let order = flat.visit_order(body is Some);
    let roots = root_count(body is Some, flat.attributes@.len() as int);
    assert forall|k: int|
        0 <= k < order.len() && (#[trigger] order[k]).is_container() implies order[k].addresses(
        held_at(flat, body is Some, k),
        flat.nodes@.len(),
    ) by {
        lemma_counts_grow(order, k + 1, order.len() as int);
        assert(counts_before(order, k + 1) == counts_before(order, k) + child_count(order[k]));
    }
    assert forall|i: int| 0 <= i < flat.nodes@.len() implies #[trigger] claimed_once(order, i) by {
        let k = lemma_block_of(order, order.len() as int, i);
        assert(counts_before(order, k + 1) == counts_before(order, k) + child_count(order[k]));
        assert(order[k].is_container());
        assert(order[k].claims(i));
        assert forall|j: int| 0 <= j < order.len() && (#[trigger] order[j]).claims(i) implies j
            == k by {
            assert(counts_before(order, j + 1) == counts_before(order, j) + child_count(order[j]));
            if j < k {
                lemma_counts_grow(order, j + 1, k);
            } else if k < j {
                lemma_counts_grow(order, k + 1, j);
            }
        }
        assert(sole_claim(order, k, i));
    }
}

/// The pool index at which the `k`-th visited value is held; a root is held at index `-1`.
pub open spec fn held_at(flat: Flattened, has_body: bool, k: int) -> int {
    let roots = root_count(has_body, flat.attributes@.len() as int);
    if k < roots {
        -1
    } else {
        k - roots
    }
}

/// The maps of every visited value have different keys where those of the roots do.
proof fn lemma_visited_distinct(
    flat: Flattened,
    body: Option<ValueTree>,
    keys: Seq<Seq<char>>,
    items: Seq<Item>,
    k: int,
)
    requires
        flattens(flat, body, keys, items),
        body matches Some(tree) ==> distinct_keys(sorted_tree(tree)),
        forall|i: int| 0 <= i < items.len() ==> distinct_keys(item_tree(#[trigger] items[i])),
        0 <= k < flat.visit_order(body is Some).len(),
    ensures
        distinct_keys(
            tree_of(
                flat.nodes@,
                flat.visit_order(body is Some)[k],
                held_at(flat, body is Some, k),
            ),
        ),
    decreases k,
{
    let has_body = body is Some;
    let order = flat.visit_order(has_body);
    let roots = root_count(has_body, flat.attributes@.len() as int);
    if k < roots {
        if has_body && k == 0 {
            assert(order[k] == flat.body);
        } else {
            let i = k - root_count(has_body, 0);
            assert(i < flat.attributes.len());
            assert(order[k] == flat.attributes@[i].value);
            assert(distinct_keys(item_tree(items[i])));
        }
    } else {
        let m = k - roots;
        exported_pool_is_a_forest(flat, body, keys, items);
        assert(claimed_once(order, m));
        let p = choose|p: int| sole_claim(order, p, m);
        let parent = order[p];
        assert(parent.addresses(held_at(flat, has_body, p), flat.nodes@.len()));
        assert(m < flat.nodes.len());
        assert(order[k] == flat.nodes@[m].value);
        lemma_visited_distinct(flat, body, keys, items, p);
        let tree = tree_of(flat.nodes@, parent, held_at(flat, has_body, p));
        let c = m - parent.first();
        if parent.kind() == Some(OtelLogValueType::Array) {
            assert(distinct_keys(tree->List_0[c]));
        } else {
            assert(distinct_keys(tree->Entries_0[c].1));
        }
    }
}

/// The source tree of an item.
pub open spec fn source_tree(item: Item) -> ValueTree {
    match item {
        Item::Any(tree) => tree,
        Item::Attr(tree) => tree,
        Item::UnknownArray => ValueTree::Invalid,
        Item::Scalar(tree) => tree,
    }
}

/// In an exported pool the elements of an array have an empty key, and the entries of a map have
/// different keys, provided that the source maps do.
pub proof fn exported_children_have_fitting_keys(
    flat: Flattened,
    body: Option<ValueTree>,
    keys: Seq<Seq<char>>,
    items: Seq<Item>,
    k: int,
    b: int,
    c: int,
)
    requires
        flattens(flat, body, keys, items),
        body matches Some(tree) ==> distinct_keys(tree),
        forall|i: int| 0 <= i < items.len() ==> distinct_keys(source_tree(#[trigger] items[i])),
        0 <= k < flat.visit_order(body is Some).len(),
        flat.visit_order(body is Some)[k].claims(b),
        flat.visit_order(body is Some)[k].claims(c),
    ensures
        flat.nodes@[c].key.text() is Ok,
        flat.visit_order(body is Some)[k].kind() == Some(OtelLogValueType::Array) ==> key_text(
            flat.nodes@[c],
        ).len() == 0,
        flat.visit_order(body is Some)[k].kind() == Some(OtelLogValueType::KvMap) && b != c
            ==> key_text(flat.nodes@[b]) != key_text(flat.nodes@[c]),
{
    let value = flat.visit_order(body is Some)[k];
    let floor = held_at(flat, body is Some, k);
    if let Some(tree) = body {
        lemma_sorted_distinct(tree);
    }
    assert forall|i: int| 0 <= i < items.len() implies distinct_keys(
        item_tree(#[trigger] items[i]),
    ) by {
        lemma_sorted_distinct(source_tree(items[i]));
    }
    lemma_visited_distinct(flat, body, keys, items, k);
    exported_pool_is_a_forest(flat, body, keys, items);
    assert(value.addresses(floor, flat.nodes@.len()));
    if value.kind() == Some(OtelLogValueType::KvMap) && b != c {
        let entries = tree_of(flat.nodes@, value, floor)->Entries_0;
        assert(entries[b - value.first()].0 == key_text(flat.nodes@[b]));
        assert(entries[c - value.first()].0 == key_text(flat.nodes@[c]));
    }
}

/// An exported record holds the body and the attributes of an emitted one.
pub open spec fn carries(exported: ExportedRecord, emitted: LogRecord) -> bool {
    &&& body_tree(exported.body) == body_tree(emitted.body)
    &&& exported.attributes@.len() == emitted.attributes@.len()
    &&& forall|i: int|
        0 <= i < emitted.attributes@.len() ==> (#[trigger] exported.attributes@[i]).0@
            == emitted.attributes@[i].0@ && exported.attributes@[i].1.tree()
            == emitted.attributes@[i].1.tree()
}

/// What is emitted comes out again: an export shows the body and the attributes that the emitted
/// view showed, with the entries of maps in ascending key order.
pub proof fn exports_show_what_was_emitted(
    input: OtelLogRecordView,
    emitted: LogRecord,
    exported: ExportedRecord,
    output: OtelLogExportRecordView,
)
    requires
        represents(emitted, input),
        carries(exported, emitted),
        presents_record(output, exported),
    ensures
        input.body_present() ==> tree_of(output.value_nodes@, output.body, -1) == sorted_tree(
            tree_of(input.value_nodes.items(), input.body, -1),
        ),
        !input.body_present() ==> output.body.kind() == Some(OtelLogValueType::Empty),
        output.attributes@.len() == input.attributes.items().len(),
        forall|i: int|
            0 <= i < output.attributes@.len() ==> key_text(#[trigger] output.attributes@[i])
                == key_text(input.attributes.items()[i]) && tree_of(
                output.value_nodes@,
                output.attributes@[i].value,
                -1,
            ) == sorted_tree(
                tree_of(input.value_nodes.items(), input.attributes.items()[i].value, -1),
            ),
{
    let attributes = input.attributes.items();
    assert forall|i: int| 0 <= i < output.attributes@.len() implies key_text(
        #[trigger] output.attributes@[i],
    ) == key_text(attributes[i]) && tree_of(
        output.value_nodes@,
        output.attributes@[i].value,
        -1,
    ) == sorted_tree(tree_of(input.value_nodes.items(), attributes[i].value, -1)) by {
        assert(exported.attributes@[i].0@ == emitted.attributes@[i].0@);
        assert(emitted.attributes@[i].0@ == key_text(attributes[i]));
        assert(owned_keys(exported.attributes@)[i] == exported.attributes@[i].0@);
        assert(any_items(exported.attributes@)[i] == Item::Any(exported.attributes@[i].1.tree()));
    }
}

/// Ascending entries are sorted as they stand.
proof fn lemma_sorting_keeps_order<T>(entries: Seq<(Seq<char>, T)>)
    requires
        ascending(entries),
    ensures
        sort_entries(entries) == entries,
    decreases entries.len(),
{
    if entries.len() > 0 {
        let rest = entries.drop_last();
        assert forall|i: int, j: int| 0 <= i < j < rest.len() implies !key_less(
            (#[trigger] rest[j]).0,
            (#[trigger] rest[i]).0,
        ) by {
            assert(rest[i] == entries[i] && rest[j] == entries[j]);
        }
        lemma_sorting_keeps_order(rest);
        if rest.len() > 0 {
            assert(rest.last() == entries[entries.len() - 2]);
            assert(!key_less(entries[entries.len() - 1].0, entries[entries.len() - 2].0));
        }
        assert(rest.push(entries.last()) =~= entries);
    } else {
        assert(sort_entries(entries) =~= entries);
    }
}

/// A tree whose maps are in ascending key order is exported as it is.
pub proof fn ordered_trees_are_exported_unchanged(tree: ValueTree)
    requires
        ordered(tree),
    ensures
        sorted_tree(tree) == tree,
    decreases tree,
{
    match tree {
        ValueTree::List(items) => {
            let sorted = sorted_tree(tree)->List_0;
            assert forall|i: int| 0 <= i < items.len() implies sorted[i] == items[i] by {
                ordered_trees_are_exported_unchanged(items[i]);
            }
            assert(sorted =~= items);
        },
        ValueTree::Entries(entries) => {
            let values = sorted_values(entries);
            assert forall|i: int| 0 <= i < entries.len() implies values[i] == entries[i] by {
                ordered_trees_are_exported_unchanged(entries[i].1);
            }
            assert(values =~= entries);
            lemma_sorting_keeps_order(entries);
        },
        _ => {},
    }
}

/// What is exported and emitted again is the same: a record that represents the body, the
/// attributes and the nodes of an exported view holds the trees that were exported, with the
/// entries of maps in ascending key order, so that they are the same trees where the maps had that
/// order before.
pub proof fn exported_values_convert_back(
    exported: ExportedRecord,
    output: OtelLogExportRecordView,
    again: OtelLogRecordView,
    emitted: LogRecord,
)
    requires
        export_record_fault(exported) is None,
        presents_record(output, exported),
        again.body == output.body,
        again.attributes.items() == output.attributes@,
        again.value_nodes.items() == output.value_nodes@,
        represents(emitted, again),
    ensures
        emitted.body is Some <==> exported.body is Some,
        exported.body matches Some(body) ==> same_but_for_order(emitted.body->0.tree(), body.tree()),
        emitted.attributes@.len() == exported.attributes@.len(),
        forall|i: int|
            0 <= i < exported.attributes@.len() ==> (#[trigger] emitted.attributes@[i]).0@
                == exported.attributes@[i].0@ && same_but_for_order(
                emitted.attributes@[i].1.tree(),
                exported.attributes@[i].1.tree(),
            ),
{
    if let Some(body) = exported.body {
        let items = any_items(exported.attributes@);
        let queue = initial_queue(body_tree(exported.body), items);
        assert(queue[0] == (Item::Any(body.tree()), 1nat));
        assert(work_fault(queue, 0) is None);
        assert(body.tree() !is Invalid);
        lemma_sorted_again(body.tree());
    }
    assert forall|i: int| 0 <= i < exported.attributes@.len() implies (
    #[trigger] emitted.attributes@[i]).0@ == exported.attributes@[i].0@ && same_but_for_order(
        emitted.attributes@[i].1.tree(),
        exported.attributes@[i].1.tree(),
    ) by {
        assert(output.attributes@[i].key.text() is Ok);
        assert(owned_keys(exported.attributes@)[i] == exported.attributes@[i].0@);
        assert(any_items(exported.attributes@)[i] == Item::Any(exported.attributes@[i].1.tree()));
        lemma_sorted_again(exported.attributes@[i].1.tree());
    }
}

/// `tree` is `original` with the entries of its maps in ascending key order: where they had that
/// order it is the same tree, and either is exported alike.
pub open spec fn same_but_for_order(tree: ValueTree, original: ValueTree) -> bool {
    &&& tree == sorted_tree(original)
    &&& ordered(original) ==> tree == original
    &&& sorted_tree(tree) == sorted_tree(original)
}

pub proof fn lemma_sorted_again(tree: ValueTree)
    ensures
        same_but_for_order(sorted_tree(tree), tree),
{
    exported_maps_are_ordered(tree);
    ordered_trees_are_exported_unchanged(sorted_tree(tree));
    if ordered(tree) {
        ordered_trees_are_exported_unchanged(tree);
    }
}

} // verus!
