//! The round trip of log values: a pool that was flattened for export is taken back by the input
//! path, and denotes what was exported.

use vstd::prelude::*;
use vstd::utf8::decode_utf8_encode_utf8;

use crate::abi::OtelStringView;
use crate::key_order::{lemma_sort_map, map_entries, sort_entries, sorting_orders_and_keeps_entries};
use crate::log_convert::{
    claimed_within, conversion_stop, lemma_accepted, lemma_forward, lemma_no_stop,
    lemma_single_claim, lemma_taken, roots_left,
};
use crate::log_emit::OtelLogRecordView;
use crate::log_export::{
    any_items, body_tree, export_record_fault, owned_keys, presents_record, ExportedRecord,
    OtelLogExportRecordView,
};
use crate::log_flatten::{
    byte_len, fits_below, flattens, initial_queue, item_children, item_fault, item_tree,
    lemma_children_fit, owner_fault, queue_fault, queued, root_count, sorted_tree, sorted_values,
    text_fault, work_fault, Flattened, Item,
};
use crate::log_laws::{
    accepted_children_have_fitting_keys, claimed_once, different_keys, distinct_keys,
    exported_pool_is_a_forest, held_at, lemma_sorted_again, lemma_sorted_member,
    lemma_sorting_keeps_keys_different, same_but_for_order, sole_claim,
};
use crate::log_validate::{
    child_fault, children_fault, claim_fault, deepest, element_limit, first_free, first_step_fault,
    pool_fault, repeats_key, scalar_fault, step_fault, taken_after, value_depth, visited,
};
use crate::log_value::{
    key_text, tree_of, OtelLogValue, OtelLogValueNode, OtelLogValueType, ValueTree,
    OTEL_LOG_MAX_ARRAY_ELEMENTS, OTEL_LOG_MAX_BYTES_LEN, OTEL_LOG_MAX_MAP_ENTRIES,
    OTEL_LOG_MAX_STRING_LEN, OTEL_LOG_MAX_VALUE_DEPTH, OTEL_LOG_MAX_VALUE_NODES,
};

verus! {

/// No map of the tree, at any level, has an empty key.
pub open spec fn keys_named(tree: ValueTree) -> bool
    decreases tree,
{
    match tree {
        ValueTree::List(items) => forall|i: int|
            0 <= i < items.len() ==> keys_named(#[trigger] items[i]),
        ValueTree::Entries(entries) => forall|i: int|
            0 <= i < entries.len() ==> (#[trigger] entries[i]).0.len() > 0 && keys_named(
                entries[i].1,
            ),
        _ => true,
    }
}

/// The tree keeps the limits of the input path, with at most `levels` levels, and its maps have
/// different keys of which none is empty.
spec fn acceptable(tree: ValueTree, levels: int) -> bool
    decreases tree,
{
    levels >= 1 && match tree {
        ValueTree::Str(text) => byte_len(text) <= OTEL_LOG_MAX_STRING_LEN,
        ValueTree::Bytes(bytes) => bytes.len() <= OTEL_LOG_MAX_BYTES_LEN,
        ValueTree::List(items) => items.len() <= OTEL_LOG_MAX_ARRAY_ELEMENTS && forall|i: int|
            0 <= i < items.len() ==> acceptable(#[trigger] items[i], levels - 1),
        ValueTree::Entries(entries) => entries.len() <= OTEL_LOG_MAX_MAP_ENTRIES && different_keys(
            entries,
        ) && forall|i: int|
            0 <= i < entries.len() ==> (#[trigger] entries[i]).0.len() > 0 && byte_len(entries[i].0)
                <= OTEL_LOG_MAX_STRING_LEN && acceptable(entries[i].1, levels - 1),
        ValueTree::Invalid => false,
        _ => true,
    }
}

/// A log value whose maps have different keys of which none is empty.
spec fn sound(item: Item) -> bool {
    item matches Item::Any(tree) && distinct_keys(tree) && keys_named(tree)
}

/// The children of a sound item are sound.
proof fn lemma_sound_child(item: Item, c: int)
    requires
        sound(item),
        0 <= c < item_children(item).len(),
    ensures
        sound(item_children(item)[c].1),
{
    match item {
        Item::Any(ValueTree::List(items)) => {
            assert(distinct_keys(items[c]) && keys_named(items[c]));
        },
        Item::Any(ValueTree::Entries(entries)) => {
            let j = lemma_sorted_member(entries, c);
            assert(distinct_keys(entries[j].1) && keys_named(entries[j].1));
        },
        _ => {},
    }
}

/// Every child that could be queued has a key within the limit and lies within the depth.
proof fn lemma_queued_child(item: Item, depth: nat, from: int, c: int)
    requires
        queue_fault(item, depth, from) is None,
        0 <= from <= c < item_children(item).len(),
    ensures
        text_fault(item_children(item)[c].0) is None,
        depth + 1 <= OTEL_LOG_MAX_VALUE_DEPTH,
    decreases c - from,
{
    if from < c {
        lemma_queued_child(item, depth, from + 1, c);
    }
}

/// An item is acceptable when it has no fault, its children are acceptable one level lower and
/// their keys keep the limit.
proof fn lemma_item_acceptable(item: Item, used: nat, levels: int)
    requires
        sound(item),
        item_fault(item, used) is None,
        levels >= 1,
        forall|c: int|
            0 <= c < item_children(item).len() ==> acceptable(
                item_tree((#[trigger] item_children(item)[c]).1),
                levels - 1,
            ) && text_fault(item_children(item)[c].0) is None,
    ensures
        acceptable(item_tree(item), levels),
{
    let kids = item_children(item);
    match item {
        Item::Any(ValueTree::List(items)) => {
            let shown = item_tree(item)->List_0;
            assert forall|c: int| 0 <= c < shown.len() implies acceptable(
                #[trigger] shown[c],
                levels - 1,
            ) by {
                assert(kids[c].1 == Item::Any(items[c]));
            }
        },
        Item::Any(ValueTree::Entries(entries)) => {
            let f = |tree: ValueTree| sorted_tree(tree);
            let sorted = sort_entries(entries);
            let shown = item_tree(item)->Entries_0;
            assert(map_entries(entries, f) =~= sorted_values(entries));
            lemma_sort_map(entries, f);
            sorting_orders_and_keeps_entries(entries);
            lemma_sorting_keeps_keys_different(entries);
            assert(shown == map_entries(sorted, f));
            assert forall|i: int, j: int| 0 <= i < j < shown.len() implies (#[trigger] shown[i]).0
                != (#[trigger] shown[j]).0 by {
                assert(sorted[i].0 != sorted[j].0);
            }
            assert forall|c: int| 0 <= c < shown.len() implies (#[trigger] shown[c]).0.len() > 0
                && byte_len(shown[c].0) <= OTEL_LOG_MAX_STRING_LEN && acceptable(
                shown[c].1,
                levels - 1,
            ) by {
                let j = lemma_sorted_member(entries, c);
                assert(entries[j].0.len() > 0);
                assert(kids[c] == (sorted[c].0, Item::Any(sorted[c].1)));
            }
        },
        _ => {},
    }
}

/// Everything in a queue that can be worked off is acceptable with the levels that are left to it.
proof fn lemma_queue_acceptable(queue: Seq<(Item, nat)>, used: nat)
    requires
        work_fault(queue, used) is None,
        forall|i: int|
            0 <= i < queue.len() ==> sound((#[trigger] queue[i]).0) && queue[i].1
                <= OTEL_LOG_MAX_VALUE_DEPTH,
    ensures
        forall|i: int|
            0 <= i < queue.len() ==> acceptable(
                item_tree((#[trigger] queue[i]).0),
                OTEL_LOG_MAX_VALUE_DEPTH - queue[i].1 + 1,
            ),
    decreases OTEL_LOG_MAX_VALUE_NODES - used, queue.len(),
{
    if queue.len() > 0 {
        let item = queue[0].0;
        let depth = queue[0].1;
        let kids = item_children(item);
        let rest = queue.drop_first() + queued(item, depth);
        let levels = OTEL_LOG_MAX_VALUE_DEPTH - depth + 1;
        assert(sound(item));
        lemma_children_fit(item, used);
        assert forall|i: int| 0 <= i < rest.len() implies sound((#[trigger] rest[i]).0)
            && rest[i].1 <= OTEL_LOG_MAX_VALUE_DEPTH by {
            if i < queue.len() - 1 {
                assert(rest[i] == queue[i + 1]);
            } else {
                let c = i - (queue.len() - 1);
                lemma_sound_child(item, c);
                lemma_queued_child(item, depth, 0, c);
            }
        }
        lemma_queue_acceptable(rest, used + kids.len());
        assert forall|c: int| 0 <= c < kids.len() implies acceptable(
            item_tree((#[trigger] kids[c]).1),
            levels - 1,
        ) && text_fault(kids[c].0) is None by {
            lemma_queued_child(item, depth, 0, c);
            assert(rest[queue.len() - 1 + c] == (kids[c].1, depth + 1));
        }
        lemma_item_acceptable(item, used, levels);
        assert forall|i: int| 0 <= i < queue.len() implies acceptable(
            item_tree((#[trigger] queue[i]).0),
            OTEL_LOG_MAX_VALUE_DEPTH - queue[i].1 + 1,
        ) by {
            if i > 0 {
                assert(rest[i - 1] == queue[i]);
            }
        }
    }
}

/// The bytes of a readable view are those of its text.
proof fn lemma_view_len(view: OtelStringView)
    requires
        view.text() is Ok,
    ensures
        view.bytes is Some,
        view.bytes->0@.len() == byte_len(view.text()->Ok_0),
{
    decode_utf8_encode_utf8(view.bytes->0@);
}

/// A value that denotes an acceptable tree has nothing wrong with its own fields, and a container
/// has no more children than it may.
proof fn lemma_value_fields(
    nodes: Seq<OtelLogValueNode>,
    value: OtelLogValue,
    floor: int,
    levels: int,
)
    requires
        acceptable(tree_of(nodes, value, floor), levels),
        value.reserved == 0,
    ensures
        scalar_fault(value) is None,
        value.is_container() ==> value.count() <= element_limit(value),
{
    if value.kind() == Some(OtelLogValueType::String) && value.value.string_value.text() is Ok {
        lemma_view_len(value.value.string_value);
    }
}

/// The children of a container that denotes an acceptable tree have nothing wrong with their keys.
proof fn lemma_value_keys(
    nodes: Seq<OtelLogValueNode>,
    value: OtelLogValue,
    floor: int,
    levels: int,
    from: int,
)
    requires
        acceptable(tree_of(nodes, value, floor), levels),
        value.is_container(),
        value.addresses(floor, nodes.len()),
        value.first() <= from,
        forall|c: int| #[trigger] value.claims(c) ==> fits_below(nodes[c], value),
    ensures
        children_fault(nodes, value, from) is None,
    decreases value.end() - from,
{
    if from < value.end() {
        lemma_value_keys(nodes, value, floor, levels, from + 1);
        assert(value.claims(from));
        if value.kind() == Some(OtelLogValueType::KvMap) {
            let entries = tree_of(nodes, value, floor)->Entries_0;
            assert(entries[from - value.first()].0 == key_text(nodes[from]));
            lemma_view_len(nodes[from].key);
            if repeats_key(nodes, value.first(), from) {
                let j = choose|j: int|
                    value.first() <= j < from && #[trigger] nodes[j].key.text()
                        == nodes[from].key.text();
                assert(entries[j - value.first()].0 == key_text(nodes[j]));
            }
        }
        assert(child_fault(nodes, value, from) is None);
    }
}

/// A value that denotes an acceptable tree nests no deeper than that.
proof fn lemma_value_levels(
    nodes: Seq<OtelLogValueNode>,
    value: OtelLogValue,
    floor: int,
    levels: int,
)
    requires
        -1 <= floor < nodes.len(),
        acceptable(tree_of(nodes, value, floor), levels),
    ensures
        value_depth(nodes, value, floor) <= levels,
    decreases nodes.len() - floor, 0nat,
{
    if value.is_container() && value.count() > 0 && value.addresses(floor, nodes.len()) {
        let tree = tree_of(nodes, value, floor);
        assert forall|m: int| value.first() <= m < value.end() implies acceptable(
            tree_of(nodes, (#[trigger] nodes[m]).value, m),
            levels - 1,
        ) by {
            let c = m - value.first();
            if value.kind() == Some(OtelLogValueType::Array) {
                assert(tree->List_0[c] == tree_of(nodes, nodes[m].value, m));
            } else {
                assert(tree->Entries_0[c].1 == tree_of(nodes, nodes[m].value, m));
            }
        }
        lemma_deepest_levels(nodes, value.first(), value.end(), levels - 1);
    }
}

proof fn lemma_deepest_levels(nodes: Seq<OtelLogValueNode>, a: int, b: int, levels: int)
    requires
        0 <= a,
        b <= nodes.len(),
        levels >= 0,
        forall|m: int|
            a <= m < b ==> acceptable(tree_of(nodes, (#[trigger] nodes[m]).value, m), levels),
    ensures
        deepest(nodes, a, b) <= levels,
    decreases nodes.len() - a, 1nat,
{
    if a < b && a < nodes.len() {
        assert(acceptable(tree_of(nodes, nodes[a].value, a), levels));
        lemma_value_levels(nodes, nodes[a].value, a, levels);
        lemma_deepest_levels(nodes, a + 1, b, levels);
    }
}

/// The roots of a flattened owner: the body where there is one, then the attribute values.
pub open spec fn flat_roots<'a>(flat: Flattened<'a>, has_body: bool) -> Seq<OtelLogValue<'a>> {
    Seq::new(
        root_count(has_body, flat.attributes@.len() as int) as nat,
        |k: int| flat.visit_order(has_body)[k],
    )
}

/// Every value of an exported pool denotes an acceptable tree where the roots do.
proof fn lemma_visited_acceptable(
    flat: Flattened,
    body: Option<ValueTree>,
    keys: Seq<Seq<char>>,
    items: Seq<Item>,
    k: int,
) -> (levels: int)
    requires
        flattens(flat, body, keys, items),
        body matches Some(tree) ==> acceptable(
            sorted_tree(tree),
            OTEL_LOG_MAX_VALUE_DEPTH as int,
        ),
        forall|i: int|
            0 <= i < items.len() ==> acceptable(
                item_tree(#[trigger] items[i]),
                OTEL_LOG_MAX_VALUE_DEPTH as int,
            ),
        0 <= k < flat.visit_order(body is Some).len(),
    ensures
        acceptable(
            tree_of(
                flat.nodes@,
                flat.visit_order(body is Some)[k],
                held_at(flat, body is Some, k),
            ),
            levels,
        ),
        k < root_count(body is Some, flat.attributes@.len() as int) ==> levels
            == OTEL_LOG_MAX_VALUE_DEPTH,
    decreases k,
{
    let has_body = body is Some;
    let order = flat.visit_order(has_body);
    let roots = root_count(has_body, flat.attributes@.len() as int);
    if k < roots {
        if has_body && k == 0 {
            assert(order[k] == flat.body);
        } else {
            let i = k - root_count(has_body, 0);
            assert(i < flat.attributes.len());
            assert(order[k] == flat.attributes@[i].value);
            assert(acceptable(item_tree(items[i]), OTEL_LOG_MAX_VALUE_DEPTH as int));
        }
        OTEL_LOG_MAX_VALUE_DEPTH as int
    } else {
        let m = k - roots;
        exported_pool_is_a_forest(flat, body, keys, items);
        assert(claimed_once(order, m));
        let p = choose|p: int| sole_claim(order, p, m);
        let parent = order[p];
        assert(parent.addresses(held_at(flat, has_body, p), flat.nodes@.len()));
        assert(m < flat.nodes.len());
        assert(order[k] == flat.nodes@[m].value);
        let levels = lemma_visited_acceptable(flat, body, keys, items, p);
        let tree = tree_of(flat.nodes@, parent, held_at(flat, has_body, p));
        let c = m - parent.first();
        if parent.kind() == Some(OtelLogValueType::Array) {
            assert(acceptable(tree->List_0[c], levels - 1));
        } else {
            assert(acceptable(tree->Entries_0[c].1, levels - 1));
        }
        levels - 1
    }
}

/// Where the `j`-th value that validation visits stands in the order of the flattening.
spec fn place(flat: Flattened, has_body: bool, j: int) -> int {
    if j < flat.nodes@.len() {
        root_count(has_body, flat.attributes@.len() as int) + j
    } else {
        j - flat.nodes@.len()
    }
}

proof fn lemma_place(flat: Flattened, has_body: bool, j: int)
    requires
        0 <= j < flat.nodes@.len() + flat_roots(flat, has_body).len(),
    ensures
        0 <= place(flat, has_body, j) < flat.visit_order(has_body).len(),
        visited(flat.nodes@, flat_roots(flat, has_body), j) == flat.visit_order(has_body)[place(
            flat,
            has_body,
            j,
        )],
        held_at(flat, has_body, place(flat, has_body, j)) == (if j < flat.nodes@.len() {
            j
        } else {
            -1
        }),
{
    let order = flat.visit_order(has_body);
    if j < flat.nodes@.len() {
        assert(j < flat.nodes.len());
        assert(order[place(flat, has_body, j)] == flat.nodes@[j].value);
    }
}

/// Validation finds nothing wrong with a value of an exported pool whose roots are acceptable.
proof fn lemma_step_accepted(
    flat: Flattened,
    body: Option<ValueTree>,
    keys: Seq<Seq<char>>,
    items: Seq<Item>,
    j: int,
)
    requires
        flattens(flat, body, keys, items),
        body matches Some(tree) ==> acceptable(
            sorted_tree(tree),
            OTEL_LOG_MAX_VALUE_DEPTH as int,
        ),
        forall|i: int|
            0 <= i < items.len() ==> acceptable(
                item_tree(#[trigger] items[i]),
                OTEL_LOG_MAX_VALUE_DEPTH as int,
            ),
        0 <= j < flat.nodes@.len() + flat_roots(flat, body is Some).len(),
    ensures
        step_fault(flat.nodes@, flat_roots(flat, body is Some), j) is None,
{
    let has_body = body is Some;
    let nodes = flat.nodes@;
    let roots = flat_roots(flat, has_body);
    let order = flat.visit_order(has_body);
    let k = place(flat, has_body, j);
    lemma_place(flat, has_body, j);
    let value = order[k];
    let floor = held_at(flat, has_body, k);
    let levels = lemma_visited_acceptable(flat, body, keys, items, k);
    lemma_value_fields(nodes, value, floor, levels);
    if value.is_container() {
        exported_pool_is_a_forest(flat, body, keys, items);
        assert(value.addresses(floor, nodes.len()));
        assert forall|c: int| #[trigger] value.claims(c) implies fits_below(nodes[c], value) by {
            assert(order[k].claims(c));
        }
        lemma_value_keys(nodes, value, floor, levels, value.first());
        let taken = taken_after(nodes, roots, j);
        assert forall|i: int| value.first() <= i < value.end() implies !#[trigger] taken[i] by {
            lemma_taken(nodes, roots, j, i);
            if taken[i] {
                let other = choose|other: int|
                    0 <= other < j && (#[trigger] visited(nodes, roots, other)).claims(i);
                lemma_place(flat, has_body, other);
                assert(claimed_once(order, i));
                assert(order[k].claims(i));
                assert(order[place(flat, has_body, other)].claims(i));
            }
        }
        assert(claim_fault(
            value,
            if j < nodes.len() {
                Some(j)
            } else {
                None
            },
            taken,
        ) is None);
    }
}

proof fn lemma_no_step_fault(nodes: Seq<OtelLogValueNode>, roots: Seq<OtelLogValue>, k: int)
    requires
        0 <= k,
        forall|j: int|
            0 <= j < nodes.len() + roots.len() ==> #[trigger] step_fault(nodes, roots, j) is None,
    ensures
        first_step_fault(nodes, roots, k) is None,
    decreases nodes.len() + roots.len() - k,
{
    if k < nodes.len() + roots.len() {
        lemma_no_step_fault(nodes, roots, k + 1);
    }
}

proof fn lemma_none_free(taken: Seq<bool>, from: int)
    requires
        0 <= from,
        forall|i: int| 0 <= i < taken.len() ==> #[trigger] taken[i],
    ensures
        first_free(taken, from) is None,
    decreases taken.len() - from,
{
    if from < taken.len() {
        lemma_none_free(taken, from + 1);
    }
}

/// An exported pool whose roots are acceptable is accepted.
proof fn lemma_pool_accepted(
    flat: Flattened,
    body: Option<ValueTree>,
    keys: Seq<Seq<char>>,
    items: Seq<Item>,
)
    requires
        flattens(flat, body, keys, items),
        body matches Some(tree) ==> acceptable(
            sorted_tree(tree),
            OTEL_LOG_MAX_VALUE_DEPTH as int,
        ),
        forall|i: int|
            0 <= i < items.len() ==> acceptable(
                item_tree(#[trigger] items[i]),
                OTEL_LOG_MAX_VALUE_DEPTH as int,
            ),
    ensures
        pool_fault(flat.nodes@, flat_roots(flat, body is Some)) is None,
{
    let has_body = body is Some;
    let nodes = flat.nodes@;
    let roots = flat_roots(flat, has_body);
    let order = flat.visit_order(has_body);
    let total = (nodes.len() + roots.len()) as int;
    let taken = taken_after(nodes, roots, total);
    assert forall|j: int| 0 <= j < total implies #[trigger] step_fault(nodes, roots, j) is None by {
        lemma_step_accepted(flat, body, keys, items, j);
    }
    lemma_no_step_fault(nodes, roots, 0);
    exported_pool_is_a_forest(flat, body, keys, items);
    assert forall|i: int| 0 <= i < taken.len() implies #[trigger] taken[i] by {
        assert(claimed_once(order, i));
        let k = choose|k: int| sole_claim(order, k, i);
        let j = if k < roots.len() {
            nodes.len() + k
        } else {
            k - roots.len()
        };
        lemma_place(flat, has_body, j);
        assert(visited(nodes, roots, j).claims(i));
        lemma_taken(nodes, roots, total, i);
    }
    lemma_none_free(taken, 0);
    assert forall|r: int| 0 <= r < roots.len() implies value_depth(nodes, #[trigger] roots[r], -1)
        <= OTEL_LOG_MAX_VALUE_DEPTH by {
        let levels = lemma_visited_acceptable(flat, body, keys, items, r);
        if nodes.len() > 0 {
            lemma_value_levels(nodes, roots[r], -1, levels);
        }
    }
}

/// In an accepted pool no map has an empty key.
proof fn lemma_accepted_named(
    nodes: Seq<OtelLogValueNode>,
    roots: Seq<OtelLogValue>,
    k: int,
    floor: int,
)
    requires
        pool_fault(nodes, roots) is None,
        0 <= k < nodes.len() + roots.len(),
        floor == (if k < nodes.len() {
            k
        } else {
            -1
        }),
    ensures
        keys_named(tree_of(nodes, visited(nodes, roots, k), floor)),
    decreases nodes.len() - floor,
{
    let value = visited(nodes, roots, k);
    let tree = tree_of(nodes, value, floor);
    if value.is_container() {
        lemma_forward(nodes, roots, k);
        assert forall|c: int| value.claims(c) implies keys_named(
            tree_of(nodes, (#[trigger] nodes[c]).value, c),
        ) && (value.kind() == Some(OtelLogValueType::KvMap) ==> key_text(nodes[c]).len() > 0) by {
            accepted_children_have_fitting_keys(nodes, roots, k, c, c);
            lemma_accepted_named(nodes, roots, c, c);
        }
        if value.kind() == Some(OtelLogValueType::Array) {
            let shown = tree->List_0;
            assert forall|i: int| 0 <= i < shown.len() implies keys_named(#[trigger] shown[i]) by {
                assert(value.claims(value.first() + i));
                assert(shown[i] == tree_of(
                    nodes,
                    nodes[value.first() + i].value,
                    value.first() + i,
                ));
            }
        } else {
            let shown = tree->Entries_0;
            assert forall|i: int| 0 <= i < shown.len() implies (#[trigger] shown[i]).0.len() > 0
                && keys_named(shown[i].1) by {
                assert(value.claims(value.first() + i));
                assert(shown[i].1 == tree_of(
                    nodes,
                    nodes[value.first() + i].value,
                    value.first() + i,
                ));
            }
        }
    }
}

/// Sorting hides no empty key.
proof fn lemma_named_before_sorting(tree: ValueTree)
    requires
        keys_named(sorted_tree(tree)),
    ensures
        keys_named(tree),
    decreases tree,
{
    broadcast use vstd::seq_lib::group_to_multiset_ensures;

    match tree {
        ValueTree::List(items) => {
            let sorted = sorted_tree(tree)->List_0;
            assert forall|i: int| 0 <= i < items.len() implies keys_named(#[trigger] items[i]) by {
                assert(keys_named(sorted[i]));
                lemma_named_before_sorting(items[i]);
            }
        },
        ValueTree::Entries(entries) => {
            let values = sorted_values(entries);
            let sorted = sorted_tree(tree)->Entries_0;
            assert(sorted == sort_entries(values));
            sorting_orders_and_keeps_entries(values);
            assert forall|i: int| 0 <= i < entries.len() implies (#[trigger] entries[i]).0.len() > 0
                && keys_named(entries[i].1) by {
                assert(values.contains(values[i]));
                assert(values.to_multiset().count(values[i]) > 0);
                assert(sorted.contains(values[i]));
                let j = choose|j: int| 0 <= j < sorted.len() && sorted[j] == values[i];
                assert(sorted[j].0.len() > 0 && keys_named(sorted[j].1));
                lemma_named_before_sorting(entries[i].1);
            }
        },
        _ => {},
    }
}

/// No map of an owner has an empty key.
pub open spec fn owner_named(body: Option<ValueTree>, items: Seq<Item>) -> bool {
    &&& body matches Some(tree) ==> keys_named(tree)
    &&& forall|i: int| 0 <= i < items.len() ==> keys_named((#[trigger] items[i])->Any_0)
}

/// The input path takes an exported pool exactly when no map key is empty: where the body and the
/// attributes are log values whose maps have different keys and could be exported, validation
/// finds no fault in the pool if and only if no map, at any level, has an empty key.
pub proof fn exported_pool_is_accepted(
    flat: Flattened,
    body: Option<ValueTree>,
    keys: Seq<Seq<char>>,
    items: Seq<Item>,
)
    requires
        flattens(flat, body, keys, items),
        owner_fault(body, keys, items) is None,
        body matches Some(tree) ==> distinct_keys(tree),
        forall|i: int|
            0 <= i < items.len() ==> (#[trigger] items[i] matches Item::Any(tree) && distinct_keys(
                tree,
            )),
    ensures
        pool_fault(flat.nodes@, flat_roots(flat, body is Some)) is None <==> owner_named(
            body,
            items,
        ),
{
    let has_body = body is Some;
    let nodes = flat.nodes@;
    let roots = flat_roots(flat, has_body);
    let order = flat.visit_order(has_body);
    let extra = root_count(has_body, 0);
    if owner_named(body, items) {
        let queue = initial_queue(body, items);
        assert forall|i: int| 0 <= i < queue.len() implies sound((#[trigger] queue[i]).0)
            && queue[i].1 == 1 by {
            if i >= extra {
                assert(queue[i] == (items[i - extra], 1nat));
                assert(items[i - extra] is Any);
            }
        }
        lemma_queue_acceptable(queue, 0);
        if let Some(tree) = body {
            assert(queue[0] == (Item::Any(tree), 1nat));
        }
        assert forall|i: int| 0 <= i < items.len() implies acceptable(
            item_tree(#[trigger] items[i]),
            OTEL_LOG_MAX_VALUE_DEPTH as int,
        ) by {
            assert(queue[extra + i] == (items[i], 1nat));
        }
        lemma_pool_accepted(flat, body, keys, items);
    }
    if pool_fault(nodes, roots) is None {
        if let Some(tree) = body {
            assert(order[0] == flat.body);
            assert(visited(nodes, roots, nodes.len() as int) == flat.body);
            lemma_accepted_named(nodes, roots, nodes.len() as int, -1);
            lemma_named_before_sorting(tree);
        }
        assert forall|i: int| 0 <= i < items.len() implies keys_named(
            (#[trigger] items[i])->Any_0,
        ) by {
            let k = extra + i;
            assert(i < flat.attributes.len());
            assert(order[k] == flat.attributes@[i].value);
            assert(visited(nodes, roots, nodes.len() + k) == flat.attributes@[i].value);
            lemma_accepted_named(nodes, roots, nodes.len() + k, -1);
            lemma_named_before_sorting(items[i]->Any_0);
        }
    }
}

/// What is left of an accepted pool with one root, when its nodes were converted, is enough to
/// convert the root.
proof fn lemma_root_converts(nodes: Seq<OtelLogValueNode>, root: OtelLogValue, present: Seq<bool>)
    requires
        pool_fault(nodes, seq![root]) is None,
        roots_left(nodes, present),
    ensures
        conversion_stop(nodes, root, present) is None,
{
    let roots = seq![root];
    let at = nodes.len() as int;
    assert(visited(nodes, roots, at) == root);
    lemma_accepted(nodes, roots, at);
    lemma_forward(nodes, roots, at);
    if root.is_container() {
        assert forall|c: int| root.claims(c) implies #[trigger] present[c] by {
            if claimed_within(nodes, 0, c) {
                let m = choose|m: int| 0 <= m < nodes.len() && (#[trigger] nodes[m]).value.claims(c);
                assert(visited(nodes, roots, m) == nodes[m].value);
                lemma_single_claim(nodes, roots, m, at, c);
            }
        }
        lemma_no_stop(nodes, root, present, root.first());
    }
}

/// A value that was flattened for export comes back: the tree that its pool denotes is the tree of
/// the value with its maps in ascending key order, and the input path takes the pool exactly when
/// no map of the value has an empty key. Then nothing but the allocator can stop the conversion of
/// the value, once the nodes of the pool were converted.
pub proof fn exported_value_comes_back(flat: Flattened, tree: ValueTree)
    requires
        flattens(flat, Some(tree), Seq::empty(), Seq::empty()),
        owner_fault(Some(tree), Seq::empty(), Seq::empty()) is None,
        distinct_keys(tree),
    ensures
        same_but_for_order(tree_of(flat.nodes@, flat.body, -1), tree),
        pool_fault(flat.nodes@, seq![flat.body]) is None <==> keys_named(tree),
        keys_named(tree) ==> forall|present: Seq<bool>| #[trigger]
            roots_left(flat.nodes@, present) ==> conversion_stop(flat.nodes@, flat.body, present) is None,
{
    lemma_sorted_again(tree);
    exported_pool_is_accepted(flat, Some(tree), Seq::empty(), Seq::empty());
    assert(flat.visit_order(true)[0] == flat.body);
    assert(flat_roots(flat, true) =~= seq![flat.body]);
    if keys_named(tree) {
        assert forall|present: Seq<bool>| #[trigger] roots_left(
            flat.nodes@,
            present,
        ) implies conversion_stop(flat.nodes@, flat.body, present) is None by {
            lemma_root_converts(flat.nodes@, flat.body, present);
        }
    }
}

/// A record that was exported is taken again: validation finds no fault in the pool of a record
/// made of the body, the attributes and the nodes of an exported view if and only if no map of the
/// exported record has an empty key.
pub proof fn exported_record_is_taken_again(
    exported: ExportedRecord,
    output: OtelLogExportRecordView,
    again: OtelLogRecordView,
)
    requires
        export_record_fault(exported) is None,
        presents_record(output, exported),
        body_tree(exported.body) matches Some(tree) ==> distinct_keys(tree),
        forall|i: int|
            0 <= i < exported.attributes@.len() ==> distinct_keys(
                (#[trigger] exported.attributes@[i]).1.tree(),
            ),
        again.body == output.body,
        again.attributes.items() == output.attributes@,
        again.value_nodes.items() == output.value_nodes@,
    ensures
        pool_fault(again.value_nodes.items(), again.roots()) is None <==> owner_named(
            body_tree(exported.body),
            any_items(exported.attributes@),
        ),
{
    let flat = Flattened {
        body: output.body,
        attributes: output.attributes,
        nodes: output.value_nodes,
    };
    let body = body_tree(exported.body);
    let keys = owned_keys(exported.attributes@);
    let items = any_items(exported.attributes@);
    let roots = flat_roots(flat, body is Some);
    assert forall|i: int| 0 <= i < items.len() implies (#[trigger] items[i] matches Item::Any(tree)
        && distinct_keys(tree)) by {
        assert(items[i] == Item::Any(exported.attributes@[i].1.tree()));
    }
    exported_pool_is_accepted(flat, body, keys, items);
    if let Some(tree) = body {
        let queue = initial_queue(body, items);
        assert(queue[0] == (Item::Any(tree), 1nat));
        assert(work_fault(queue, 0) is None);
    }
    assert(again.body_present() == body is Some);
    assert forall|k: int| 0 <= k < roots.len() implies roots[k] == again.roots()[k] by {
        let extra = root_count(body is Some, 0);
        if k >= extra {
            assert(k - extra < flat.attributes.len());
        }
    }
    assert(roots =~= again.roots());
}

} // verus!
