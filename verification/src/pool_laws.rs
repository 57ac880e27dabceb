//! Which log records are taken: exactly those that are in order, as far as memory allows. A pool is
//! in order when it is a forest of values within the limits, whatever order it is checked in.

use vstd::prelude::*;

use crate::log_convert::{lemma_accepted, lemma_single_claim, lemma_taken, ConvertFault};
use crate::log_emit::{
    attributes_fault, emit_record, LogRecord, OtelLogRecordView, RecordFault,
    RepresentableTimes,
};
use crate::log_laws::{accepted_pool_is_a_forest, claimed_once, pool_values, sole_claim};
use crate::log_validate::{
    child_fault, children_fault, claim_fault, deepest, first_free, first_step_fault, pool_fault,
    repeats_key, step_fault, taken_after, value_depth, visited, PoolFault,
};
use crate::log_value::{OtelLogValue, OtelLogValueNode};
use crate::record_laws::{
    bare_order, key_in_order, lemma_bare_order, lemma_key_in_order,
};

verus! {

/// Node `i` is a child of the value: it is an array or a map, and `i` lies in its range.
pub open spec fn parents(value: OtelLogValue, i: int) -> bool {
    &&& value.value_type == 6 || value.value_type == 7
    &&& value.value.children.first <= i < value.value.children.first + value.value.children.count
}

/// The value itself is in order: nothing reserved is used, the tag is one of the seven kinds, a text
/// or bytes can be read and have at most a mebibyte, and a container has at most 1024 children, all
/// in the pool and beyond `floor`.
pub open spec fn value_in_order(
    nodes: Seq<OtelLogValueNode>,
    value: OtelLogValue,
    floor: int,
) -> bool {
    &&& value.reserved == 0
    &&& 1 <= value.value_type && value.value_type <= 7
    &&& value.value_type == 1 ==> value.value.string_value.text() is Ok && (
    value.value.string_value.bytes matches Some(bytes) ==> bytes@.len() <= 1_048_576)
    &&& value.value_type == 5 ==> (value.value.bytes_value.bytes matches Some(bytes) && bytes@.len()
        <= 1_048_576)
    &&& value.value_type >= 6 ==> value.value.children.count <= 1024
    &&& value.value_type >= 6 && value.value.children.count > 0 ==> floor
        < value.value.children.first && value.value.children.first + value.value.children.count
        <= nodes.len()
    &&& forall|c: int| #[trigger] parents(value, c) ==> child_in_order(nodes, value, c)
}

/// The key of child `c` is in order: it can be read; below an array it is empty, and below a map it
/// is not, has at most a mebibyte and is the key of no other child.
pub open spec fn child_in_order(
    nodes: Seq<OtelLogValueNode>,
    value: OtelLogValue,
    c: int,
) -> bool {
    &&& nodes[c].key.text() is Ok
    &&& value.value_type == 6 ==> nodes[c].key.text()->Ok_0.len() == 0
    &&& value.value_type == 7 ==> nodes[c].key.text()->Ok_0.len() > 0 && (
    nodes[c].key.bytes matches Some(bytes) ==> bytes@.len() <= 1_048_576) && forall|b: int|
        b != c && #[trigger] parents(value, b) ==> nodes[b].key.text() != nodes[c].key.text()
}

/// The value nests at most so many levels; a value without children has one.
pub open spec fn nests_within(
    nodes: Seq<OtelLogValueNode>,
    value: OtelLogValue,
    levels: nat,
) -> bool
    decreases levels,
{
    levels >= 1 && forall|c: int| #[trigger]
        parents(value, c) ==> nests_within(nodes, nodes[c].value, (levels - 1) as nat)
}

/// The `k`-th value: the pool in order, then the roots.
pub open spec fn nth_value<'a>(
    nodes: Seq<OtelLogValueNode<'a>>,
    roots: Seq<OtelLogValue<'a>>,
    k: int,
) -> OtelLogValue<'a> {
    if k < nodes.len() {
        nodes[k].value
    } else {
        roots[k - nodes.len()]
    }
}

/// A pool with its roots is in order: every value is, children lie beyond the node that holds them,
/// every node is the child of exactly one value, and no root nests more than 32 levels.
pub open spec fn pool_in_order(nodes: Seq<OtelLogValueNode>, roots: Seq<OtelLogValue>) -> bool {
    &&& forall|k: int| 0 <= k < nodes.len() ==> value_in_order(nodes, (#[trigger] nodes[k]).value, k)
    &&& forall|r: int| 0 <= r < roots.len() ==> value_in_order(nodes, #[trigger] roots[r], -1)
    &&& forall|i: int| 0 <= i < nodes.len() ==> #[trigger] has_a_parent(nodes, roots, i)
    &&& forall|i: int, j: int, k: int|
        0 <= j < nodes.len() + roots.len() && 0 <= k < nodes.len() + roots.len() && #[trigger]
            parents(nth_value(nodes, roots, j), i) && #[trigger] parents(
            nth_value(nodes, roots, k),
            i,
        ) ==> j == k
    &&& forall|r: int| 0 <= r < roots.len() ==> nests_within(nodes, #[trigger] roots[r], 32)
}

/// Some value has node `i` as a child.
pub open spec fn has_a_parent(
    nodes: Seq<OtelLogValueNode>,
    roots: Seq<OtelLogValue>,
    i: int,
) -> bool {
    exists|k: int|
        0 <= k < nodes.len() + roots.len() && #[trigger] parents(nth_value(nodes, roots, k), i)
}

proof fn lemma_parents(value: OtelLogValue, i: int)
    ensures
        parents(value, i) == value.claims(i),
{
}

proof fn lemma_no_child_fault(nodes: Seq<OtelLogValueNode>, value: OtelLogValue, from: int, c: int)
    requires
        from <= c < value.end(),
        children_fault(nodes, value, from) is None,
    ensures
        child_fault(nodes, value, c) is None,
    decreases c - from,
{
    if from < c {
        lemma_no_child_fault(nodes, value, from + 1, c);
    }
}

/// An accepted value is in order.
proof fn lemma_value_in_order(nodes: Seq<OtelLogValueNode>, roots: Seq<OtelLogValue>, k: int)
    requires
        pool_fault(nodes, roots) is None,
        0 <= k < nodes.len() + roots.len(),
    ensures
        value_in_order(
            nodes,
            visited(nodes, roots, k),
            if k < nodes.len() {
                k
            } else {
                -1
            },
        ),
{
    let value = visited(nodes, roots, k);
    lemma_accepted(nodes, roots, k);
    assert forall|c: int| #[trigger] parents(value, c) implies child_in_order(nodes, value, c) by {
        lemma_parents(value, c);
        lemma_no_child_fault(nodes, value, value.first(), c);
        if value.value_type == 7 {
            assert forall|b: int| b != c && #[trigger] parents(value, b) implies nodes[b].key.text()
                != nodes[c].key.text() by {
                lemma_parents(value, b);
                lemma_no_child_fault(nodes, value, value.first(), b);
                if nodes[b].key.text() == nodes[c].key.text() {
                    if b < c {
                        assert(repeats_key(nodes, value.first(), c));
                    } else {
                        assert(nodes[c].key.text() == nodes[b].key.text());
                        assert(repeats_key(nodes, value.first(), b));
                    }
                }
            }
        }
    }
}

proof fn lemma_no_children_fault(nodes: Seq<OtelLogValueNode>, value: OtelLogValue, from: int)
    requires
        value.is_container(),
        value.first() <= from,
        forall|c: int| #[trigger] parents(value, c) ==> child_in_order(nodes, value, c),
    ensures
        children_fault(nodes, value, from) is None,
    decreases value.end() - from,
{
    if from < value.end() {
        assert(parents(value, from));
        if repeats_key(nodes, value.first(), from) {
            let j = choose|j: int|
                value.first() <= j < from && #[trigger] nodes[j].key.text()
                    == nodes[from].key.text();
            assert(parents(value, j));
        }
        assert(child_fault(nodes, value, from) is None);
        lemma_no_children_fault(nodes, value, from + 1);
    }
}

/// A value of a pool that is in order has no fault at its turn.
proof fn lemma_no_step_fault(nodes: Seq<OtelLogValueNode>, roots: Seq<OtelLogValue>, k: int)
    requires
        pool_in_order(nodes, roots),
        nodes.len() <= usize::MAX,
        0 <= k < nodes.len() + roots.len(),
    ensures
        step_fault(nodes, roots, k) is None,
{
    let value = visited(nodes, roots, k);
    let taken = taken_after(nodes, roots, k);
    if k < nodes.len() {
        assert(value_in_order(nodes, nodes[k].value, k));
    } else {
        assert(value_in_order(nodes, roots[k - nodes.len()], -1));
    }
    if value.is_container() {
        assert(taken.len() == nodes.len());
        assert forall|i: int| value.first() <= i < value.end() implies !#[trigger] taken[i] by {
            assert(parents(nth_value(nodes, roots, k), i));
            if value.count() > 0 {
                lemma_taken(nodes, roots, k, i);
            }
            if taken[i] {
                let other = choose|other: int|
                    0 <= other < k && (#[trigger] visited(nodes, roots, other)).claims(i);
                assert(parents(nth_value(nodes, roots, other), i));
            }
        }
        assert(claim_fault(
            value,
            if k < nodes.len() {
                Some(k)
            } else {
                None
            },
            taken,
        ) is None);
        lemma_no_children_fault(nodes, value, value.first());
    }
}

proof fn lemma_no_first_fault(nodes: Seq<OtelLogValueNode>, roots: Seq<OtelLogValue>, k: int)
    requires
        pool_in_order(nodes, roots),
        nodes.len() <= usize::MAX,
        0 <= k <= nodes.len() + roots.len(),
    ensures
        first_step_fault(nodes, roots, k) is None,
    decreases nodes.len() + roots.len() - k,
{
    if k < nodes.len() + roots.len() {
        lemma_no_step_fault(nodes, roots, k);
        lemma_no_first_fault(nodes, roots, k + 1);
    }
}

proof fn lemma_none_free(taken: Seq<bool>, from: int)
    requires
        0 <= from <= taken.len(),
        forall|i: int| 0 <= i < taken.len() ==> #[trigger] taken[i],
    ensures
        first_free(taken, from) is None,
    decreases taken.len() - from,
{
    if from < taken.len() {
        assert(taken[from]);
        lemma_none_free(taken, from + 1);
    }
}

/// Heights and levels: a value held at `floor` is at most so high exactly when it nests within so
/// many levels.
proof fn lemma_levels(
    nodes: Seq<OtelLogValueNode>,
    value: OtelLogValue,
    floor: int,
    levels: nat,
)
    requires
        forall|k: int| 0 <= k < nodes.len() ==> value_in_order(nodes, (#[trigger] nodes[k]).value, k),
        value_in_order(nodes, value, floor),
        floor >= -1,
    ensures
        value_depth(nodes, value, floor) <= levels <==> nests_within(nodes, value, levels),
    decreases levels,
{
    if levels >= 1 {
        let a = value.first();
        let b = value.end();
        if value.is_container() && value.count() > 0 {
            assert(value.addresses(floor, nodes.len()));
            lemma_deepest(nodes, a, b, (levels - 1) as nat);
            assert forall|c: int| a <= c < b implies (value_depth(nodes, (#[trigger] nodes[c]).value, c)
                <= levels - 1 <==> nests_within(nodes, nodes[c].value, (levels - 1) as nat)) by {
                assert(parents(value, c));
                lemma_levels(nodes, nodes[c].value, c, (levels - 1) as nat);
            }
            if nests_within(nodes, value, levels) {
                assert forall|c: int| a <= c < b implies value_depth(
                    nodes,
                    (#[trigger] nodes[c]).value,
                    c,
                ) <= levels - 1 by {
                    assert(parents(value, c));
                }
            }
            if value_depth(nodes, value, floor) <= levels {
                assert forall|c: int| #[trigger] parents(value, c) implies nests_within(
                    nodes,
                    nodes[c].value,
                    (levels - 1) as nat,
                ) by {
                    assert(value_depth(nodes, nodes[c].value, c) <= levels - 1);
                }
            }
        } else {
            assert forall|c: int| #[trigger] parents(value, c) implies false by {
                lemma_parents(value, c);
            }
        }
    }
}

proof fn lemma_deepest(nodes: Seq<OtelLogValueNode>, a: int, b: int, levels: nat)
    requires
        0 <= a <= b <= nodes.len(),
    ensures
        deepest(nodes, a, b) <= levels <==> forall|c: int|
            a <= c < b ==> value_depth(nodes, (#[trigger] nodes[c]).value, c) <= levels,
    decreases b - a,
{
    if a < b {
        lemma_deepest(nodes, a + 1, b, levels);
        let here = value_depth(nodes, nodes[a].value, a);
        if forall|c: int| a <= c < b ==> value_depth(nodes, (#[trigger] nodes[c]).value, c)
            <= levels {
            assert(here <= levels);
        }
    }
}

/// A pool is accepted exactly when it is in order, whatever the first fault would be.
pub proof fn pools_in_order_are_accepted(nodes: Seq<OtelLogValueNode>, roots: Seq<OtelLogValue>)
    requires
        nodes.len() <= usize::MAX,
    ensures
        pool_fault(nodes, roots) is None <==> pool_in_order(nodes, roots),
{
    let total = (nodes.len() + roots.len()) as int;
    let values = pool_values(nodes, roots);
    let taken = taken_after(nodes, roots, total);
    if pool_fault(nodes, roots) is None {
        accepted_pool_is_a_forest(nodes, roots);
        assert forall|k: int| 0 <= k < nodes.len() implies value_in_order(
            nodes,
            (#[trigger] nodes[k]).value,
            k,
        ) by {
            lemma_value_in_order(nodes, roots, k);
        }
        assert forall|r: int| 0 <= r < roots.len() implies value_in_order(
            nodes,
            #[trigger] roots[r],
            -1,
        ) by {
            lemma_value_in_order(nodes, roots, nodes.len() + r);
        }
        assert forall|i: int| 0 <= i < nodes.len() implies #[trigger] has_a_parent(
            nodes,
            roots,
            i,
        ) by {
            assert(claimed_once(values, i));
            let k = choose|k: int| #[trigger] sole_claim(values, k, i);
            assert(parents(nth_value(nodes, roots, k), i));
        }
        assert forall|i: int, j: int, k: int|
            0 <= j < total && 0 <= k < total && #[trigger] parents(nth_value(nodes, roots, j), i)
                && #[trigger] parents(nth_value(nodes, roots, k), i) implies j == k by {
            assert(visited(nodes, roots, j).claims(i));
            assert(visited(nodes, roots, k).claims(i));
            lemma_single_claim(nodes, roots, j, k, i);
        }
        assert forall|r: int| 0 <= r < roots.len() implies nests_within(
            nodes,
            #[trigger] roots[r],
            32,
        ) by {
            lemma_levels(nodes, roots[r], -1, 32);
        }
    }
    if pool_in_order(nodes, roots) {
        lemma_no_first_fault(nodes, roots, 0);
        assert forall|i: int| 0 <= i < taken.len() implies #[trigger] taken[i] by {
            assert(has_a_parent(nodes, roots, i));
            let k = choose|k: int|
                0 <= k < nodes.len() + roots.len() && #[trigger] parents(
                    nth_value(nodes, roots, k),
                    i,
                );
            assert(visited(nodes, roots, k).claims(i));
            lemma_taken(nodes, roots, total, i);
        }
        lemma_none_free(taken, 0);
        assert forall|r: int| 0 <= r < roots.len() implies value_depth(
            nodes,
            #[trigger] roots[r],
            -1,
        ) <= 32 by {
            assert(nests_within(nodes, roots[r], 32));
            lemma_levels(nodes, roots[r], -1, 32);
        }
    }
}

/// The roots of a record: its body where its tag is not zero, and the values of its attributes.
pub open spec fn root_values<'a>(view: OtelLogRecordView<'a>) -> Seq<OtelLogValue<'a>> {
    let attributes = view.attributes.items();
    let values = Seq::new(attributes.len(), |i: int| attributes[i].value);
    if view.body.value_type == 0 {
        values
    } else {
        seq![view.body] + values
    }
}

/// The record is in order: its fixed part, its keys, its values and what its header promises.
pub open spec fn record_in_order(view: OtelLogRecordView, times: RepresentableTimes) -> bool {
    &&& bare_order(view, times)
    &&& forall|i: int|
        0 <= i < view.attributes.items().len() ==> key_in_order(
            #[trigger] view.attributes.items()[i],
        )
    &&& pool_in_order(view.value_nodes.items(), root_values(view))
}

/// The allocator refused room.
pub open spec fn wants_memory(fault: RecordFault) -> bool {
    match fault {
        RecordFault::RootMemory(_) => true,
        RecordFault::KeyMemory(_) => true,
        RecordFault::Pool(PoolFault::ValidationMemory(_)) => true,
        RecordFault::Pool(PoolFault::MapKeyMemory(_)) => true,
        RecordFault::Convert(ConvertFault::StateMemory(_)) => true,
        RecordFault::Convert(ConvertFault::BytesMemory(_)) => true,
        RecordFault::Convert(ConvertFault::ArrayMemory(_)) => true,
        RecordFault::Convert(ConvertFault::MapMemory(_)) => true,
        _ => false,
    }
}

/// A record is emitted only when it is in order, and refused only when it is not or when there is no
/// memory for it.
pub proof fn emission_is_decided_by_order<'a>(
    view: &OtelLogRecordView<'a>,
    times: RepresentableTimes,
    r: Result<LogRecord, RecordFault>,
)
    requires
        call_ensures(emit_record, (view, times), r),
    ensures
        r is Ok ==> record_in_order(*view, times),
        r matches Err(fault) ==> (!wants_memory(fault) ==> !record_in_order(*view, times)),
{
    let nodes = view.value_nodes.items();
    assert(root_values(*view) =~= view.roots());
    lemma_bare_order(*view, times);
    lemma_keys_in_order(*view);
    match view.value_nodes {
        crate::abi::OtelArrayView::Data(items) => {
            assert(items@.len() == items.len());
        },
        _ => {},
    }
    pools_in_order_are_accepted(nodes, view.roots());
}

proof fn lemma_keys_in_order(view: OtelLogRecordView)
    ensures
        attributes_fault(view.attributes.items(), 0) is None <==> forall|i: int|
            0 <= i < view.attributes.items().len() ==> key_in_order(
                #[trigger] view.attributes.items()[i],
            ),
{
    lemma_keys_from(view.attributes.items(), 0);
}

proof fn lemma_keys_from(attributes: Seq<OtelLogValueNode>, from: int)
    requires
        0 <= from <= attributes.len(),
    ensures
        attributes_fault(attributes, from) is None <==> forall|i: int|
            from <= i < attributes.len() ==> key_in_order(#[trigger] attributes[i]),
    decreases attributes.len() - from,
{
    if from < attributes.len() {
        lemma_key_in_order(attributes[from]);
        lemma_keys_from(attributes, from + 1);
    }
}

} // verus!
