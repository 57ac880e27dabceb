//! Bottom-up conversion of a validated node pool into owned values.

use vstd::prelude::*;

use crate::abi::{AbiError, OtelStatus};
use crate::log_validate::{
    child_fault, children_fault, first_step_fault, pool_fault, step_fault, taken_after, visited,
};
use crate::log_value::{
    key_text, tree_of, AnyValue, OtelLogValue, OtelLogValueNode, OtelLogValueType,
};
use crate::memory::{reserve, AllocationFailure};

verus! {

/// Why a value cannot be converted.
#[derive(Clone, Copy, Debug)]
pub enum ConvertFault {
    TagChanged,
    EmptyReached,
    View(AbiError),
    ConsumedTwice,
    StateMemory(AllocationFailure),
    BytesMemory(AllocationFailure),
    ArrayMemory(AllocationFailure),
    MapMemory(AllocationFailure),
}

impl ConvertFault {
    /// Whether the allocator is to blame.
    pub open spec fn is_memory(self) -> bool {
        self is StateMemory || self is BytesMemory || self is ArrayMemory || self is MapMemory
    }

    /// The status reported for this fault.
    pub open spec fn spec_status(self) -> OtelStatus {
        match self {
            ConvertFault::TagChanged => OtelStatus::InternalError,
            ConvertFault::EmptyReached => OtelStatus::InternalError,
            ConvertFault::View(e) => e.spec_status(),
            ConvertFault::ConsumedTwice => OtelStatus::InternalError,
            ConvertFault::StateMemory(_) => OtelStatus::InternalError,
            ConvertFault::BytesMemory(_) => OtelStatus::InternalError,
            ConvertFault::ArrayMemory(_) => OtelStatus::InternalError,
            ConvertFault::MapMemory(_) => OtelStatus::InternalError,
        }
    }

    /// The diagnostic of this fault.
    pub open spec fn spec_message(self) -> Seq<char> {
        match self {
            ConvertFault::TagChanged => "log value tag changed during conversion"@,
            ConvertFault::EmptyReached => "an empty log value reached conversion"@,
            ConvertFault::View(e) => e.spec_message(),
            ConvertFault::ConsumedTwice => "log value node was consumed twice"@,
            ConvertFault::StateMemory(_) => "failed to allocate log record conversion state"@,
            ConvertFault::BytesMemory(_) => "failed to allocate log bytes value"@,
            ConvertFault::ArrayMemory(_) => "failed to allocate log array value"@,
            ConvertFault::MapMemory(_) => "failed to allocate log map value"@,
        }
    }

    /// The status reported for this fault.
    pub fn status(&self) -> (r: OtelStatus)
        ensures
            r == self.spec_status(),
    {
        match self {
            ConvertFault::TagChanged => OtelStatus::InternalError,
            ConvertFault::EmptyReached => OtelStatus::InternalError,
            ConvertFault::View(e) => e.status(),
            ConvertFault::ConsumedTwice => OtelStatus::InternalError,
            ConvertFault::StateMemory(_) => OtelStatus::InternalError,
            ConvertFault::BytesMemory(_) => OtelStatus::InternalError,
            ConvertFault::ArrayMemory(_) => OtelStatus::InternalError,
            ConvertFault::MapMemory(_) => OtelStatus::InternalError,
        }
    }

    /// The diagnostic of this fault.
    pub fn message(&self) -> (r: String)
        ensures
            r@ == self.spec_message(),
    {
        match self {
            ConvertFault::TagChanged => "log value tag changed during conversion".to_owned(),
            ConvertFault::EmptyReached => "an empty log value reached conversion".to_owned(),
            ConvertFault::View(e) => e.message().to_owned(),
            ConvertFault::ConsumedTwice => "log value node was consumed twice".to_owned(),
            ConvertFault::StateMemory(_) => "failed to allocate log record conversion state".to_owned(),
            ConvertFault::BytesMemory(_) => "failed to allocate log bytes value".to_owned(),
            ConvertFault::ArrayMemory(_) => "failed to allocate log array value".to_owned(),
            ConvertFault::MapMemory(_) => "failed to allocate log map value".to_owned(),
        }
    }
}

/// What stops the conversion of the children of a container from index `i` on, given which
/// nodes still hold a converted value.
pub open spec fn children_stop(
    nodes: Seq<OtelLogValueNode>,
    value: OtelLogValue,
    present: Seq<bool>,
    i: int,
) -> Option<ConvertFault>
    decreases value.end() - i,
{
    if i >= value.end() {
        None
    } else if value.kind() == Some(OtelLogValueType::KvMap) && nodes[i].key.text() is Err {
        Some(ConvertFault::View(nodes[i].key.text()->Err_0))
    } else if !present[i] {
        Some(ConvertFault::ConsumedTwice)
    } else {
        children_stop(nodes, value, present, i + 1)
    }
}

/// What stops the conversion of `value`.
pub open spec fn conversion_stop(
    nodes: Seq<OtelLogValueNode>,
    value: OtelLogValue,
    present: Seq<bool>,
) -> Option<ConvertFault> {
    match value.kind() {
        None => Some(ConvertFault::TagChanged),
        Some(OtelLogValueType::Empty) => Some(ConvertFault::EmptyReached),
        Some(OtelLogValueType::String) => match value.value.string_value.text() {
            Err(e) => Some(ConvertFault::View(e)),
            Ok(_) => None,
        },
        Some(OtelLogValueType::Bytes) => match value.value.bytes_value.bytes {
            None => Some(ConvertFault::View(AbiError::NullData)),
            Some(_) => None,
        },
        Some(OtelLogValueType::Array) => children_stop(nodes, value, present, value.first()),
        Some(OtelLogValueType::KvMap) => children_stop(nodes, value, present, value.first()),
        _ => None,
    }
}

/// The allocator refused room for one slot per node of the pool.
pub open spec fn state_refused(nodes: Seq<OtelLogValueNode>, e: ConvertFault) -> bool {
    e matches ConvertFault::StateMemory(failure) && failure.refused(nodes.len())
}

/// The allocator refused room for the bytes or the children of `value`. No other kind of value
/// asks for room.
pub open spec fn value_refused(value: OtelLogValue, e: ConvertFault) -> bool {
    match value.kind() {
        Some(OtelLogValueType::Bytes) => value.value.bytes_value.bytes matches Some(bytes) && (
        e matches ConvertFault::BytesMemory(failure) && failure.refused(bytes@.len())),
        Some(OtelLogValueType::Array) => e matches ConvertFault::ArrayMemory(failure)
            && failure.refused(value.count() as nat),
        Some(OtelLogValueType::KvMap) => e matches ConvertFault::MapMemory(failure)
            && failure.refused(value.count() as nat),
        _ => false,
    }
}

/// Whether a pool container at index `from` or beyond claims node `i`.
pub open spec fn claimed_within(nodes: Seq<OtelLogValueNode>, from: int, i: int) -> bool {
    exists|m: int| from <= m < nodes.len() && (#[trigger] nodes[m]).value.claims(i)
}

/// The values that are left when every node was converted: those that no pool container claims.
pub open spec fn roots_left(nodes: Seq<OtelLogValueNode>, present: Seq<bool>) -> bool {
    &&& present.len() == nodes.len()
    &&& forall|i: int|
        0 <= i < nodes.len() ==> (#[trigger] present[i] <==> !claimed_within(nodes, 0, i))
}

/// In an accepted pool no visited value has a fault.
pub proof fn lemma_accepted(nodes: Seq<OtelLogValueNode>, roots: Seq<OtelLogValue>, k: int)
    requires
        pool_fault(nodes, roots) is None,
        0 <= k < nodes.len() + roots.len(),
    ensures
        step_fault(nodes, roots, k) is None,
{
    lemma_no_fault_before(nodes, roots, 0, k);
}

proof fn lemma_no_fault_before(
    nodes: Seq<OtelLogValueNode>,
    roots: Seq<OtelLogValue>,
    j: int,
    k: int,
)
    requires
        0 <= j <= k < nodes.len() + roots.len(),
        first_step_fault(nodes, roots, j) is None,
    ensures
        step_fault(nodes, roots, k) is None,
    decreases k - j,
{
    if j < k {
        lemma_no_fault_before(nodes, roots, j + 1, k);
    }
}

/// A node is taken after `k` values exactly when one of them claims it.
pub proof fn lemma_taken(nodes: Seq<OtelLogValueNode>, roots: Seq<OtelLogValue>, k: int, i: int)
    requires
        0 <= i < nodes.len(),
        0 <= k,
    ensures
        taken_after(nodes, roots, k)[i] <==> exists|j: int|
            0 <= j < k && (#[trigger] visited(nodes, roots, j)).claims(i),
    decreases k,
{
    if k > 0 {
        lemma_taken(nodes, roots, k - 1, i);
        if visited(nodes, roots, k - 1).claims(i) {
            assert(visited(nodes, roots, k - 1).claims(i));
        }
        if taken_after(nodes, roots, k - 1)[i] {
            let j = choose|j: int| 0 <= j < k - 1 && (#[trigger] visited(nodes, roots, j)).claims(i);
            assert(visited(nodes, roots, j).claims(i));
        }
    }
}

/// In an accepted pool the children of a container lie inside the pool, beyond the container.
pub proof fn lemma_forward(nodes: Seq<OtelLogValueNode>, roots: Seq<OtelLogValue>, k: int)
    requires
        pool_fault(nodes, roots) is None,
        0 <= k < nodes.len() + roots.len(),
    ensures
        visited(nodes, roots, k).is_container() ==> visited(nodes, roots, k).addresses(
            if k < nodes.len() {
                k
            } else {
                -1
            },
            nodes.len(),
        ),
{
    lemma_accepted(nodes, roots, k);
}

/// In an accepted pool no node is claimed by two values.
pub proof fn lemma_single_claim(
    nodes: Seq<OtelLogValueNode>,
    roots: Seq<OtelLogValue>,
    j: int,
    k: int,
    i: int,
)
    requires
        pool_fault(nodes, roots) is None,
        0 <= j < nodes.len() + roots.len(),
        0 <= k < nodes.len() + roots.len(),
        visited(nodes, roots, j).claims(i),
        visited(nodes, roots, k).claims(i),
    ensures
        j == k,
{
    let late = if j < k {
        k
    } else {
        j
    };
    lemma_accepted(nodes, roots, late);
    lemma_forward(nodes, roots, late);
    lemma_taken(nodes, roots, late, i);
    let taken = taken_after(nodes, roots, late);
    if j != k {
        assert(taken[i]);
    }
}

/// The tree of a value does not depend on where a properly addressed value is held.
pub proof fn lemma_tree_floor(nodes: Seq<OtelLogValueNode>, value: OtelLogValue, floor: int)
    requires
        -1 <= floor,
        value.is_container() ==> value.addresses(floor, nodes.len()),
    ensures
        tree_of(nodes, value, floor) == tree_of(nodes, value, -1),
{
    if value.kind() == Some(OtelLogValueType::Array) {
        assert(tree_of(nodes, value, floor)->List_0 =~= tree_of(nodes, value, -1)->List_0);
    } else if value.kind() == Some(OtelLogValueType::KvMap) {
        assert(tree_of(nodes, value, floor)->Entries_0 =~= tree_of(nodes, value, -1)->Entries_0);
    }
}

/// Children with readable keys that are all present stop no conversion.
pub proof fn lemma_no_stop(
    nodes: Seq<OtelLogValueNode>,
    value: OtelLogValue,
    present: Seq<bool>,
    i: int,
)
    requires
        value.first() <= i,
        present.len() == nodes.len(),
        value.is_container() ==> children_fault(nodes, value, i) is None,
        forall|c: int| value.claims(c) ==> #[trigger] present[c],
        value.is_container(),
    ensures
        children_stop(nodes, value, present, i) is None,
    decreases value.end() - i,
{
    if i < value.end() {
        assert(value.claims(i));
        assert(child_fault(nodes, value, i) is None);
        lemma_no_stop(nodes, value, present, i + 1);
    }
}

/// The conversion pass over one pool.
pub struct Converter<'a> {
    pub nodes: &'a [OtelLogValueNode<'a>],
    pub converted: Vec<Option<AnyValue>>,
}

impl<'a> Converter<'a> {
    /// Which nodes hold a converted value.
    pub open spec fn present(self) -> Seq<bool> {
        Seq::new(self.converted@.len(), |i: int| self.converted@[i] is Some)
    }

    /// One slot per node, and a filled slot holds the tree of its node.
    pub open spec fn wf(self) -> bool {
        &&& self.converted@.len() == self.nodes@.len()
        &&& forall|i: int|
            0 <= i < self.nodes@.len() && (#[trigger] self.converted@[i]) is Some ==> (
            self.converted@[i]->0).tree() == tree_of(self.nodes@, self.nodes@[i].value, i)
    }

    pub fn new(nodes: &'a [OtelLogValueNode<'a>]) -> (r: Result<Self, ConvertFault>)
        ensures
            r matches Ok(c) ==> c.wf() && c.nodes == nodes && (forall|i: int|
                0 <= i < nodes@.len() ==> #[trigger] c.converted@[i] is None),
            r matches Err(e) ==> state_refused(nodes@, e),
    {
        let mut converted: Vec<Option<AnyValue>> = Vec::new();
        match reserve(&mut converted, nodes.len()) {
            Err(failure) => return Err(ConvertFault::StateMemory(failure)),
            Ok(_) => {},
        }
        let mut i: usize = 0;
        while i < nodes.len()
            invariant
                i <= nodes.len(),
                converted@.len() == i,
                forall|j: int| 0 <= j < i ==> #[trigger] converted@[j] is None,
            decreases nodes.len() - i,
        {
            converted.push(None);
            i += 1;
        }
        Ok(Converter { nodes, converted })
    }

    /// Moves the converted value of a node out.
    pub fn take_child(&mut self, index: usize) -> (r: Result<AnyValue, ConvertFault>)
        requires
            old(self).wf(),
            index < old(self).nodes@.len(),
        ensures
            final(self).wf(),
            final(self).nodes == old(self).nodes,
            final(self).converted@ == old(self).converted@.update(index as int, None),
            match old(self).converted@[index as int] {
                Some(value) => r == Ok::<AnyValue, ConvertFault>(value),
                None => r == Err::<AnyValue, ConvertFault>(ConvertFault::ConsumedTwice),
            },
    {
        let child = self.converted[index].take();
        match child {
            Some(value) => Ok(value),
            None => Err(ConvertFault::ConsumedTwice),
        }
    }

    /// Converts one value, moving its children in.
    pub fn convert_value(&mut self, value: &OtelLogValue<'a>) -> (r: Result<AnyValue, ConvertFault>)
        requires
            old(self).wf(),
            value.is_container() ==> value.addresses(-1, old(self).nodes@.len()),
        ensures
            final(self).wf(),
            final(self).nodes == old(self).nodes,
            r matches Ok(v) ==> conversion_stop(old(self).nodes@, *value, old(self).present()) is None
                && v.tree() == tree_of(old(self).nodes@, *value, -1) && forall|i: int|
                0 <= i < old(self).nodes@.len() ==> #[trigger] final(self).converted@[i] == (
                if value.claims(i) {
                    None
                } else {
                    old(self).converted@[i]
                }),
            r matches Err(e) ==> if e.is_memory() {
                value_refused(*value, e)
            } else {
                conversion_stop(old(self).nodes@, *value, old(self).present()) == Some(e)
            },
    {
        let tag = match OtelLogValueType::from_u32(value.value_type) {
            Some(tag) => tag,
            None => return Err(ConvertFault::TagChanged),
        };
        match tag {
            OtelLogValueType::Empty => Err(ConvertFault::EmptyReached),
            OtelLogValueType::String => match value.value.string_value.to_string_strict() {
                Ok(s) => Ok(AnyValue::String(s)),
                Err(e) => Err(ConvertFault::View(e)),
            },
            OtelLogValueType::Bool => Ok(AnyValue::Boolean(value.value.bool_value != 0)),
            OtelLogValueType::Int64 => Ok(AnyValue::Int(value.value.int64_value)),
            OtelLogValueType::Double => Ok(AnyValue::Double(value.value.double_value)),
            OtelLogValueType::Bytes => match value.value.bytes_value.bytes {
                None => Err(ConvertFault::View(AbiError::NullData)),
                Some(bytes) => {
                    let mut owned: Vec<u8> = Vec::new();
                    match reserve(&mut owned, bytes.len()) {
                        Err(failure) => return Err(ConvertFault::BytesMemory(failure)),
                        Ok(_) => {},
                    }
                    owned.extend_from_slice(bytes);
                    assert(owned@ =~= bytes@);
                    Ok(AnyValue::Bytes(owned))
                },
            },
            OtelLogValueType::Array => self.convert_array(value),
            OtelLogValueType::KvMap => self.convert_map(value),
        }
    }

    fn convert_array(&mut self, value: &OtelLogValue<'a>) -> (r: Result<AnyValue, ConvertFault>)
        requires
            old(self).wf(),
            value.kind() == Some(OtelLogValueType::Array),
            value.addresses(-1, old(self).nodes@.len()),
        ensures
            final(self).wf(),
            final(self).nodes == old(self).nodes,
            r matches Ok(v) ==> conversion_stop(old(self).nodes@, *value, old(self).present()) is None
                && v.tree() == tree_of(old(self).nodes@, *value, -1) && forall|i: int|
                0 <= i < old(self).nodes@.len() ==> #[trigger] final(self).converted@[i] == (
                if value.claims(i) {
                    None
                } else {
                    old(self).converted@[i]
                }),
            r matches Err(e) ==> if e.is_memory() {
                value_refused(*value, e)
            } else {
                conversion_stop(old(self).nodes@, *value, old(self).present()) == Some(e)
            },
    {
        let mut items: Vec<AnyValue> = Vec::new();
        let count: usize = value.value.children.count as usize;
        match reserve(&mut items, count) {
            Err(failure) => return Err(ConvertFault::ArrayMemory(failure)),
            Ok(_) => {},
        }
        let first: usize = value.value.children.first as usize;
        let pool_len: usize = self.nodes.len();
        let mut offset: usize = 0;
        while offset < count
            invariant
                self.wf(),
                self.nodes == old(self).nodes,
                offset <= count,
                first == value.first(),
                count == value.count(),
                value.kind() == Some(OtelLogValueType::Array),
                count > 0 ==> value.end() <= pool_len,
                pool_len == self.nodes@.len(),
                items@.len() == offset,
                forall|i: int|
                    0 <= i < offset ==> (#[trigger] items@[i]).tree() == tree_of(
                        self.nodes@,
                        self.nodes@[first + i].value,
                        first + i,
                    ),
                self.converted@.len() == old(self).converted@.len(),
                forall|i: int|
                    0 <= i < self.nodes@.len() ==> #[trigger] self.converted@[i] == (if first <= i
                        < first + offset {
                        None
                    } else {
                        old(self).converted@[i]
                    }),
                children_stop(self.nodes@, *value, old(self).present(), first as int)
                    == children_stop(self.nodes@, *value, old(self).present(), first + offset),
            decreases count - offset,
        {
            let item = self.take_child(first + offset)?;
            items.push(item);
            offset += 1;
        }
        let r = AnyValue::ListAny(items);
        assert(r.tree()->List_0 =~= tree_of(self.nodes@, *value, -1)->List_0);
        Ok(r)
    }

    fn convert_map(&mut self, value: &OtelLogValue<'a>) -> (r: Result<AnyValue, ConvertFault>)
        requires
            old(self).wf(),
            value.kind() == Some(OtelLogValueType::KvMap),
            value.addresses(-1, old(self).nodes@.len()),
        ensures
            final(self).wf(),
            final(self).nodes == old(self).nodes,
            r matches Ok(v) ==> conversion_stop(old(self).nodes@, *value, old(self).present()) is None
                && v.tree() == tree_of(old(self).nodes@, *value, -1) && forall|i: int|
                0 <= i < old(self).nodes@.len() ==> #[trigger] final(self).converted@[i] == (
                if value.claims(i) {
                    None
                } else {
                    old(self).converted@[i]
                }),
            r matches Err(e) ==> if e.is_memory() {
                value_refused(*value, e)
            } else {
                conversion_stop(old(self).nodes@, *value, old(self).present()) == Some(e)
            },
    {
        let mut entries: Vec<(String, AnyValue)> = Vec::new();
        let count: usize = value.value.children.count as usize;
        match reserve(&mut entries, count) {
            Err(failure) => return Err(ConvertFault::MapMemory(failure)),
            Ok(_) => {},
        }
        let first: usize = value.value.children.first as usize;
        let mut offset: usize = 0;
        while offset < count
            invariant
                self.wf(),
                self.nodes == old(self).nodes,
                offset <= count,
                first == value.first(),
                count == value.count(),
                value.kind() == Some(OtelLogValueType::KvMap),
                count > 0 ==> value.end() <= self.nodes@.len(),
                entries@.len() == offset,
                forall|i: int|
                    0 <= i < offset ==> (#[trigger] entries@[i]).1.tree() == tree_of(
                        self.nodes@,
                        self.nodes@[first + i].value,
                        first + i,
                    ) && entries@[i].0@ == key_text(self.nodes@[first + i]),
                self.converted@.len() == old(self).converted@.len(),
                forall|i: int|
                    0 <= i < self.nodes@.len() ==> #[trigger] self.converted@[i] == (if first <= i
                        < first + offset {
                        None
                    } else {
                        old(self).converted@[i]
                    }),
                children_stop(self.nodes@, *value, old(self).present(), first as int)
                    == children_stop(self.nodes@, *value, old(self).present(), first + offset),
            decreases count - offset,
        {
            let key = match self.nodes[first + offset].key.to_string_strict() {
                Ok(key) => key,
                Err(e) => return Err(ConvertFault::View(e)),
            };
            let item = self.take_child(first + offset)?;
            entries.push((key, item));
            offset += 1;
        }
        let r = AnyValue::KvMap(entries);
        assert(r.tree()->Entries_0 =~= tree_of(self.nodes@, *value, -1)->Entries_0);
        Ok(r)
    }

    /// Converts every pool node, highest index first, so that a container's children are owned
    /// values that can be moved into it.
    pub(crate) fn convert_pool(&mut self, Ghost(roots): Ghost<Seq<OtelLogValue<'a>>>) -> (r: Result<
        (),
        ConvertFault,
    >)
        requires
            old(self).wf(),
            pool_fault(old(self).nodes@, roots) is None,
            forall|i: int| 0 <= i < old(self).nodes@.len() ==> #[trigger] old(self).converted@[i] is None,
        ensures
            final(self).wf(),
            final(self).nodes == old(self).nodes,
            r is Ok ==> roots_left(old(self).nodes@, final(self).present()),
            r matches Err(e) ==> exists|i: int|
                0 <= i < old(self).nodes@.len() && value_refused(
                    (#[trigger] old(self).nodes@[i]).value,
                    e,
                ),
    {
        let ghost nodes = self.nodes@;
        let mut index: usize = self.nodes.len();
        while index > 0
            invariant
                self.wf(),
                self.nodes == old(self).nodes,
                nodes == self.nodes@,
                pool_fault(nodes, roots) is None,
                index <= nodes.len(),
                forall|i: int| 0 <= i < index ==> #[trigger] self.converted@[i] is None,
                forall|i: int|
                    index <= i < nodes.len() ==> (#[trigger] self.converted@[i] is Some
                        <==> !claimed_within(nodes, index as int, i)),
            decreases index,
        {
            index -= 1;
            let value = self.nodes[index].value;
            let ghost before = *self;
            proof {
                lemma_accepted(nodes, roots, index as int);
                assert(visited(nodes, roots, index as int) == value);
                assert forall|i: int| value.claims(i) implies before.converted@[i] is Some by {
                    assert(!claimed_within(nodes, index + 1, i)) by {
                        if claimed_within(nodes, index + 1, i) {
                            let m = choose|m: int|
                                index + 1 <= m < nodes.len() && (#[trigger] nodes[m]).value.claims(i);
                            lemma_single_claim(nodes, roots, index as int, m, i);
                        }
                    }
                }
                if value.is_container() {
                    lemma_no_stop(nodes, value, before.present(), value.first());
                }
            }
            let converted = match self.convert_value(&value) {
                Ok(converted) => converted,
                Err(e) => {
                    assert(value_refused(nodes[index as int].value, e));
                    return Err(e);
                },
            };
            proof {
                lemma_tree_floor(nodes, value, index as int);
            }
            self.converted.set(index, Some(converted));
            assert forall|i: int| index <= i < nodes.len() implies (#[trigger] self.converted@[i] is Some
                <==> !claimed_within(nodes, index as int, i)) by {
                if claimed_within(nodes, index as int, i) {
                    let m = choose|m: int|
                        index <= m < nodes.len() && (#[trigger] nodes[m]).value.claims(i);
                    lemma_forward(nodes, roots, m);
                    assert(visited(nodes, roots, m) == nodes[m].value);
                    if m > index {
                        assert(claimed_within(nodes, index + 1, i));
                    }
                }
                if i > index && claimed_within(nodes, index + 1, i) {
                    let m = choose|m: int|
                        index + 1 <= m < nodes.len() && (#[trigger] nodes[m]).value.claims(i);
                    assert(nodes[m].value.claims(i));
                }
                if value.claims(i) {
                    assert(nodes[index as int].value.claims(i));
                }
            }
        }
        Ok(())
    }
}

} // verus!
