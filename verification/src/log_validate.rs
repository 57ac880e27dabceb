//! Structural validation of a log record's node pool.
//!
//! A pool is accepted when every value is well tagged and within its limits, every container
//! addresses children inside the pool and beyond itself, every node belongs to exactly one
//! container or root, array elements carry no key and map entries carry distinct keys, and no
//! root nests too deeply. The first violation, in pool order and then root order, is reported.

use vstd::prelude::*;

use crate::abi::{AbiError, OtelStatus};
use crate::log_value::{
    OtelLogValue, OtelLogValueNode, OtelLogValueType, OTEL_LOG_MAX_ARRAY_ELEMENTS,
    OTEL_LOG_MAX_BYTES_LEN, OTEL_LOG_MAX_MAP_ENTRIES, OTEL_LOG_MAX_STRING_LEN,
    OTEL_LOG_MAX_VALUE_DEPTH,
};
use crate::memory::{reserve, AllocationFailure};
use crate::text::{numbered, numbered_text, same_text};

verus! {

/// Why a pool is refused.
#[derive(Clone, Copy, Debug)]
pub enum PoolFault {
    ValueReserved,
    UnknownTag,
    EmptyValue,
    View(AbiError),
    StringTooLong,
    BytesTooLong,
    ContainerTooLarge,
    RangeOverflow,
    RangeOutside,
    NotForward,
    Shared,
    ArrayKey,
    EmptyMapKey,
    MapKeyTooLong,
    DuplicateKey,
    Unreferenced(usize),
    TooDeep,
    ValidationMemory(AllocationFailure),
    MapKeyMemory(AllocationFailure),
}

impl PoolFault {
    /// Whether the allocator, not the pool, is to blame.
    pub open spec fn is_memory(self) -> bool {
        self is ValidationMemory || self is MapKeyMemory
    }

    /// The status reported for this fault.
    pub open spec fn spec_status(self) -> OtelStatus {
        match self {
            PoolFault::ValueReserved => OtelStatus::InvalidArgument,
            PoolFault::UnknownTag => OtelStatus::InvalidArgument,
            PoolFault::EmptyValue => OtelStatus::InvalidArgument,
            PoolFault::View(e) => e.spec_status(),
            PoolFault::StringTooLong => OtelStatus::InvalidArgument,
            PoolFault::BytesTooLong => OtelStatus::InvalidArgument,
            PoolFault::ContainerTooLarge => OtelStatus::InvalidArgument,
            PoolFault::RangeOverflow => OtelStatus::InvalidArgument,
            PoolFault::RangeOutside => OtelStatus::InvalidArgument,
            PoolFault::NotForward => OtelStatus::InvalidArgument,
            PoolFault::Shared => OtelStatus::InvalidArgument,
            PoolFault::ArrayKey => OtelStatus::InvalidArgument,
            PoolFault::EmptyMapKey => OtelStatus::InvalidArgument,
            PoolFault::MapKeyTooLong => OtelStatus::InvalidArgument,
            PoolFault::DuplicateKey => OtelStatus::InvalidArgument,
            PoolFault::Unreferenced(_) => OtelStatus::InvalidArgument,
            PoolFault::TooDeep => OtelStatus::InvalidArgument,
            PoolFault::ValidationMemory(_) => OtelStatus::InternalError,
            PoolFault::MapKeyMemory(_) => OtelStatus::InternalError,
        }
    }

    /// The diagnostic of this fault.
    pub open spec fn spec_message(self) -> Seq<char> {
        match self {
            PoolFault::ValueReserved => "log value reserved field must be zero"@,
            PoolFault::UnknownTag => "log value has an unknown value_type tag"@,
            PoolFault::EmptyValue => "an empty log value is only valid as an absent record body"@,
            PoolFault::View(e) => e.spec_message(),
            PoolFault::StringTooLong => "log string value exceeds the maximum supported length"@,
            PoolFault::BytesTooLong => "log bytes value exceeds the maximum supported length"@,
            PoolFault::ContainerTooLarge => "log container exceeds the maximum supported element count"@,
            PoolFault::RangeOverflow => "log container child range overflows"@,
            PoolFault::RangeOutside => "log container child range is outside the node pool"@,
            PoolFault::NotForward => "log container children must live at a strictly greater pool index"@,
            PoolFault::Shared => "log value node is referenced more than once"@,
            PoolFault::ArrayKey => "array element nodes must have an empty key"@,
            PoolFault::EmptyMapKey => "map entry nodes must have a non-empty key"@,
            PoolFault::MapKeyTooLong => "map entry key exceeds the maximum supported length"@,
            PoolFault::DuplicateKey => "duplicate key in a log map value"@,
            PoolFault::Unreferenced(index) => numbered(
                "log value node "@,
                index as nat,
                " is not referenced by any container or root"@,
            ),
            PoolFault::TooDeep => "log value nesting exceeds the maximum supported depth"@,
            PoolFault::ValidationMemory(_) => "failed to allocate log record conversion state"@,
            PoolFault::MapKeyMemory(_) => "failed to allocate map key validation state"@,
        }
    }

    /// The status reported for this fault.
    pub fn status(&self) -> (r: OtelStatus)
        ensures
            r == self.spec_status(),
    {
        match self {
            PoolFault::ValueReserved => OtelStatus::InvalidArgument,
            PoolFault::UnknownTag => OtelStatus::InvalidArgument,
            PoolFault::EmptyValue => OtelStatus::InvalidArgument,
            PoolFault::View(e) => e.status(),
            PoolFault::StringTooLong => OtelStatus::InvalidArgument,
            PoolFault::BytesTooLong => OtelStatus::InvalidArgument,
            PoolFault::ContainerTooLarge => OtelStatus::InvalidArgument,
            PoolFault::RangeOverflow => OtelStatus::InvalidArgument,
            PoolFault::RangeOutside => OtelStatus::InvalidArgument,
            PoolFault::NotForward => OtelStatus::InvalidArgument,
            PoolFault::Shared => OtelStatus::InvalidArgument,
            PoolFault::ArrayKey => OtelStatus::InvalidArgument,
            PoolFault::EmptyMapKey => OtelStatus::InvalidArgument,
            PoolFault::MapKeyTooLong => OtelStatus::InvalidArgument,
            PoolFault::DuplicateKey => OtelStatus::InvalidArgument,
            PoolFault::Unreferenced(_) => OtelStatus::InvalidArgument,
            PoolFault::TooDeep => OtelStatus::InvalidArgument,
            PoolFault::ValidationMemory(_) => OtelStatus::InternalError,
            PoolFault::MapKeyMemory(_) => OtelStatus::InternalError,
        }
    }

    /// The diagnostic of this fault.
    pub fn message(&self) -> (r: String)
        ensures
            r@ == self.spec_message(),
    {
        match self {
            PoolFault::ValueReserved => "log value reserved field must be zero".to_owned(),
            PoolFault::UnknownTag => "log value has an unknown value_type tag".to_owned(),
            PoolFault::EmptyValue => "an empty log value is only valid as an absent record body".to_owned(),
            PoolFault::View(e) => e.message().to_owned(),
            PoolFault::StringTooLong => "log string value exceeds the maximum supported length".to_owned(),
            PoolFault::BytesTooLong => "log bytes value exceeds the maximum supported length".to_owned(),
            PoolFault::ContainerTooLarge => "log container exceeds the maximum supported element count".to_owned(),
            PoolFault::RangeOverflow => "log container child range overflows".to_owned(),
            PoolFault::RangeOutside => "log container child range is outside the node pool".to_owned(),
            PoolFault::NotForward => "log container children must live at a strictly greater pool index".to_owned(),
            PoolFault::Shared => "log value node is referenced more than once".to_owned(),
            PoolFault::ArrayKey => "array element nodes must have an empty key".to_owned(),
            PoolFault::EmptyMapKey => "map entry nodes must have a non-empty key".to_owned(),
            PoolFault::MapKeyTooLong => "map entry key exceeds the maximum supported length".to_owned(),
            PoolFault::DuplicateKey => "duplicate key in a log map value".to_owned(),
            PoolFault::Unreferenced(index) => numbered_text(
                "log value node ",
                *index as u64,
                " is not referenced by any container or root",
            ),
            PoolFault::TooDeep => "log value nesting exceeds the maximum supported depth".to_owned(),
            PoolFault::ValidationMemory(_) => "failed to allocate log record conversion state".to_owned(),
            PoolFault::MapKeyMemory(_) => "failed to allocate map key validation state".to_owned(),
        }
    }
}

/// Most children that a container of this kind may have.
pub open spec fn element_limit(value: OtelLogValue) -> int {
    if value.kind() == Some(OtelLogValueType::KvMap) {
        OTEL_LOG_MAX_MAP_ENTRIES as int
    } else {
        OTEL_LOG_MAX_ARRAY_ELEMENTS as int
    }
}

/// What is wrong with a value's own fields.
pub open spec fn scalar_fault(value: OtelLogValue) -> Option<PoolFault> {
    if value.reserved != 0 {
        Some(PoolFault::ValueReserved)
    } else {
        match value.kind() {
            None => Some(PoolFault::UnknownTag),
            Some(OtelLogValueType::Empty) => Some(PoolFault::EmptyValue),
            Some(OtelLogValueType::String) => match value.value.string_value.text() {
                Err(e) => Some(PoolFault::View(e)),
                Ok(_) => if value.value.string_value.bytes->0@.len() > OTEL_LOG_MAX_STRING_LEN {
                    Some(PoolFault::StringTooLong)
                } else {
                    None
                },
            },
            Some(OtelLogValueType::Bytes) => match value.value.bytes_value.bytes {
                None => Some(PoolFault::View(AbiError::NullData)),
                Some(bytes) => if bytes@.len() > OTEL_LOG_MAX_BYTES_LEN {
                    Some(PoolFault::BytesTooLong)
                } else {
                    None
                },
            },
            _ => None,
        }
    }
}

/// What is wrong with a container's child range, given which nodes are taken already.
pub open spec fn claim_fault(value: OtelLogValue, owner: Option<int>, taken: Seq<bool>) -> Option<
    PoolFault,
> {
    if value.count() > element_limit(value) {
        Some(PoolFault::ContainerTooLarge)
    } else if value.count() == 0 {
        None
    } else if value.end() > usize::MAX {
        Some(PoolFault::RangeOverflow)
    } else if value.end() > taken.len() {
        Some(PoolFault::RangeOutside)
    } else if owner matches Some(index) && value.first() <= index {
        Some(PoolFault::NotForward)
    } else if exists|i: int| value.first() <= i < value.end() && #[trigger] taken[i] {
        Some(PoolFault::Shared)
    } else {
        None
    }
}

/// Whether an earlier child of the container has the key of child `i`.
pub open spec fn repeats_key(nodes: Seq<OtelLogValueNode>, first: int, i: int) -> bool {
    exists|j: int| first <= j < i && #[trigger] nodes[j].key.text() == nodes[i].key.text()
}

/// What is wrong with the key of child `i` of a container.
pub open spec fn child_fault(nodes: Seq<OtelLogValueNode>, value: OtelLogValue, i: int) -> Option<
    PoolFault,
> {
    match nodes[i].key.text() {
        Err(e) => Some(PoolFault::View(e)),
        Ok(key) => if value.kind() == Some(OtelLogValueType::KvMap) {
            if key.len() == 0 {
                Some(PoolFault::EmptyMapKey)
            } else if nodes[i].key.bytes->0@.len() > OTEL_LOG_MAX_STRING_LEN {
                Some(PoolFault::MapKeyTooLong)
            } else if repeats_key(nodes, value.first(), i) {
                Some(PoolFault::DuplicateKey)
            } else {
                None
            }
        } else if key.len() > 0 {
            Some(PoolFault::ArrayKey)
        } else {
            None
        },
    }
}

/// The first key violation among the children from `i` on.
pub open spec fn children_fault(nodes: Seq<OtelLogValueNode>, value: OtelLogValue, i: int) -> Option<
    PoolFault,
>
    decreases value.end() - i,
{
    if i >= value.end() {
        None
    } else if child_fault(nodes, value, i) is Some {
        child_fault(nodes, value, i)
    } else {
        children_fault(nodes, value, i + 1)
    }
}

/// What is wrong with one value and its child range.
pub open spec fn value_fault(
    nodes: Seq<OtelLogValueNode>,
    value: OtelLogValue,
    owner: Option<int>,
    taken: Seq<bool>,
) -> Option<PoolFault> {
    if scalar_fault(value) is Some {
        scalar_fault(value)
    } else if !value.is_container() {
        None
    } else if claim_fault(value, owner, taken) is Some {
        claim_fault(value, owner, taken)
    } else {
        children_fault(nodes, value, value.first())
    }
}

/// The `k`-th value that validation visits: the pool nodes in order, then the roots.
pub open spec fn visited<'a>(
    nodes: Seq<OtelLogValueNode<'a>>,
    roots: Seq<OtelLogValue<'a>>,
    k: int,
) -> OtelLogValue<'a> {
    if k < nodes.len() {
        nodes[k].value
    } else {
        roots[k - nodes.len()]
    }
}

/// Which nodes the first `k` visited values claim.
pub open spec fn taken_after(
    nodes: Seq<OtelLogValueNode>,
    roots: Seq<OtelLogValue>,
    k: int,
) -> Seq<bool>
    decreases k,
{
    if k <= 0 {
        Seq::new(nodes.len(), |i: int| false)
    } else {
        Seq::new(
            nodes.len(),
            |i: int| taken_after(nodes, roots, k - 1)[i] || visited(nodes, roots, k - 1).claims(i),
        )
    }
}

/// What is wrong with the `k`-th visited value.
pub open spec fn step_fault(
    nodes: Seq<OtelLogValueNode>,
    roots: Seq<OtelLogValue>,
    k: int,
) -> Option<PoolFault> {
    value_fault(
        nodes,
        visited(nodes, roots, k),
        if k < nodes.len() {
            Some(k)
        } else {
            None
        },
        taken_after(nodes, roots, k),
    )
}

/// The allocator refused room for the keys of a map.
pub open spec fn keys_refused(value: OtelLogValue, e: PoolFault) -> bool {
    value.kind() == Some(OtelLogValueType::KvMap) && (e matches PoolFault::MapKeyMemory(failure)
        && failure.refused(value.count() as nat))
}

/// The allocator refused room for the keys of the `k`-th visited value, a map whose own fields
/// and child range are in order.
pub open spec fn step_refused(
    nodes: Seq<OtelLogValueNode>,
    roots: Seq<OtelLogValue>,
    k: int,
    e: PoolFault,
) -> bool {
    let value = visited(nodes, roots, k);
    &&& keys_refused(value, e)
    &&& scalar_fault(value) is None
    &&& claim_fault(
        value,
        if k < nodes.len() {
            Some(k)
        } else {
            None
        },
        taken_after(nodes, roots, k),
    ) is None
}

/// The allocator refused room at the `k`-th visited value, and nothing before it has a fault.
pub open spec fn refused_at(
    nodes: Seq<OtelLogValueNode>,
    roots: Seq<OtelLogValue>,
    k: int,
    e: PoolFault,
) -> bool {
    &&& 0 <= k < nodes.len() + roots.len()
    &&& step_refused(nodes, roots, k, e)
    &&& forall|j: int| 0 <= j < k ==> #[trigger] step_fault(nodes, roots, j) is None
}

/// The allocator refused room for the keys of a map that validation reached. A pool and roots
/// without a map that has entries never meet this.
pub open spec fn validation_refused(
    nodes: Seq<OtelLogValueNode>,
    roots: Seq<OtelLogValue>,
    e: PoolFault,
) -> bool {
    exists|k: int| #[trigger] refused_at(nodes, roots, k, e)
}

/// The first violation among the values visited from the `k`-th on.
pub open spec fn first_step_fault(
    nodes: Seq<OtelLogValueNode>,
    roots: Seq<OtelLogValue>,
    k: int,
) -> Option<PoolFault>
    decreases nodes.len() + roots.len() - k,
{
    if k >= nodes.len() + roots.len() {
        None
    } else if step_fault(nodes, roots, k) is Some {
        step_fault(nodes, roots, k)
    } else {
        first_step_fault(nodes, roots, k + 1)
    }
}

/// The lowest index from `i` on that is not taken.
pub open spec fn first_free(taken: Seq<bool>, i: int) -> Option<int>
    decreases taken.len() - i,
{
    if i >= taken.len() {
        None
    } else if !taken[i] {
        Some(i)
    } else {
        first_free(taken, i + 1)
    }
}

/// Height of the tree under a value held at index `floor`; a scalar has height one.
pub open spec fn value_depth(nodes: Seq<OtelLogValueNode>, value: OtelLogValue, floor: int) -> nat
    decreases nodes.len() - floor, 0nat,
{
    if value.is_container() && value.count() > 0 && value.addresses(floor, nodes.len()) {
        1 + deepest(nodes, value.first(), value.end())
    } else {
        1
    }
}

/// The greatest height among the nodes in `[a, b)`.
pub open spec fn deepest(nodes: Seq<OtelLogValueNode>, a: int, b: int) -> nat
    decreases nodes.len() - a, 1nat,
{
    if a >= b || a >= nodes.len() {
        0
    } else {
        let here = value_depth(nodes, nodes[a].value, a);
        let rest = deepest(nodes, a + 1, b);
        if here >= rest {
            here
        } else {
            rest
        }
    }
}

/// Whether some root nests beyond the limit.
pub open spec fn too_deep(nodes: Seq<OtelLogValueNode>, roots: Seq<OtelLogValue>) -> bool {
    exists|r: int|
        0 <= r < roots.len() && value_depth(nodes, #[trigger] roots[r], -1)
            > OTEL_LOG_MAX_VALUE_DEPTH
}

/// Why a pool with these roots is refused, if it is.
pub open spec fn pool_fault(nodes: Seq<OtelLogValueNode>, roots: Seq<OtelLogValue>) -> Option<
    PoolFault,
> {
    if first_step_fault(nodes, roots, 0) is Some {
        first_step_fault(nodes, roots, 0)
    } else {
        match first_free(taken_after(nodes, roots, (nodes.len() + roots.len()) as int), 0) {
            Some(i) => Some(PoolFault::Unreferenced(i as usize)),
            None => if too_deep(nodes, roots) {
                Some(PoolFault::TooDeep)
            } else {
                None
            },
        }
    }
}

/// A node lies at most as deep as the pool behind it is long.
pub proof fn lemma_depth_bound(nodes: Seq<OtelLogValueNode>, value: OtelLogValue, floor: int)
    requires
        -1 <= floor < nodes.len(),
    ensures
        value_depth(nodes, value, floor) <= nodes.len() - floor,
    decreases nodes.len() - floor, 0nat,
{
    if value.is_container() && value.count() > 0 && value.addresses(floor, nodes.len()) {
        lemma_deepest_bound(nodes, value.first(), value.end());
    }
}

proof fn lemma_deepest_bound(nodes: Seq<OtelLogValueNode>, a: int, b: int)
    requires
        0 <= a,
    ensures
        a < nodes.len() ==> deepest(nodes, a, b) <= nodes.len() - a,
        a >= nodes.len() ==> deepest(nodes, a, b) == 0,
    decreases nodes.len() - a, 1nat,
{
    if a < b && a < nodes.len() {
        lemma_depth_bound(nodes, nodes[a].value, a);
        lemma_deepest_bound(nodes, a + 1, b);
    }
}

/// The record of taken nodes covers the pool.
proof fn lemma_taken_len(nodes: Seq<OtelLogValueNode>, roots: Seq<OtelLogValue>, k: int)
    ensures
        taken_after(nodes, roots, k).len() == nodes.len(),
{
}

/// Per-node facts computed by validation.
#[derive(Clone, Copy)]
pub struct NodeInfo {
    /// Height of the subtree rooted at this node; a scalar has depth 1.
    pub depth: u32,
    /// Whether some container or root already claimed this node.
    pub referenced: bool,
}

/// The validation pass over one pool.
pub struct Validator<'a> {
    pub nodes: &'a [OtelLogValueNode<'a>],
    pub info: Vec<NodeInfo>,
}

/// Where a value sits, which decides whether its key must be present or absent.
#[derive(Clone, Copy, PartialEq, Eq, Structural)]
pub enum NodeRole {
    ArrayElement,
    MapEntry,
}

/// The owner's index, where there is one.
pub open spec fn owner_index(owner: Option<usize>) -> Option<int> {
    match owner {
        Some(index) => Some(index as int),
        None => None,
    }
}

/// `taken` with the children of `value` taken too.
pub open spec fn claimed(taken: Seq<bool>, value: OtelLogValue) -> Seq<bool> {
    Seq::new(taken.len(), |i: int| taken[i] || value.claims(i))
}

/// What is wrong with a node's key, seen without its siblings.
pub open spec fn key_fault(node: OtelLogValueNode, role: NodeRole) -> Option<PoolFault> {
    match node.key.text() {
        Err(e) => Some(PoolFault::View(e)),
        Ok(key) => match role {
            NodeRole::ArrayElement => if key.len() > 0 {
                Some(PoolFault::ArrayKey)
            } else {
                None
            },
            NodeRole::MapEntry => if key.len() == 0 {
                Some(PoolFault::EmptyMapKey)
            } else if node.key.bytes->0@.len() > OTEL_LOG_MAX_STRING_LEN {
                Some(PoolFault::MapKeyTooLong)
            } else {
                None
            },
        },
    }
}

fn contains_text(items: &Vec<&str>, wanted: &str) -> (r: bool)
    ensures
        r == exists|j: int| 0 <= j < items@.len() && (#[trigger] items@[j])@ == wanted@,
{
    let mut i: usize = 0;
    while i < items.len()
        invariant
            i <= items.len(),
            forall|j: int| 0 <= j < i ==> (#[trigger] items@[j])@ != wanted@,
        decreases items.len() - i,
    {
        if same_text(items[i], wanted) {
            return true;
        }
        i += 1;
    }
    false
}

impl<'a> Validator<'a> {
    /// Which nodes are marked as referenced.
    pub open spec fn taken(self) -> Seq<bool> {
        Seq::new(self.info@.len(), |i: int| self.info@[i].referenced)
    }

    /// One entry of node facts per pool node.
    pub open spec fn wf(self) -> bool {
        self.info@.len() == self.nodes@.len()
    }

    pub fn new(nodes: &'a [OtelLogValueNode<'a>]) -> (r: Result<Self, PoolFault>)
        ensures
            r matches Ok(v) ==> v.wf() && v.nodes@ == nodes@ && (forall|i: int|
                0 <= i < nodes@.len() ==> #[trigger] v.info@[i] == (NodeInfo {
                    depth: 1,
                    referenced: false,
                })),
            r matches Err(e) ==> e matches PoolFault::ValidationMemory(failure) && failure.refused(
                nodes@.len(),
            ),
    {
        let mut info: Vec<NodeInfo> = Vec::new();
        match reserve(&mut info, nodes.len()) {
            Err(failure) => return Err(PoolFault::ValidationMemory(failure)),
            Ok(_) => {},
        }
        let mut i: usize = 0;
        while i < nodes.len()
            invariant
                i <= nodes.len(),
                info@.len() == i,
                forall|j: int| 0 <= j < i ==> #[trigger] info@[j] == (NodeInfo {
                    depth: 1,
                    referenced: false,
                }),
            decreases nodes.len() - i,
        {
            info.push(NodeInfo { depth: 1, referenced: false });
            i += 1;
        }
        Ok(Validator { nodes, info })
    }

    /// Checks one value's own fields: reserved word, tag and payload limits.
    pub fn check_value_scalar(&self, value: &OtelLogValue<'a>) -> (r: Result<
        OtelLogValueType,
        PoolFault,
    >)
        ensures
            r matches Ok(tag) ==> scalar_fault(*value) is None && value.kind() == Some(tag),
            r matches Err(e) ==> scalar_fault(*value) == Some(e),
    {
        if value.reserved != 0 {
            return Err(PoolFault::ValueReserved);
        }
        let tag = match OtelLogValueType::from_u32(value.value_type) {
            Some(tag) => tag,
            None => return Err(PoolFault::UnknownTag),
        };
        match tag {
            OtelLogValueType::Empty => return Err(PoolFault::EmptyValue),
            OtelLogValueType::String => match value.value.string_value.as_str() {
                Err(e) => return Err(PoolFault::View(e)),
                Ok(s) => {
                    if s.as_bytes().len() > OTEL_LOG_MAX_STRING_LEN {
                        return Err(PoolFault::StringTooLong);
                    }
                },
            },
            OtelLogValueType::Bytes => match value.value.bytes_value.bytes {
                None => return Err(PoolFault::View(AbiError::NullData)),
                Some(bytes) => {
                    if bytes.len() > OTEL_LOG_MAX_BYTES_LEN {
                        return Err(PoolFault::BytesTooLong);
                    }
                },
            },
            _ => {},
        }
        Ok(tag)
    }

    /// Claims the child range of a container: checks the element budget, the range, forward
    /// addressing for a pool node (`owner` is `None` for a root) and single ownership.
    pub fn claim_children(
        &mut self,
        tag: OtelLogValueType,
        value: &OtelLogValue<'a>,
        owner: Option<usize>,
    ) -> (r: Result<std::ops::Range<usize>, PoolFault>)
        requires
            old(self).wf(),
            value.kind() == Some(tag),
            value.is_container(),
        ensures
            final(self).wf(),
            final(self).nodes == old(self).nodes,
            forall|i: int|
                0 <= i < old(self).info@.len() ==> (#[trigger] final(self).info@[i]).depth == old(
                    self,
                ).info@[i].depth,
            r matches Ok(range) ==> claim_fault(*value, owner_index(owner), old(self).taken()) is None
                && final(self).taken() == claimed(old(self).taken(), *value) && (if value.count()
                == 0 {
                range.start == 0 && range.end == 0
            } else {
                range.start == value.first() && range.end == value.end()
            }),
            r matches Err(e) ==> claim_fault(*value, owner_index(owner), old(self).taken()) == Some(
                e,
            ),
    {
        let first: usize = value.value.children.first as usize;
        let count: usize = value.value.children.count as usize;
        let limit: usize = if tag == OtelLogValueType::KvMap {
            OTEL_LOG_MAX_MAP_ENTRIES
        } else {
            OTEL_LOG_MAX_ARRAY_ELEMENTS
        };
        if count > limit {
            return Err(PoolFault::ContainerTooLarge);
        }
        if count == 0 {
            assert(claimed(old(self).taken(), *value) =~= old(self).taken());
            return Ok(0..0);
        }
        let end: usize = match first.checked_add(count) {
            Some(end) => end,
            None => return Err(PoolFault::RangeOverflow),
        };
        if end > self.nodes.len() {
            return Err(PoolFault::RangeOutside);
        }
        if let Some(owner) = owner {
            if first <= owner {
                return Err(PoolFault::NotForward);
            }
        }
        let ghost before = self.taken();
        let mut index: usize = first;
        while index < end
            invariant
                self.wf(),
                self.nodes == old(self).nodes,
                first <= index <= end <= self.nodes@.len(),
                first == value.first(),
                end == value.end(),
                before == old(self).taken(),
                before.len() == self.nodes@.len(),
                value.count() > 0,
                value.count() <= element_limit(*value),
                owner_index(owner) matches Some(o) ==> value.first() > o,
                self.info@.len() == old(self).info@.len(),
                forall|i: int|
                    0 <= i < self.info@.len() ==> (#[trigger] self.info@[i]).depth == old(
                        self,
                    ).info@[i].depth,
                forall|i: int|
                    0 <= i < self.info@.len() ==> (#[trigger] self.info@[i]).referenced == (
                    before[i] || first <= i < index),
                forall|i: int| first <= i < index ==> !#[trigger] before[i],
            decreases end - index,
        {
            if self.info[index].referenced {
                assert(before[index as int]);
                return Err(PoolFault::Shared);
            }
            assert(!before[index as int]);
            let mut updated = self.info[index];
            updated.referenced = true;
            self.info.set(index, updated);
            index += 1;
        }
        assert(self.taken() =~= claimed(before, *value));
        Ok(first..end)
    }

    /// Checks the key of a pool node against its parent's kind and returns it where it must be
    /// distinct.
    pub fn check_child_key(&self, index: usize, role: NodeRole) -> (r: Result<
        Option<&'a str>,
        PoolFault,
    >)
        requires
            index < self.nodes@.len(),
        ensures
            r == Ok::<Option<&'a str>, PoolFault>(None) ==> role == NodeRole::ArrayElement
                && self.nodes@[index as int].key.text() == Ok::<Seq<char>, AbiError>(Seq::empty()),
            r matches Ok(Some(key)) ==> role == NodeRole::MapEntry
                && self.nodes@[index as int].key.text() == Ok::<Seq<char>, AbiError>(key@)
                && key_fault(self.nodes@[index as int], role) is None,
            r is Ok ==> key_fault(self.nodes@[index as int], role) is None,
            r matches Err(e) ==> key_fault(self.nodes@[index as int], role) == Some(e),
    {
        let key = match self.nodes[index].key.as_str() {
            Ok(key) => key,
            Err(e) => return Err(PoolFault::View(e)),
        };
        match role {
            NodeRole::ArrayElement => {
                if !key.is_empty() {
                    return Err(PoolFault::ArrayKey);
                }
                assert(key@ =~= Seq::<char>::empty());
                Ok(None)
            },
            NodeRole::MapEntry => {
                if key.is_empty() {
                    return Err(PoolFault::EmptyMapKey);
                }
                if key.as_bytes().len() > OTEL_LOG_MAX_STRING_LEN {
                    return Err(PoolFault::MapKeyTooLong);
                }
                Ok(Some(key))
            },
        }
    }

    /// Checks the keys over a claimed child range, for a map also that they are distinct.
    pub fn check_children(
        &self,
        tag: OtelLogValueType,
        value: &OtelLogValue<'a>,
        range: std::ops::Range<usize>,
    ) -> (r: Result<(), PoolFault>)
        requires
            value.kind() == Some(tag),
            value.is_container(),
            value.count() == 0 ==> range.start == range.end,
            value.count() > 0 ==> range.start == value.first() && range.end == value.end()
                && value.end() <= self.nodes@.len(),
        ensures
            r is Ok ==> children_fault(self.nodes@, *value, value.first()) is None,
            r matches Err(e) ==> if e.is_memory() {
                keys_refused(*value, e)
            } else {
                children_fault(self.nodes@, *value, value.first()) == Some(e)
            },
    {
        let role = if tag == OtelLogValueType::KvMap {
            NodeRole::MapEntry
        } else {
            NodeRole::ArrayElement
        };
        let mut seen: Vec<&'a str> = Vec::new();
        if role == NodeRole::MapEntry {
            match reserve(&mut seen, range.end - range.start) {
                Err(failure) => return Err(PoolFault::MapKeyMemory(failure)),
                Ok(_) => {},
            }
        }
        let mut index: usize = range.start;
        while index < range.end
            invariant
                value.count() == 0 ==> index == range.end,
                value.count() > 0 ==> range.start == value.first() && range.end == value.end()
                    && value.end() <= self.nodes@.len(),
                range.start <= index <= range.end,
                value.kind() == Some(tag),
                role == (if tag == OtelLogValueType::KvMap {
                    NodeRole::MapEntry
                } else {
                    NodeRole::ArrayElement
                }),
                role == NodeRole::MapEntry ==> seen@.len() == index - range.start && forall|j: int|
                    0 <= j < seen@.len() ==> self.nodes@[range.start + j].key.text() == Ok::<
                        Seq<char>,
                        AbiError,
                    >((#[trigger] seen@[j])@),
                value.count() > 0 ==> children_fault(self.nodes@, *value, value.first())
                    == children_fault(self.nodes@, *value, index as int),
            decreases range.end - index,
        {
            match self.check_child_key(index, role) {
                Err(e) => {
                    assert(child_fault(self.nodes@, *value, index as int) == Some(e));
                    return Err(e);
                },
                Ok(None) => {},
                Ok(Some(key)) => {
                    if contains_text(&seen, key) {
                        proof {
                            let j = choose|j: int| 0 <= j < seen@.len() && seen@[j]@ == key@;
                            assert(self.nodes@[range.start + j].key.text()
                                == self.nodes@[index as int].key.text());
                            assert(repeats_key(self.nodes@, value.first(), index as int));
                        }
                        return Err(PoolFault::DuplicateKey);
                    }
                    proof {
                        if repeats_key(self.nodes@, value.first(), index as int) {
                            let j = choose|j: int|
                                value.first() <= j < index && #[trigger] self.nodes@[j].key.text()
                                    == self.nodes@[index as int].key.text();
                            let k = j - range.start;
                            assert(self.nodes@[range.start + k].key.text() == Ok::<
                                Seq<char>,
                                AbiError,
                            >(seen@[k]@));
                            assert(seen@[k]@ == key@);
                        }
                    }
                    seen.push(key);
                },
            }
            assert(child_fault(self.nodes@, *value, index as int) is None);
            index += 1;
        }
        Ok(())
    }

    /// Height of the tree under a root.
    pub fn root_depth(&self, root: &OtelLogValue<'a>) -> (r: u32)
        requires
            self.wf(),
            self.nodes@.len() < u32::MAX,
            root.is_container() ==> root.addresses(-1, self.nodes@.len()),
            forall|i: int|
                0 <= i < self.nodes@.len() ==> (#[trigger] self.info@[i]).depth == value_depth(
                    self.nodes@,
                    self.nodes@[i].value,
                    i,
                ),
        ensures
            r == value_depth(self.nodes@, *root, -1),
    {
        match OtelLogValueType::from_u32(root.value_type) {
            Some(OtelLogValueType::Array) => {},
            Some(OtelLogValueType::KvMap) => {},
            _ => return 1,
        }
        self.children_depth(root)
    }

    /// One more than the greatest depth among the children of a container.
    fn children_depth(&self, value: &OtelLogValue<'a>) -> (r: u32)
        requires
            self.wf(),
            self.nodes@.len() < u32::MAX,
            value.addresses(-1, self.nodes@.len()),
            value.count() > 0 ==> forall|i: int|
                value.first() <= i < self.nodes@.len() ==> (#[trigger] self.info@[i]).depth
                    == value_depth(self.nodes@, self.nodes@[i].value, i),
        ensures
            r == 1 + (if value.count() > 0 {
                deepest(self.nodes@, value.first(), value.end())
            } else {
                0
            }),
    {
        let first: usize = value.value.children.first as usize;
        let count: usize = value.value.children.count as usize;
        if count == 0 {
            return 1;
        }
        let end: usize = first + count;
        let mut child_depth: u32 = 0;
        let mut child: usize = first;
        while child < end
            invariant
                self.wf(),
                first <= child <= end <= self.nodes@.len(),
                self.nodes@.len() < u32::MAX,
                first == value.first(),
                forall|i: int|
                    value.first() <= i < self.nodes@.len() ==> (#[trigger] self.info@[i]).depth
                        == value_depth(self.nodes@, self.nodes@[i].value, i),
                deepest(self.nodes@, first as int, end as int) == (if child_depth >= deepest(
                    self.nodes@,
                    child as int,
                    end as int,
                ) {
                    child_depth as nat
                } else {
                    deepest(self.nodes@, child as int, end as int)
                }),
            decreases end - child,
        {
            let depth: u32 = self.info[child].depth;
            if depth > child_depth {
                child_depth = depth;
            }
            child += 1;
        }
        proof {
            lemma_deepest_bound(self.nodes@, first as int, end as int);
        }
        child_depth + 1
    }

    /// The structural pass over the whole pool and the record's roots.
    pub fn validate(&mut self, roots: &[OtelLogValue<'a>]) -> (r: Result<(), PoolFault>)
        requires
            old(self).wf(),
            old(self).nodes@.len() < u32::MAX,
            forall|i: int|
                0 <= i < old(self).nodes@.len() ==> #[trigger] old(self).info@[i] == (NodeInfo {
                    depth: 1,
                    referenced: false,
                }),
        ensures
            final(self).nodes == old(self).nodes,
            r is Ok ==> pool_fault(old(self).nodes@, roots@) is None,
            r matches Err(e) ==> if e.is_memory() {
                validation_refused(old(self).nodes@, roots@, e)
            } else {
                pool_fault(old(self).nodes@, roots@) == Some(e)
            },
    {
        let ghost nodes = self.nodes@;
        let ghost total = (nodes.len() + roots@.len()) as int;
        assert(self.taken() =~= taken_after(nodes, roots@, 0));
        let mut index: usize = 0;
        while index < self.nodes.len()
            invariant
                self.wf(),
                self.nodes == old(self).nodes,
                nodes == self.nodes@,
                index <= nodes.len(),
                self.taken() == taken_after(nodes, roots@, index as int),
                forall|i: int| 0 <= i < nodes.len() ==> (#[trigger] self.info@[i]).depth == 1,
                first_step_fault(nodes, roots@, 0) == first_step_fault(
                    nodes,
                    roots@,
                    index as int,
                ),
                forall|k: int| 0 <= k < index ==> #[trigger] step_fault(nodes, roots@, k) is None,
            decreases nodes.len() - index,
        {
            let value = self.nodes[index].value;
            assert(value == visited(nodes, roots@, index as int));
            match self.visit(&value, Some(index), Ghost(roots@), Ghost(index as int)) {
                Ok(_) => {},
                Err(e) => {
                    assert(step_refused(nodes, roots@, index as int, e) ==> refused_at(
                        nodes,
                        roots@,
                        index as int,
                        e,
                    ));
                    return Err(e);
                },
            }
            index += 1;
        }
        let mut root: usize = 0;
        while root < roots.len()
            invariant
                self.wf(),
                self.nodes == old(self).nodes,
                nodes == self.nodes@,
                root <= roots@.len(),
                self.taken() == taken_after(nodes, roots@, nodes.len() + root),
                forall|i: int| 0 <= i < nodes.len() ==> (#[trigger] self.info@[i]).depth == 1,
                first_step_fault(nodes, roots@, 0) == first_step_fault(
                    nodes,
                    roots@,
                    nodes.len() + root,
                ),
                forall|k: int|
                    0 <= k < nodes.len() + root ==> #[trigger] step_fault(nodes, roots@, k) is None,
            decreases roots@.len() - root,
        {
            let value = roots[root];
            assert(value == visited(nodes, roots@, nodes.len() + root));
            match self.visit(&value, None, Ghost(roots@), Ghost(nodes.len() + root)) {
                Ok(_) => {},
                Err(e) => {
                    assert(step_refused(nodes, roots@, nodes.len() + root, e) ==> refused_at(
                        nodes,
                        roots@,
                        nodes.len() + root,
                        e,
                    ));
                    return Err(e);
                },
            }
            root += 1;
        }
        let ghost taken = taken_after(nodes, roots@, total);
        let mut free: usize = 0;
        while free < self.info.len()
            invariant
                self.wf(),
                self.nodes == old(self).nodes,
                nodes == self.nodes@,
                free <= nodes.len(),
                self.taken() == taken,
                taken == taken_after(nodes, roots@, (nodes.len() + roots@.len()) as int),
                first_step_fault(nodes, roots@, 0) is None,
                first_free(taken, 0) == first_free(taken, free as int),
            decreases nodes.len() - free,
        {
            assert(self.taken()[free as int] == self.info@[free as int].referenced);
            if !self.info[free].referenced {
                return Err(PoolFault::Unreferenced(free));
            }
            free += 1;
        }
        let mut index: usize = self.nodes.len();
        while index > 0
            invariant
                self.wf(),
                self.nodes == old(self).nodes,
                nodes == self.nodes@,
                index <= nodes.len(),
                nodes.len() < u32::MAX,
                forall|k: int| 0 <= k < nodes.len() ==> step_fault(nodes, roots@, k) is None,
                forall|i: int| 0 <= i < index ==> (#[trigger] self.info@[i]).depth == 1,
                forall|i: int|
                    index <= i < nodes.len() ==> (#[trigger] self.info@[i]).depth == value_depth(
                        nodes,
                        nodes[i].value,
                        i,
                    ),
            decreases index,
        {
            index -= 1;
            let value = self.nodes[index].value;
            proof {
                assert(step_fault(nodes, roots@, index as int) is None);
                lemma_taken_len(nodes, roots@, index as int);
            }
            let is_container = match OtelLogValueType::from_u32(value.value_type) {
                Some(OtelLogValueType::Array) => true,
                Some(OtelLogValueType::KvMap) => true,
                _ => false,
            };
            if is_container {
                let depth: u32 = self.children_depth(&value);
                let mut updated = self.info[index];
                updated.depth = depth;
                self.info.set(index, updated);
            }
        }
        let mut root: usize = 0;
        while root < roots.len()
            invariant
                self.wf(),
                self.nodes == old(self).nodes,
                nodes == self.nodes@,
                root <= roots@.len(),
                nodes.len() < u32::MAX,
                total == nodes.len() + roots@.len(),
                first_step_fault(nodes, roots@, 0) is None,
                first_free(taken_after(nodes, roots@, total), 0) is None,
                forall|k: int| 0 <= k < total ==> step_fault(nodes, roots@, k) is None,
                forall|i: int|
                    0 <= i < nodes.len() ==> (#[trigger] self.info@[i]).depth == value_depth(
                        nodes,
                        nodes[i].value,
                        i,
                    ),
                forall|j: int|
                    0 <= j < root ==> value_depth(nodes, #[trigger] roots@[j], -1)
                        <= OTEL_LOG_MAX_VALUE_DEPTH,
            decreases roots@.len() - root,
        {
            proof {
                assert(step_fault(nodes, roots@, nodes.len() + root) is None);
                lemma_taken_len(nodes, roots@, nodes.len() + root);
                assert(visited(nodes, roots@, nodes.len() + root) == roots@[root as int]);
            }
            let depth: u32 = self.root_depth(&roots[root]);
            if depth as usize > OTEL_LOG_MAX_VALUE_DEPTH {
                assert(value_depth(nodes, roots@[root as int], -1) > OTEL_LOG_MAX_VALUE_DEPTH);
                return Err(PoolFault::TooDeep);
            }
            root += 1;
        }
        Ok(())
    }

    /// Checks the `k`-th visited value and claims its children.
    fn visit(
        &mut self,
        value: &OtelLogValue<'a>,
        owner: Option<usize>,
        Ghost(roots): Ghost<Seq<OtelLogValue<'a>>>,
        Ghost(k): Ghost<int>,
    ) -> (r: Result<(), PoolFault>)
        requires
            old(self).wf(),
            0 <= k < old(self).nodes@.len() + roots.len(),
            *value == visited(old(self).nodes@, roots, k),
            owner_index(owner) == (if k < old(self).nodes@.len() {
                Some(k)
            } else {
                None
            }),
            old(self).taken() == taken_after(old(self).nodes@, roots, k),
        ensures
            final(self).wf(),
            final(self).nodes == old(self).nodes,
            forall|i: int|
                0 <= i < old(self).info@.len() ==> (#[trigger] final(self).info@[i]).depth == old(
                    self,
                ).info@[i].depth,
            r is Ok ==> step_fault(old(self).nodes@, roots, k) is None && final(self).taken()
                == taken_after(old(self).nodes@, roots, k + 1),
            r matches Err(e) ==> if e.is_memory() {
                step_refused(old(self).nodes@, roots, k, e)
            } else {
                step_fault(old(self).nodes@, roots, k) == Some(e)
            },
    {
        let tag = self.check_value_scalar(value)?;
        if tag == OtelLogValueType::Array || tag == OtelLogValueType::KvMap {
            let range = self.claim_children(tag, value, owner)?;
            self.check_children(tag, value, range)?;
        }
        assert(self.taken() =~= taken_after(self.nodes@, roots, k + 1));
        Ok(())
    }
}

} // verus!
