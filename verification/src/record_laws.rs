//! What emitting and exporting a log record keeps: every field, time, text and value shows where it
//! was given, from the view of the caller to the view of the exporter.

use vstd::prelude::*;
use vstd::utf8::encode_utf8;

use crate::abi::{OtelArrayView, OtelStatus};
use crate::custom_log_exporter::{CustomLogExporter, LogExportStep};
use crate::error::ErrorState;
use crate::export_error::ConversionError;
use crate::key_order::{sort_entries, sorting_orders_and_keeps_entries};
use crate::log_convert::{lemma_accepted, lemma_forward};
use crate::log_emit::{
    all_zero, attributes_fault, emit_record, logger_emit, logger_enabled, record_fault, LogRecord,
    OtelLogRecordView, RecordFault, RepresentableTimes,
};
use crate::log_export::{
    convert_batch, convert_record, convert_scope, timestamp_nanos, BatchEntry, ExportViewSizes,
    ExportedRecord, InstrumentationScope, OtelLogExportBatchView, OtelLogExportRecordView,
    OtelLogExportScopeView, Resource,
};
use crate::log_flatten::{
    item_children, item_fault, lemma_children_fit, queued, sorted_tree, sorted_values,
    source_item, work_fault, Array, Item, Source, Value,
};
use crate::log_laws::accepted_children_have_fitting_keys;
use crate::log_severity::{
    log_severity_is_valid, severity_from_u32, severity_number, Severity,
};
use crate::log_validate::{pool_fault, scalar_fault, visited};
use crate::log_value::{
    key_text, tree_of, AnyValue, OtelLogValue, OtelLogValueNode, ValueTree,
    OTEL_LOG_MAX_VALUE_NODES,
};
use crate::metric_laws::{reads, reads_optional};
use crate::text::{bytes_less, text_less};
use crate::time::SystemTime;

verus! {

/// The first byte string sorts before the second: they agree up to a place where the first ends or
/// has the lesser byte.
pub open spec fn comes_before(a: Seq<u8>, b: Seq<u8>) -> bool {
    exists|d: int| #[trigger] differs_at(a, b, d)
}

/// The byte strings agree up to `d`, where the first ends or has the lesser byte.
pub open spec fn differs_at(a: Seq<u8>, b: Seq<u8>, d: int) -> bool {
    &&& 0 <= d <= a.len()
    &&& d < b.len()
    &&& forall|k: int| 0 <= k < d ==> #[trigger] a[k] == b[k]
    &&& d == a.len() || a[d] < b[d]
}

proof fn lemma_comes_before(a: Seq<u8>, b: Seq<u8>)
    ensures
        bytes_less(a, b) == comes_before(a, b),
    decreases a.len(),
{
    if b.len() == 0 {
    } else if a.len() == 0 {
        assert(differs_at(a, b, 0));
    } else if a[0] != b[0] {
        if a[0] < b[0] {
            assert(differs_at(a, b, 0));
        } else if comes_before(a, b) {
            let d = choose|d: int| #[trigger] differs_at(a, b, d);
            if d > 0 {
                assert(a[0] == b[0]);
            }
        }
    } else {
        let x = a.drop_first();
        let y = b.drop_first();
        lemma_comes_before(x, y);
        if comes_before(x, y) {
            let d = choose|d: int| #[trigger] differs_at(x, y, d);
            assert forall|k: int| 0 <= k < d + 1 implies #[trigger] a[k] == b[k] by {
                if k > 0 {
                    assert(x[k - 1] == y[k - 1]);
                }
            }
            assert(differs_at(a, b, d + 1));
        }
        if comes_before(a, b) {
            let d = choose|d: int| #[trigger] differs_at(a, b, d);
            assert(d > 0);
            assert forall|k: int| 0 <= k < d - 1 implies #[trigger] x[k] == y[k] by {
                assert(a[k + 1] == b[k + 1]);
            }
            assert(differs_at(x, y, d - 1));
        }
    }
}

/// Texts are ordered by their bytes.
pub proof fn texts_are_ordered_by_bytes(a: &str, b: &str, r: bool)
    requires
        call_ensures(text_less, (a, b), r),
    ensures
        r <==> comes_before(encode_utf8(a@), encode_utf8(b@)),
{
    lemma_comes_before(encode_utf8(a@), encode_utf8(b@));
}

/// Child `i` of a container.
pub open spec fn child<'a>(
    nodes: Seq<OtelLogValueNode<'a>>,
    value: OtelLogValue<'a>,
    i: int,
) -> OtelLogValueNode<'a> {
    nodes[value.value.children.first + i]
}

/// The node has this key; one that cannot be read counts as empty.
pub open spec fn has_key(node: OtelLogValueNode, key: Seq<char>) -> bool {
    match node.key.text() {
        Ok(text) => text == key,
        Err(_) => key.len() == 0,
    }
}

/// The container has so many children, all of them in the pool.
pub open spec fn has_children(
    nodes: Seq<OtelLogValueNode>,
    value: OtelLogValue,
    count: nat,
) -> bool {
    &&& value.value.children.count == count
    &&& count > 0 ==> value.value.children.first + count <= nodes.len()
}

/// The owned value is what the value says over the pool: the tag tells the kind and which slot
/// counts, and containers have their children in order, those of maps under their keys.
pub open spec fn is_owned_as(
    nodes: Seq<OtelLogValueNode>,
    value: OtelLogValue,
    owned: AnyValue,
) -> bool
    decreases owned,
{
    match owned {
        AnyValue::String(text) => value.value_type == 1 && reads(value.value.string_value, text@),
        AnyValue::Boolean(truth) => value.value_type == 2 && (value.value.bool_value != 0) == truth,
        AnyValue::Int(number) => value.value_type == 3 && value.value.int64_value == number,
        AnyValue::Double(bits) => value.value_type == 4 && value.value.double_value == bits,
        AnyValue::Bytes(bytes) => value.value_type == 5 && (value.value.bytes_value.bytes matches Some(
            given,
        ) && given@ == bytes@),
        AnyValue::ListAny(items) => {
            &&& value.value_type == 6
            &&& has_children(nodes, value, items@.len())
            &&& forall|i: int|
                0 <= i < items@.len() ==> is_owned_as(
                    nodes,
                    (#[trigger] child(nodes, value, i)).value,
                    items@[i],
                )
        },
        AnyValue::KvMap(entries) => {
            &&& value.value_type == 7
            &&& has_children(nodes, value, entries@.len())
            &&& forall|i: int|
                0 <= i < entries@.len() ==> reads(
                    (#[trigger] child(nodes, value, i)).key,
                    entries@[i].0@,
                ) && is_owned_as(nodes, child(nodes, value, i).value, entries@[i].1)
        },
        AnyValue::Unknown => false,
    }
}

/// The value shows the owned one over the pool: the tag tells the kind and which slot counts, lists
/// have their elements in order, and maps have an entry for each of theirs, in ascending order of
/// the bytes of their keys.
pub open spec fn shows_owned(
    nodes: Seq<OtelLogValueNode>,
    value: OtelLogValue,
    owned: AnyValue,
) -> bool
    decreases owned,
{
    match owned {
        AnyValue::String(text) => value.value_type == 1 && reads(value.value.string_value, text@),
        AnyValue::Boolean(truth) => value.value_type == 2 && (value.value.bool_value != 0) == truth,
        AnyValue::Int(number) => value.value_type == 3 && value.value.int64_value == number,
        AnyValue::Double(bits) => value.value_type == 4 && value.value.double_value == bits,
        AnyValue::Bytes(bytes) => value.value_type == 5 && (value.value.bytes_value.bytes matches Some(
            shown,
        ) && shown@ == bytes@),
        AnyValue::ListAny(items) => {
            &&& value.value_type == 6
            &&& has_children(nodes, value, items@.len())
            &&& forall|i: int|
                0 <= i < items@.len() ==> shows_owned(
                    nodes,
                    (#[trigger] child(nodes, value, i)).value,
                    items@[i],
                )
        },
        AnyValue::KvMap(entries) => {
            &&& value.value_type == 7
            &&& has_children(nodes, value, entries@.len())
            &&& forall|i: int|
                0 <= i < entries@.len() ==> exists|c: int|
                    0 <= c < entries@.len() && has_key(
                        #[trigger] child(nodes, value, c),
                        (#[trigger] entries@[i]).0@,
                    ) && shows_owned(nodes, child(nodes, value, c).value, entries@[i].1)
            &&& forall|c: int, d: int|
                0 <= c < d < entries@.len() ==> !comes_before(
                    encode_utf8(key_text(#[trigger] child(nodes, value, d))),
                    encode_utf8(key_text(#[trigger] child(nodes, value, c))),
                )
        },
        AnyValue::Unknown => false,
    }
}

/// The value shows the attribute value over the pool.
pub open spec fn shows_attribute(
    nodes: Seq<OtelLogValueNode>,
    value: OtelLogValue,
    attribute: Value,
) -> bool {
    match attribute {
        Value::String(text) => value.value_type == 1 && reads(value.value.string_value, text@),
        Value::Bool(truth) => value.value_type == 2 && (value.value.bool_value != 0) == truth,
        Value::I64(number) => value.value_type == 3 && value.value.int64_value == number,
        Value::F64(bits) => value.value_type == 4 && value.value.double_value == bits,
        Value::Array(Array::String(texts)) => value.value_type == 6 && has_children(
            nodes,
            value,
            texts@.len(),
        ) && forall|i: int|
            0 <= i < texts@.len() ==> (#[trigger] child(nodes, value, i)).value.value_type == 1
                && reads(child(nodes, value, i).value.value.string_value, texts@[i]@),
        Value::Array(Array::Bool(truths)) => value.value_type == 6 && has_children(
            nodes,
            value,
            truths@.len(),
        ) && forall|i: int|
            0 <= i < truths@.len() ==> (#[trigger] child(nodes, value, i)).value.value_type == 2 && (
            child(nodes, value, i).value.value.bool_value != 0) == truths@[i],
        Value::Array(Array::I64(numbers)) => value.value_type == 6 && has_children(
            nodes,
            value,
            numbers@.len(),
        ) && forall|i: int|
            0 <= i < numbers@.len() ==> (#[trigger] child(nodes, value, i)).value.value_type == 3
                && child(nodes, value, i).value.value.int64_value == numbers@[i],
        Value::Array(Array::F64(bits)) => value.value_type == 6 && has_children(
            nodes,
            value,
            bits@.len(),
        ) && forall|i: int|
            0 <= i < bits@.len() ==> (#[trigger] child(nodes, value, i)).value.value_type == 4
                && child(nodes, value, i).value.value.double_value == bits@[i],
        _ => false,
    }
}

/// The value has nothing wrong with itself, and its children are readable and beyond it.
spec fn readable(nodes: Seq<OtelLogValueNode>, value: OtelLogValue, floor: int) -> bool {
    &&& scalar_fault(value) is None
    &&& value.is_container() ==> value.addresses(floor, nodes.len()) && forall|c: int|
        #[trigger] value.claims(c) ==> nodes[c].key.text() is Ok
}

proof fn lemma_readable(nodes: Seq<OtelLogValueNode>, roots: Seq<OtelLogValue>, k: int)
    requires
        pool_fault(nodes, roots) is None,
        0 <= k < nodes.len() + roots.len(),
    ensures
        readable(
            nodes,
            visited(nodes, roots, k),
            if k < nodes.len() {
                k
            } else {
                -1
            },
        ),
{
    let value = visited(nodes, roots, k);
    lemma_accepted(nodes, roots, k);
    lemma_forward(nodes, roots, k);
    if value.is_container() {
        assert forall|c: int| #[trigger] value.claims(c) implies nodes[c].key.text() is Ok by {
            accepted_children_have_fitting_keys(nodes, roots, k, c, c);
        }
    }
}

/// A readable value that denotes the tree of an owned one is that one.
proof fn lemma_owned(
    nodes: Seq<OtelLogValueNode>,
    value: OtelLogValue,
    floor: int,
    owned: AnyValue,
)
    requires
        tree_of(nodes, value, floor) == owned.tree(),
        readable(nodes, value, floor),
        forall|i: int| 0 <= i < nodes.len() ==> readable(nodes, #[trigger] nodes[i].value, i),
        floor >= -1,
    ensures
        is_owned_as(nodes, value, owned),
    decreases owned,
{
    match owned {
        AnyValue::ListAny(items) => {
            let given = tree_of(nodes, value, floor)->List_0;
            let kept = owned.tree()->List_0;
            assert(given.len() == value.count());
            assert(kept.len() == items@.len());
            assert forall|i: int| 0 <= i < items@.len() implies is_owned_as(
                nodes,
                (#[trigger] child(nodes, value, i)).value,
                items@[i],
            ) by {
                let at = value.first() + i;
                assert(given[i] == tree_of(nodes, nodes[at].value, at));
                assert(kept[i] == items@[i].tree());
                lemma_owned(nodes, nodes[at].value, at, items@[i]);
            }
        },
        AnyValue::KvMap(entries) => {
            let given = tree_of(nodes, value, floor)->Entries_0;
            let kept = owned.tree()->Entries_0;
            assert(given.len() == value.count());
            assert(kept.len() == entries@.len());
            assert forall|i: int| 0 <= i < entries@.len() implies reads(
                (#[trigger] child(nodes, value, i)).key,
                entries@[i].0@,
            ) && is_owned_as(nodes, child(nodes, value, i).value, entries@[i].1) by {
                let at = value.first() + i;
                assert(given[i] == (
                    key_text(nodes[at]),
                    tree_of(nodes, nodes[at].value, at),
                ));
                assert(kept[i] == (entries@[i].0@, entries@[i].1.tree()));
                assert(value.claims(at));
                lemma_owned(nodes, nodes[at].value, at, entries@[i].1);
            }
        },
        _ => {},
    }
}

/// The attribute has the key and the value of the owned one.
pub open spec fn owns_attribute(
    nodes: Seq<OtelLogValueNode>,
    attribute: OtelLogValueNode,
    owned: (String, AnyValue),
) -> bool {
    reads(attribute.key, owned.0@) && is_owned_as(nodes, attribute.value, owned.1)
}

/// The record has the times, the severity and the trace context of the view, each exactly where the
/// view marks it as present.
pub open spec fn keeps_header(record: LogRecord, view: OtelLogRecordView) -> bool {
    &&& record.timestamp_unix_nanos is Some <==> view.present_fields & 1 != 0
    &&& record.timestamp_unix_nanos matches Some(nanos) ==> nanos == view.timestamp_unix_nanos
    &&& record.observed_timestamp_unix_nanos is Some <==> view.present_fields & 2 != 0
    &&& record.observed_timestamp_unix_nanos matches Some(nanos) ==> nanos
        == view.observed_timestamp_unix_nanos
    &&& record.severity is Some <==> view.severity_number != 0
    &&& record.severity matches Some(severity) ==> rank(severity) == view.severity_number
    &&& record.severity_text is Some <==> view.severity_number != 0
    &&& record.trace_context is Some <==> view.present_fields & 4 != 0
    &&& record.trace_context matches Some(context) ==> {
        &&& context.trace_id@ == view.trace_context.trace_id@
        &&& context.span_id@ == view.trace_context.span_id@
        &&& context.trace_flags == view.trace_context.trace_flags
    }
}

/// The record has the body and the attributes of the view, over the pool of the view.
pub open spec fn keeps_values(record: LogRecord, view: OtelLogRecordView) -> bool {
    let nodes = view.value_nodes.items();
    let attributes = view.attributes.items();
    &&& record.body is Some <==> view.body.value_type != 0
    &&& record.body matches Some(body) ==> is_owned_as(nodes, view.body, body)
    &&& record.attributes@.len() == attributes.len()
    &&& forall|i: int|
        0 <= i < attributes.len() ==> owns_attribute(
            nodes,
            attributes[i],
            #[trigger] record.attributes@[i],
        )
}

/// A record that is emitted says what its view says: each time, the severity, the trace context,
/// the body and every attribute are those of the view.
pub proof fn emitted_records_say_what_was_given<'a>(
    view: &OtelLogRecordView<'a>,
    times: RepresentableTimes,
    record: LogRecord,
)
    requires
        call_ensures(emit_record, (view, times), Ok::<LogRecord, RecordFault>(record)),
    ensures
        keeps_header(record, *view),
        keeps_values(record, *view),
{
    let nodes = view.value_nodes.items();
    let roots = view.roots();
    let attributes = view.attributes.items();
    assert forall|i: int| 0 <= i < nodes.len() implies readable(
        nodes,
        #[trigger] nodes[i].value,
        i,
    ) by {
        lemma_readable(nodes, roots, i);
    }
    if view.body_present() {
        assert(roots[0] == view.body);
        lemma_readable(nodes, roots, nodes.len() as int);
        lemma_owned(nodes, view.body, -1, record.body->0);
    }
    assert forall|i: int| 0 <= i < attributes.len() implies owns_attribute(
        nodes,
        attributes[i],
        #[trigger] record.attributes@[i],
    ) by {
        let r: int = if view.body_present() {
            i + 1
        } else {
            i
        };
        assert(roots[r] == attributes[i].value);
        lemma_readable(nodes, roots, nodes.len() + r);
        lemma_owned(nodes, attributes[i].value, -1, record.attributes@[i].1);
        lemma_attribute_keys(attributes, 0, i);
    }
}

/// Every attribute of a record whose keys have no fault has a readable key with text, within the
/// limit.
proof fn lemma_attribute_keys(attributes: Seq<OtelLogValueNode>, from: int, i: int)
    requires
        0 <= from <= i < attributes.len(),
        attributes_fault(attributes, from) is None,
    ensures
        attributes[i].key.text() matches Ok(key) && key.len() > 0,
        attributes[i].key.bytes matches Some(bytes) && bytes@.len() <= 1_048_576,
    decreases i - from,
{
    if from < i {
        lemma_attribute_keys(attributes, from + 1, i);
    }
}

/// The same holds of a record that a logger takes.
pub proof fn logged_records_say_what_was_given<'a>(
    errors: &mut ErrorState,
    view: &OtelLogRecordView<'a>,
    view_size: u64,
    times: RepresentableTimes,
    record: LogRecord,
)
    requires
        call_ensures(
            logger_emit,
            (errors, true, Some(view), view_size, times),
            Ok::<LogRecord, OtelStatus>(record),
        ),
    ensures
        view.struct_size >= view_size,
        keeps_header(record, *view),
        keeps_values(record, *view),
        *final(errors) == *old(errors),
{
    let nodes = view.value_nodes.items();
    let roots = view.roots();
    let attributes = view.attributes.items();
    assert forall|i: int| 0 <= i < nodes.len() implies readable(
        nodes,
        #[trigger] nodes[i].value,
        i,
    ) by {
        lemma_readable(nodes, roots, i);
    }
    if view.body_present() {
        assert(roots[0] == view.body);
        lemma_readable(nodes, roots, nodes.len() as int);
        lemma_owned(nodes, view.body, -1, record.body->0);
    }
    assert forall|i: int| 0 <= i < attributes.len() implies owns_attribute(
        nodes,
        attributes[i],
        #[trigger] record.attributes@[i],
    ) by {
        let r: int = if view.body_present() {
            i + 1
        } else {
            i
        };
        assert(roots[r] == attributes[i].value);
        lemma_readable(nodes, roots, nodes.len() + r);
        lemma_owned(nodes, attributes[i].value, -1, record.attributes@[i].1);
        lemma_attribute_keys(attributes, 0, i);
    }
}

/// A logger takes nothing without a context, a view or its full size, and says that the argument is
/// to blame.
pub proof fn loggers_need_a_context_and_a_view<'a>(
    errors: &mut ErrorState,
    logger_present: bool,
    view: Option<&OtelLogRecordView<'a>>,
    view_size: u64,
    times: RepresentableTimes,
    r: Result<LogRecord, OtelStatus>,
)
    requires
        call_ensures(logger_emit, (errors, logger_present, view, view_size, times), r),
        !logger_present || view is None || view->0.struct_size < view_size,
    ensures
        r matches Err(status) && status == OtelStatus::InvalidArgument,
        final(errors).last_status == OtelStatus::InvalidArgument,
{
}

/// The fixed part of the view is in order: nothing reserved is used, only known fields are present,
/// the severity is on the scale, and the arrays are within their limits and not missing.
pub open spec fn header_in_order(view: OtelLogRecordView) -> bool {
    &&& view.reserved_flags == 0
    &&& view.body.reserved == 0
    &&& view.reserved@[0] == 0 && view.reserved@[1] == 0 && view.reserved@[2] == 0
        && view.reserved@[3] == 0
    &&& view.present_fields <= 7
    &&& view.severity_number <= 24
    &&& array_in_order(view.attributes, 1024)
    &&& array_in_order(view.value_nodes, 8192)
}

/// The array has at most so many elements, and is not missing where it has some.
pub open spec fn array_in_order<T>(array: OtelArrayView<T>, limit: int) -> bool {
    match array {
        OtelArrayView::Null(count) => count == 0,
        OtelArrayView::Data(items) => items@.len() <= limit,
    }
}

/// The key of an attribute is in order: readable, not empty and at most a mebibyte long.
pub open spec fn key_in_order(attribute: OtelLogValueNode) -> bool {
    &&& attribute.key.text() matches Ok(key) && key.len() > 0
    &&& attribute.key.bytes matches Some(bytes) && bytes@.len() <= 1_048_576
}

/// The trace context is in order: nothing reserved is used, only the two known flags are set, and
/// neither identifier is all zero.
pub open spec fn trace_in_order(view: OtelLogRecordView) -> bool {
    let context = view.trace_context;
    &&& forall|i: int| 0 <= i < 7 ==> #[trigger] context.reserved@[i] == 0
    &&& context.trace_flags <= 3
    &&& exists|i: int| 0 <= i < 16 && #[trigger] context.trace_id@[i] != 0
    &&& exists|i: int| 0 <= i < 8 && #[trigger] context.span_id@[i] != 0
}

/// What a record says apart from its values is in order: its fixed part, its times and its trace
/// context, as far as they are present.
pub open spec fn bare_order(view: OtelLogRecordView, times: RepresentableTimes) -> bool {
    &&& header_in_order(view)
    &&& view.present_fields & 1 != 0 ==> times.timestamp
    &&& view.present_fields & 2 != 0 ==> times.observed_timestamp
    &&& view.present_fields & 4 != 0 ==> trace_in_order(view)
}

/// A record with acceptable keys and values is accepted exactly when the rest of it is in order.
pub proof fn lemma_bare_order(view: OtelLogRecordView, times: RepresentableTimes)
    ensures
        bare_order(view, times) && attributes_fault(view.attributes.items(), 0) is None && pool_fault(
            view.value_nodes.items(),
            view.roots(),
        ) is None <==> record_fault(view, times) is None,
{
    let fields = view.present_fields;
    let context = view.trace_context;
    let flags = context.trace_flags;
    assert(fields & !7u64 == 0 <==> fields <= 7) by (bit_vector);
    assert(flags & !3u8 == 0 <==> flags <= 3) by (bit_vector);
    lemma_reserved(view);
    if bare_order(view, times) && fields & 4 != 0 {
        assert forall|i: int| 0 <= i < context.reserved@.len() implies #[trigger]
            context.reserved@[i] == 0 by {}
    }
}

/// The key of an attribute is in order exactly when it has no fault.
pub proof fn lemma_key_in_order(attribute: OtelLogValueNode)
    ensures
        key_in_order(attribute) <==> crate::log_emit::attribute_fault(attribute) is None,
{
}

/// A record is emitted only where everything that it says is in order: its fixed part, its keys,
/// its times and its trace context.
pub proof fn emitted_records_are_in_order<'a>(
    view: &OtelLogRecordView<'a>,
    times: RepresentableTimes,
    r: Result<LogRecord, RecordFault>,
)
    requires
        call_ensures(emit_record, (view, times), r),
    ensures
        r is Ok ==> header_in_order(*view),
        r is Ok ==> forall|i: int|
            0 <= i < view.attributes.items().len() ==> key_in_order(
                #[trigger] view.attributes.items()[i],
            ),
        r is Ok && view.present_fields & 1 != 0 ==> times.timestamp,
        r is Ok && view.present_fields & 2 != 0 ==> times.observed_timestamp,
        r is Ok && view.present_fields & 4 != 0 ==> trace_in_order(*view),
        !header_in_order(*view) ==> (r matches Err(fault) && !fault.is_memory()),
{
    let fields = view.present_fields;
    assert(fields & !7u64 == 0 <==> fields <= 7) by (bit_vector);
    lemma_reserved(*view);
    if r is Ok {
        let attributes = view.attributes.items();
        assert forall|i: int| 0 <= i < attributes.len() implies key_in_order(
            #[trigger] attributes[i],
        ) by {
            lemma_attribute_keys(attributes, 0, i);
        }
        if fields & 4 != 0 {
            let flags = view.trace_context.trace_flags;
            assert(flags & !3u8 == 0 <==> flags <= 3) by (bit_vector);
        }
    }
}

proof fn lemma_reserved(view: OtelLogRecordView)
    ensures
        !view.uses_reserved() <==> view.reserved_flags == 0 && view.body.reserved == 0
            && view.reserved@[0] == 0 && view.reserved@[1] == 0 && view.reserved@[2] == 0
            && view.reserved@[3] == 0,
{
    if !view.uses_reserved() {
        assert(view.reserved@[0] == 0);
        assert(view.reserved@[1] == 0);
        assert(view.reserved@[2] == 0);
        assert(view.reserved@[3] == 0);
    }
}

/// A record without body, attributes and nodes is emitted exactly where everything that it says is
/// in order.
pub proof fn bare_records_are_emitted<'a>(
    view: &OtelLogRecordView<'a>,
    times: RepresentableTimes,
    r: Result<LogRecord, RecordFault>,
)
    requires
        call_ensures(emit_record, (view, times), r),
        view.body.value_type == 0,
        view.attributes.items().len() == 0,
        view.value_nodes.items().len() == 0,
    ensures
        r is Ok <==> {
            &&& header_in_order(*view)
            &&& view.present_fields & 1 != 0 ==> times.timestamp
            &&& view.present_fields & 2 != 0 ==> times.observed_timestamp
            &&& view.present_fields & 4 != 0 ==> trace_in_order(*view)
        },
{
    let fields = view.present_fields;
    let flags = view.trace_context.trace_flags;
    assert(fields & !7u64 == 0 <==> fields <= 7) by (bit_vector);
    assert(flags & !3u8 == 0 <==> flags <= 3) by (bit_vector);
    lemma_reserved(*view);
    assert(view.roots() =~= Seq::empty());
    lemma_empty_pool(view.value_nodes.items(), view.roots());
    if r is Err && header_in_order(*view) && (fields & 4 != 0 ==> trace_in_order(*view)) {
        if fields & 4 != 0 {
            let context = view.trace_context;
            assert(all_zero(context.reserved@)) by {
                assert forall|i: int| 0 <= i < context.reserved@.len() implies #[trigger]
                    context.reserved@[i] == 0 by {}
            }
        }
    }
}

proof fn lemma_empty_pool(nodes: Seq<OtelLogValueNode>, roots: Seq<OtelLogValue>)
    requires
        nodes.len() == 0,
        roots.len() == 0,
    ensures
        pool_fault(nodes, roots) is None,
{
    assert(crate::log_validate::taken_after(nodes, roots, 0).len() == 0);
}

/// A refused record is the caller's mistake, except that a field or a flag which this version does
/// not know is a matter of configuration, bytes that are not UTF-8 are that, and room that the
/// allocator refused is the library's failure.
pub proof fn refused_records_have_a_cause(fault: RecordFault, status: OtelStatus)
    requires
        call_ensures(RecordFault::status, (&fault,), status),
    ensures
        fault is UnknownFields || fault is TraceFlags ==> status == OtelStatus::InvalidConfig,
        fault.is_memory() ==> status == OtelStatus::InternalError,
        fault is RecordReserved || fault is SeverityRange || fault is TooManyAttributes
            || fault is TooManyNodes || fault is NullAttributes || fault is NullNodes
            || fault is EmptyAttributeKey || fault is AttributeKeyTooLong || fault is TimestampRange
            || fault is ObservedTimestampRange || fault is TraceReserved || fault is ZeroTraceId
            || fault is ZeroSpanId ==> status == OtelStatus::InvalidArgument,
{
}

/// The place of a severity on the scale from one to twenty-four.
pub open spec fn rank(severity: Severity) -> u32 {
    match severity {
        Severity::Trace => 1,
        Severity::Trace2 => 2,
        Severity::Trace3 => 3,
        Severity::Trace4 => 4,
        Severity::Debug => 5,
        Severity::Debug2 => 6,
        Severity::Debug3 => 7,
        Severity::Debug4 => 8,
        Severity::Info => 9,
        Severity::Info2 => 10,
        Severity::Info3 => 11,
        Severity::Info4 => 12,
        Severity::Warn => 13,
        Severity::Warn2 => 14,
        Severity::Warn3 => 15,
        Severity::Warn4 => 16,
        Severity::Error => 17,
        Severity::Error2 => 18,
        Severity::Error3 => 19,
        Severity::Error4 => 20,
        Severity::Fatal => 21,
        Severity::Fatal2 => 22,
        Severity::Fatal3 => 23,
        Severity::Fatal4 => 24,
    }
}

/// Numbers and severities go back and forth, zero is valid and stands for none, and a logger is
/// asked about a severity exactly where there is a logger and the number is on the scale.
pub proof fn severities_have_numbers(
    number: u32,
    severity: Severity,
    back: u32,
    found: Option<Severity>,
    valid: bool,
    logger_present: bool,
    asked: Option<Severity>,
)
    requires
        call_ensures(severity_number, (severity,), back),
        call_ensures(severity_from_u32, (number,), found),
        call_ensures(log_severity_is_valid, (number,), valid),
        call_ensures(logger_enabled, (logger_present, number), asked),
    ensures
        back == rank(severity),
        found is Some <==> 1 <= number && number <= 24,
        found matches Some(s) ==> rank(s) == number,
        valid <==> number <= 24,
        asked is Some <==> logger_present && 1 <= number && number <= 24,
        asked matches Some(s) ==> rank(s) == number,
{
}

/// The name of a severity is that of its family, and its number within the family unless it is the
/// first: the families are four severities each, from `TRACE` to `FATAL`.
pub proof fn severities_have_names(severity: Severity, name: &'static str)
    requires
        call_ensures(Severity::name, (&severity,), name),
    ensures
        severity is Trace ==> name@ == "TRACE"@,
        severity is Debug ==> name@ == "DEBUG"@,
        severity is Info ==> name@ == "INFO"@,
        severity is Warn ==> name@ == "WARN"@,
        severity is Error ==> name@ == "ERROR"@,
        severity is Fatal ==> name@ == "FATAL"@,
        severity is Trace2 ==> name@ == "TRACE"@ + "2"@,
        severity is Debug3 ==> name@ == "DEBUG"@ + "3"@,
        severity is Info4 ==> name@ == "INFO"@ + "4"@,
        rank(severity) <= 4 ==> "TRACE"@.is_prefix_of(name@),
        5 <= rank(severity) <= 8 ==> "DEBUG"@.is_prefix_of(name@),
        9 <= rank(severity) <= 12 ==> "INFO"@.is_prefix_of(name@),
        13 <= rank(severity) <= 16 ==> "WARN"@.is_prefix_of(name@),
        17 <= rank(severity) <= 20 ==> "ERROR"@.is_prefix_of(name@),
        21 <= rank(severity) ==> "FATAL"@.is_prefix_of(name@),
        rank(severity) % 4 != 1 && (rank(severity) <= 8 || rank(severity) > 16) ==> name@.len() == 6,
        rank(severity) % 4 != 1 && 9 <= rank(severity) <= 16 ==> name@.len() == 5,
        rank(severity) % 4 == 2 ==> name@.last() == '2',
        rank(severity) % 4 == 3 ==> name@.last() == '3',
        rank(severity) % 4 == 0 ==> name@.last() == '4',
{
    reveal_strlit("2");
    reveal_strlit("3");
    reveal_strlit("4");
    reveal_strlit("TRACE");
    reveal_strlit("DEBUG");
    reveal_strlit("INFO");
    reveal_strlit("WARN");
    reveal_strlit("ERROR");
    reveal_strlit("FATAL");
}

/// The tree has no part without a kind.
spec fn whole(tree: ValueTree) -> bool
    decreases tree,
{
    match tree {
        ValueTree::List(items) => forall|i: int|
            0 <= i < items.len() ==> whole(#[trigger] items[i]),
        ValueTree::Entries(entries) => forall|i: int|
            0 <= i < entries.len() ==> whole((#[trigger] entries[i]).1),
        ValueTree::Invalid => false,
        _ => true,
    }
}

/// Every entry is one of the sorted ones.
pub proof fn lemma_sorted_place<T>(entries: Seq<(Seq<char>, T)>, i: int) -> (j: int)
    requires
        0 <= i < entries.len(),
    ensures
        0 <= j < sort_entries(entries).len(),
        sort_entries(entries)[j] == entries[i],
{
    broadcast use vstd::seq_lib::group_to_multiset_ensures;

    let sorted = sort_entries(entries);
    sorting_orders_and_keeps_entries(entries);
    assert(entries.contains(entries[i]));
    assert(entries.to_multiset().count(entries[i]) > 0);
    assert(sorted.contains(entries[i]));
    choose|j: int| 0 <= j < sorted.len() && sorted[j] == entries[i]
}

/// Nothing in a queue that can be worked off is without a kind.
proof fn lemma_queue_whole(queue: Seq<(Item, nat)>, used: nat)
    requires
        work_fault(queue, used) is None,
    ensures
        forall|i: int|
            0 <= i < queue.len() ==> !((#[trigger] queue[i]).0 is UnknownArray) && (
            queue[i].0 matches Item::Attr(tree) ==> tree != ValueTree::Invalid) && (
            queue[i].0 matches Item::Any(tree) ==> whole(tree)),
    decreases OTEL_LOG_MAX_VALUE_NODES - used, queue.len(),
{
    if queue.len() > 0 {
        let item = queue[0].0;
        let depth = queue[0].1;
        let kids = item_children(item);
        let rest = queue.drop_first() + queued(item, depth);
        assert(item_fault(item, used) is None);
        lemma_children_fit(item, used);
        lemma_queue_whole(rest, used + kids.len());
        assert forall|c: int| 0 <= c < kids.len() implies ((#[trigger] kids[c]).1 matches Item::Any(
            tree,
        ) ==> whole(tree)) by {
            assert(rest[queue.len() - 1 + c] == (kids[c].1, depth + 1));
        }
        match item {
            Item::Any(ValueTree::List(items)) => {
                assert forall|i: int| 0 <= i < items.len() implies whole(#[trigger] items[i]) by {
                    assert(kids[i].1 == Item::Any(items[i]));
                }
            },
            Item::Any(ValueTree::Entries(entries)) => {
                let sorted = sort_entries(entries);
                assert forall|i: int| 0 <= i < entries.len() implies whole(
                    (#[trigger] entries[i]).1,
                ) by {
                    let j = lemma_sorted_place(entries, i);
                    assert(kids[j] == (sorted[j].0, Item::Any(sorted[j].1)));
                }
            },
            _ => {},
        }
        assert forall|i: int| 0 <= i < queue.len() implies !((#[trigger] queue[i]).0 is UnknownArray)
            && (queue[i].0 matches Item::Attr(tree) ==> tree != ValueTree::Invalid) && (
        queue[i].0 matches Item::Any(tree) ==> whole(tree)) by {
            if i > 0 {
                assert(rest[i - 1] == queue[i]);
            }
        }
    }
}

/// A value that denotes the sorted tree of an owned one shows it.
proof fn lemma_shown(
    nodes: Seq<OtelLogValueNode>,
    value: OtelLogValue,
    floor: int,
    owned: AnyValue,
)
    requires
        tree_of(nodes, value, floor) == sorted_tree(owned.tree()),
        whole(owned.tree()),
        floor >= -1,
    ensures
        shows_owned(nodes, value, owned),
    decreases owned,
{
    match owned {
        AnyValue::ListAny(items) => {
            let shown = tree_of(nodes, value, floor)->List_0;
            let kept = owned.tree()->List_0;
            assert(shown.len() == value.count());
            assert(kept.len() == items@.len());
            assert forall|i: int| 0 <= i < items@.len() implies shows_owned(
                nodes,
                (#[trigger] child(nodes, value, i)).value,
                items@[i],
            ) by {
                let at = value.first() + i;
                assert(shown[i] == tree_of(nodes, nodes[at].value, at));
                assert(kept[i] == items@[i].tree());
                assert(sorted_tree(owned.tree())->List_0[i] == sorted_tree(kept[i]));
                assert(whole(kept[i]));
                lemma_shown(nodes, nodes[at].value, at, items@[i]);
            }
        },
        AnyValue::KvMap(entries) => {
            let shown = tree_of(nodes, value, floor)->Entries_0;
            let kept = owned.tree()->Entries_0;
            let values = sorted_values(kept);
            assert(shown == sort_entries(values));
            sorting_orders_and_keeps_entries(values);
            assert(shown.len() == value.count());
            assert(kept.len() == entries@.len());
            assert(values.len() == kept.len());
            assert forall|i: int| 0 <= i < entries@.len() implies exists|c: int|
                0 <= c < entries@.len() && has_key(
                    #[trigger] child(nodes, value, c),
                    (#[trigger] entries@[i]).0@,
                ) && shows_owned(nodes, child(nodes, value, c).value, entries@[i].1) by {
                assert(kept[i] == (entries@[i].0@, entries@[i].1.tree()));
                assert(values[i] == (kept[i].0, sorted_tree(kept[i].1)));
                let c = lemma_sorted_place(values, i);
                let at = value.first() + c;
                assert(shown[c] == (key_text(nodes[at]), tree_of(nodes, nodes[at].value, at)));
                assert(whole(kept[i].1));
                lemma_shown(nodes, nodes[at].value, at, entries@[i].1);
                assert(has_key(child(nodes, value, c), entries@[i].0@));
            }
            assert forall|c: int, d: int| 0 <= c < d < entries@.len() implies !comes_before(
                encode_utf8(key_text(#[trigger] child(nodes, value, d))),
                encode_utf8(key_text(#[trigger] child(nodes, value, c))),
            ) by {
                assert(shown[c].0 == key_text(nodes[value.first() + c]));
                assert(shown[d].0 == key_text(nodes[value.first() + d]));
                lemma_comes_before(encode_utf8(shown[d].0), encode_utf8(shown[c].0));
            }
        },
        _ => {},
    }
}

/// A value that denotes the tree of an attribute value shows it.
proof fn lemma_attribute_shown(
    nodes: Seq<OtelLogValueNode>,
    value: OtelLogValue,
    attribute: Value,
)
    requires
        tree_of(nodes, value, -1) == attribute.tree(),
        attribute.tree() != ValueTree::Invalid,
    ensures
        shows_attribute(nodes, value, attribute),
{
    if let Value::Array(array) = attribute {
        let shown = tree_of(nodes, value, -1)->List_0;
        let items = array.elements();
        assert(shown == items);
        assert(shown.len() == value.count());
        assert forall|i: int| 0 <= i < items.len() implies tree_of(
            nodes,
            (#[trigger] child(nodes, value, i)).value,
            value.first() + i,
        ) == items[i] by {
            assert(shown[i] == tree_of(
                nodes,
                nodes[value.first() + i].value,
                value.first() + i,
            ));
        }
    }
}

/// The bit says whether there is something.
pub open spec fn bit_tells(fields: u64, bit: u64, present: bool) -> bool {
    (fields & bit != 0) == present
}

/// The word shows the time: its nanoseconds since the Unix epoch, and zero where there is none.
pub open spec fn shows_time(nanos: u64, time: Option<SystemTime>) -> bool {
    match time {
        Some(t) => nanos == t.nanos_since_epoch,
        None => nanos == 0,
    }
}

/// The view shows each field of the record in the field of its name, and marks exactly those that
/// the record has.
pub open spec fn shows_fields(view: OtelLogExportRecordView, record: ExportedRecord) -> bool {
    &&& bit_tells(view.present_fields, 1, record.timestamp is Some)
    &&& bit_tells(view.present_fields, 2, record.observed_timestamp is Some)
    &&& bit_tells(view.present_fields, 4, record.trace_context is Some)
    &&& bit_tells(view.present_fields, 8, record.severity_text is Some)
    &&& bit_tells(view.present_fields, 16, record.event_name is Some)
    &&& bit_tells(view.present_fields, 32, record.target is Some)
    &&& bit_tells(view.present_fields, 64, record.body is Some)
    &&& view.present_fields < 128
    &&& shows_time(view.timestamp_unix_nanos, record.timestamp)
    &&& shows_time(view.observed_timestamp_unix_nanos, record.observed_timestamp)
    &&& match record.severity_number {
        Some(severity) => view.severity_number == rank(severity),
        None => view.severity_number == 0,
    }
    &&& reads_optional(view.severity_text, record.severity_text)
    &&& reads_optional(view.event_name, record.event_name)
    &&& reads_optional(view.target, record.target)
    &&& match record.trace_context {
        Some(context) => {
            &&& view.trace_context.trace_id@ == context.trace_id@
            &&& view.trace_context.span_id@ == context.span_id@
            &&& context.trace_flags matches Some(flags) ==> view.trace_context.trace_flags == flags
            &&& context.trace_flags is None ==> view.trace_context.trace_flags == 0
        },
        None => {
            &&& forall|i: int| 0 <= i < 16 ==> #[trigger] view.trace_context.trace_id@[i] == 0
            &&& forall|i: int| 0 <= i < 8 ==> #[trigger] view.trace_context.span_id@[i] == 0
            &&& view.trace_context.trace_flags == 0
        },
    }
}

/// The view shows the body and the attributes of the record over its pool.
pub open spec fn shows_values(view: OtelLogExportRecordView, record: ExportedRecord) -> bool {
    let nodes = view.value_nodes@;
    &&& record.body is None ==> view.body.value_type == 0
    &&& record.body matches Some(body) ==> shows_owned(nodes, view.body, body)
    &&& view.attributes@.len() == record.attributes@.len()
    &&& forall|i: int|
        0 <= i < record.attributes@.len() ==> reads(
            (#[trigger] view.attributes@[i]).key,
            record.attributes@[i].0@,
        ) && shows_owned(nodes, view.attributes@[i].value, record.attributes@[i].1)
}

/// The attributes are shown over the pool, one for one and in their order.
pub open spec fn shows_value_attributes(
    nodes: Seq<OtelLogValueNode>,
    shown: Seq<OtelLogValueNode>,
    attributes: Seq<(String, Value)>,
) -> bool {
    &&& shown.len() == attributes.len()
    &&& forall|i: int|
        0 <= i < attributes.len() ==> reads((#[trigger] shown[i]).key, attributes[i].0@)
            && shows_attribute(nodes, shown[i].value, attributes[i].1)
}

/// The view shows the name, the version, the schema URL and the attributes of the scope.
pub open spec fn shows_log_scope(
    view: OtelLogExportScopeView,
    scope: InstrumentationScope,
) -> bool {
    &&& reads(view.name, scope.name@)
    &&& reads_optional(view.version, scope.version)
    &&& reads_optional(view.schema_url, scope.schema_url)
    &&& shows_value_attributes(view.value_nodes@, view.attributes@, scope.attributes@)
}

proof fn lemma_record_shown(view: OtelLogExportRecordView, record: ExportedRecord)
    requires
        crate::log_export::presents_record(view, record),
        crate::log_export::export_record_fault(record) is None,
    ensures
        shows_fields(view, record),
        shows_values(view, record),
{
    let fields = view.present_fields;
    assert(fields & !127u64 == 0 ==> fields < 128) by (bit_vector);
    let items = crate::log_export::any_items(record.attributes@);
    let body = crate::log_export::body_tree(record.body);
    let queue = crate::log_flatten::initial_queue(body, items);
    lemma_queue_whole(queue, 0);
    if let Some(owned) = record.body {
        assert(queue[0] == (Item::Any(owned.tree()), 1nat));
        lemma_shown(view.value_nodes@, view.body, -1, owned);
    }
    assert forall|i: int| 0 <= i < record.attributes@.len() implies reads(
        (#[trigger] view.attributes@[i]).key,
        record.attributes@[i].0@,
    ) && shows_owned(view.value_nodes@, view.attributes@[i].value, record.attributes@[i].1) by {
        let owned = record.attributes@[i].1;
        let at: int = if body is Some {
            i + 1
        } else {
            i
        };
        assert(items[i] == Item::Any(owned.tree()));
        assert(queue[at] == (items[i], 1nat));
        assert(crate::log_export::owned_keys(record.attributes@)[i] == record.attributes@[i].0@);
        lemma_shown(view.value_nodes@, view.attributes@[i].value, -1, owned);
    }
}

proof fn lemma_value_attributes_shown(
    flat: crate::log_flatten::Flattened,
    attributes: Seq<(String, Value)>,
)
    requires
        crate::log_flatten::flattens(
            flat,
            None,
            crate::log_export::owned_keys(attributes),
            crate::log_export::value_items(attributes),
        ),
        crate::log_flatten::owner_fault(
            None,
            crate::log_export::owned_keys(attributes),
            crate::log_export::value_items(attributes),
        ) is None,
    ensures
        shows_value_attributes(flat.nodes@, flat.attributes@, attributes),
{
    let items = crate::log_export::value_items(attributes);
    let queue = crate::log_flatten::initial_queue(None, items);
    lemma_queue_whole(queue, 0);
    assert forall|i: int| 0 <= i < attributes.len() implies reads(
        (#[trigger] flat.attributes@[i]).key,
        attributes[i].0@,
    ) && shows_attribute(flat.nodes@, flat.attributes@[i].value, attributes[i].1) by {
        assert(items[i] == source_item(Source::Attribute(&attributes[i].1)));
        assert(queue[i] == (items[i], 1nat));
        assert(crate::log_export::owned_keys(attributes)[i] == attributes[i].0@);
        lemma_attribute_shown(flat.nodes@, flat.attributes@[i].value, attributes[i].1);
    }
}

proof fn lemma_scope_shown(view: OtelLogExportScopeView, scope: InstrumentationScope)
    requires
        crate::log_export::presents_scope(view, scope),
        crate::log_export::scope_fault(scope) is None,
    ensures
        shows_log_scope(view, scope),
{
    let body = choose|body: OtelLogValue| #[trigger]
        crate::log_flatten::flattens(
            (crate::log_flatten::Flattened {
                body,
                attributes: view.attributes,
                nodes: view.value_nodes,
            }),
            None,
            crate::log_export::owned_keys(scope.attributes@),
            crate::log_export::value_items(scope.attributes@),
        );
    lemma_value_attributes_shown(
        crate::log_flatten::Flattened {
            body,
            attributes: view.attributes,
            nodes: view.value_nodes,
        },
        scope.attributes@,
    );
}

/// An exported record shows every field of the record under its own name: the time of the event as
/// its time, the time of its observation as that, the severity, the texts, the trace context, the
/// body and the attributes.
pub proof fn exported_records_show_every_field<'a>(
    record: &'a ExportedRecord,
    scope_index: usize,
    sizes: ExportViewSizes,
    view: OtelLogExportRecordView<'a>,
)
    requires
        call_ensures(
            convert_record,
            (record, scope_index, sizes),
            Ok::<OtelLogExportRecordView<'a>, ConversionError>(view),
        ),
    ensures
        shows_fields(view, *record),
        shows_values(view, *record),
        view.scope == scope_index,
        view.struct_size == sizes.record,
{
    lemma_record_shown(view, *record);
}

/// A record is exported only with times from the Unix epoch on that a count of nanoseconds can
/// hold; one with another time is refused for it, whatever else it has.
pub proof fn exported_times_can_be_counted<'a>(
    record: &'a ExportedRecord,
    scope_index: usize,
    sizes: ExportViewSizes,
    r: Result<OtelLogExportRecordView<'a>, ConversionError>,
)
    requires
        call_ensures(convert_record, (record, scope_index, sizes), r),
    ensures
        r is Ok ==> (record.timestamp matches Some(time) ==> 0 <= time.nanos_since_epoch
            <= u64::MAX),
        r is Ok ==> (record.observed_timestamp matches Some(time) ==> 0 <= time.nanos_since_epoch
            <= u64::MAX),
        record.timestamp matches Some(time) ==> (time.nanos_since_epoch < 0 ==> (r matches Err(e)
            && e is PredatesEpoch)),
        record.timestamp matches Some(time) ==> (time.nanos_since_epoch > u64::MAX ==> (r matches Err(
            e,
        ) && e is TimeRange)),
        record.timestamp is None && record.observed_timestamp is None && record.severity_text is None
            && record.event_name is None && record.target is None && record.body is None
            && record.attributes@.len() == 0 ==> r is Ok,
{
}

/// Nanoseconds are those since the Unix epoch, and other times are refused.
pub proof fn times_count_from_the_epoch(
    time: SystemTime,
    what: &'static str,
    r: Result<u64, ConversionError>,
)
    requires
        call_ensures(timestamp_nanos, (time, what), r),
    ensures
        r matches Ok(nanos) ==> nanos == time.nanos_since_epoch,
        r is Ok <==> 0 <= time.nanos_since_epoch && time.nanos_since_epoch <= u64::MAX,
        time.nanos_since_epoch < 0 ==> (r matches Err(e) && e is PredatesEpoch),
        time.nanos_since_epoch > u64::MAX ==> (r matches Err(e) && e is TimeRange),
{
}

/// An exported scope shows the name, the version, the schema URL and the attributes of the scope.
pub proof fn exported_scopes_show_every_field<'a>(
    scope: &'a InstrumentationScope,
    sizes: ExportViewSizes,
    view: OtelLogExportScopeView<'a>,
)
    requires
        call_ensures(
            convert_scope,
            (scope, sizes),
            Ok::<OtelLogExportScopeView<'a>, ConversionError>(view),
        ),
    ensures
        shows_log_scope(view, *scope),
        view.struct_size == sizes.scope,
{
    lemma_scope_shown(view, *scope);
}

proof fn lemma_entries_in_order(entries: Seq<BatchEntry>, from: int, i: int)
    requires
        0 <= from <= i < entries.len(),
        crate::log_export::entries_fault(entries, from) is None,
    ensures
        crate::log_export::entry_fault(entries, i) is None,
    decreases i - from,
{
    if from < i {
        lemma_entries_in_order(entries, from + 1, i);
    }
}

/// The entry is the first of its scope.
pub open spec fn opens_scope(entries: Seq<BatchEntry>, i: int) -> bool {
    &&& 0 <= i < entries.len()
    &&& forall|j: int| 0 <= j < i ==> (#[trigger] entries[j]).scope_key != entries[i].scope_key
}

proof fn lemma_first_seen(entries: Seq<BatchEntry>, n: int)
    requires
        0 <= n <= entries.len(),
    ensures
        forall|t: int|
            0 <= t < crate::log_export::first_seen(entries, n).len() ==> opens_scope(
                entries,
                #[trigger] crate::log_export::first_seen(entries, n)[t],
            ) && crate::log_export::first_seen(entries, n)[t] < n,
        forall|t: int, u: int|
            0 <= t < u < crate::log_export::first_seen(entries, n).len()
                ==> #[trigger] crate::log_export::first_seen(entries, n)[t]
                < #[trigger] crate::log_export::first_seen(entries, n)[u],
    decreases n,
{
    if n > 0 {
        lemma_first_seen(entries, n - 1);
        let before = crate::log_export::first_seen(entries, n - 1);
        let now = crate::log_export::first_seen(entries, n);
        assert forall|t: int| 0 <= t < now.len() implies opens_scope(entries, #[trigger] now[t])
            && now[t] < n by {
            if t < before.len() {
                assert(now[t] == before[t]);
            }
        }
        assert forall|t: int, u: int| 0 <= t < u < now.len() implies #[trigger] now[t]
            < #[trigger] now[u] by {
            assert(now[t] == before[t]);
            if u < before.len() {
                assert(now[u] == before[u]);
            }
        }
    }
}

/// What a view shows of record `i` of a batch: every field, with a scope of the record's own key.
proof fn lemma_batch_record_shown(
    view: OtelLogExportBatchView,
    entries: Seq<BatchEntry>,
    resource: Resource,
    i: int,
)
    requires
        crate::log_export::presents_batch(view, entries, resource),
        crate::log_export::batch_fault(entries, resource) is None,
        0 <= i < entries.len(),
        forall|j: int, k: int|
            0 <= j < entries.len() && 0 <= k < entries.len() && (#[trigger] entries[j]).scope_key == (
            #[trigger] entries[k]).scope_key ==> entries[j].scope == entries[k].scope,
    ensures
        view.records@.len() == entries.len(),
        shows_fields(view.records@[i], *entries[i].record),
        shows_values(view.records@[i], *entries[i].record),
        view.records@[i].scope < view.scopes@.len(),
        shows_log_scope(view.scopes@[view.records@[i].scope as int], *entries[i].scope),
        entries.len() <= 65_536,
{
    assert(crate::log_export::presents_record(view.records@[i], *entries[i].record));
    lemma_entries_in_order(entries, 0, i);
    lemma_entries_in_order(entries, 0, entries.len() - 1);
    lemma_record_shown(view.records@[i], *entries[i].record);
    let firsts = crate::log_export::first_seen(entries, entries.len() as int);
    lemma_first_seen(entries, entries.len() as int);
    let t = view.records@[i].scope as int;
    let f = firsts[t];
    assert(opens_scope(entries, firsts[t]));
    assert(crate::log_export::presents_scope(view.scopes@[t], *entries[f].scope));
    lemma_entries_in_order(entries, 0, f);
    assert(!crate::log_export::scope_seen(entries, f));
    lemma_scope_shown(view.scopes@[t], *entries[f].scope);
    assert(entries[f].scope == entries[i].scope);
}

/// Two records of a view share a scope exactly when they came through the same one.
proof fn lemma_batch_scopes_shown(
    view: OtelLogExportBatchView,
    entries: Seq<BatchEntry>,
    resource: Resource,
    i: int,
    j: int,
)
    requires
        crate::log_export::presents_batch(view, entries, resource),
        0 <= i < entries.len(),
        0 <= j < entries.len(),
    ensures
        view.records@[i].scope == view.records@[j].scope <==> entries[i].scope_key
            == entries[j].scope_key,
{
    let firsts = crate::log_export::first_seen(entries, entries.len() as int);
    lemma_first_seen(entries, entries.len() as int);
    assert(crate::log_export::presents_record(view.records@[i], *entries[i].record));
    assert(crate::log_export::presents_record(view.records@[j], *entries[j].record));
    let t = view.records@[i].scope as int;
    let u = view.records@[j].scope as int;
    assert(opens_scope(entries, firsts[t]));
    assert(opens_scope(entries, firsts[u]));
    if t != u && entries[i].scope_key == entries[j].scope_key {
        assert(firsts[t] != firsts[u]);
        if firsts[t] < firsts[u] {
            assert(entries[firsts[t]].scope_key != entries[firsts[u]].scope_key);
        } else {
            assert(entries[firsts[u]].scope_key != entries[firsts[t]].scope_key);
        }
    }
}

/// What a view shows of the resource of a batch.
proof fn lemma_batch_resource_shown(
    view: OtelLogExportBatchView,
    entries: Seq<BatchEntry>,
    resource: Resource,
)
    requires
        crate::log_export::presents_batch(view, entries, resource),
        crate::log_export::batch_fault(entries, resource) is None,
    ensures
        reads_optional(view.resource_schema_url, resource.schema_url),
        shows_value_attributes(
            view.resource_value_nodes@,
            view.resource_attributes@,
            resource.attributes@,
        ),
{
    let body = choose|body: OtelLogValue| #[trigger]
        crate::log_flatten::flattens(
            (crate::log_flatten::Flattened {
                body,
                attributes: view.resource_attributes,
                nodes: view.resource_value_nodes,
            }),
            None,
            crate::log_export::owned_keys(resource.attributes@),
            crate::log_export::value_items(resource.attributes@),
        );
    lemma_value_attributes_shown(
        crate::log_flatten::Flattened {
            body,
            attributes: view.resource_attributes,
            nodes: view.resource_value_nodes,
        },
        resource.attributes@,
    );
}

/// An exported batch shows its records in order, each with every field and with a scope of its own
/// key, and every structure with its size.
pub proof fn exported_batches_show_every_record<'a>(
    entries: &[BatchEntry<'a>],
    resource: &'a Resource,
    sizes: ExportViewSizes,
    view: OtelLogExportBatchView<'a>,
    i: int,
)
    requires
        call_ensures(
            convert_batch,
            (entries, resource, sizes),
            Ok::<OtelLogExportBatchView<'a>, ConversionError>(view),
        ),
        0 <= i < entries@.len(),
        forall|j: int, k: int|
            0 <= j < entries@.len() && 0 <= k < entries@.len() && (#[trigger] entries@[j]).scope_key
                == (#[trigger] entries@[k]).scope_key ==> entries@[j].scope == entries@[k].scope,
    ensures
        view.records@.len() == entries@.len(),
        shows_fields(view.records@[i], *entries@[i].record),
        shows_values(view.records@[i], *entries@[i].record),
        view.records@[i].scope < view.scopes@.len(),
        shows_log_scope(view.scopes@[view.records@[i].scope as int], *entries@[i].scope),
        entries@.len() <= 65_536,
        view.records@[i].struct_size == sizes.record,
        view.scopes@[view.records@[i].scope as int].struct_size == sizes.scope,
{
    lemma_batch_record_shown(view, entries@, *resource, i);
}

/// An exported batch shows every scope once: two records share a scope view exactly when they came
/// through the same scope.
pub proof fn exported_batches_show_scopes_once<'a>(
    entries: &[BatchEntry<'a>],
    resource: &'a Resource,
    sizes: ExportViewSizes,
    view: OtelLogExportBatchView<'a>,
    i: int,
    j: int,
)
    requires
        call_ensures(
            convert_batch,
            (entries, resource, sizes),
            Ok::<OtelLogExportBatchView<'a>, ConversionError>(view),
        ),
        0 <= i < entries@.len(),
        0 <= j < entries@.len(),
    ensures
        view.records@[i].scope == view.records@[j].scope <==> entries@[i].scope_key
            == entries@[j].scope_key,
{
    lemma_batch_scopes_shown(view, entries@, *resource, i, j);
}

/// An exported batch shows the schema URL and the attributes of the resource.
pub proof fn exported_batches_show_the_resource<'a>(
    entries: &[BatchEntry<'a>],
    resource: &'a Resource,
    sizes: ExportViewSizes,
    view: OtelLogExportBatchView<'a>,
)
    requires
        call_ensures(
            convert_batch,
            (entries, resource, sizes),
            Ok::<OtelLogExportBatchView<'a>, ConversionError>(view),
        ),
    ensures
        reads_optional(view.resource_schema_url, resource.schema_url),
        shows_value_attributes(
            view.resource_value_nodes@,
            view.resource_attributes@,
            resource.attributes@,
        ),
        view.struct_size == sizes.batch,
        view.reserved@ == Seq::new(4, |k: int| 0u64),
{
    lemma_batch_resource_shown(view, entries@, *resource);
}

/// The callback of a Logs exporter sees every record of the batch with all its fields and its scope.
pub proof fn log_callbacks_see_every_record<'a>(
    exporter: &'a CustomLogExporter,
    errors: &mut ErrorState,
    entries: &[BatchEntry<'a>],
    sizes: ExportViewSizes,
    callback: usize,
    user_data: usize,
    view: OtelLogExportBatchView<'a>,
    i: int,
)
    requires
        call_ensures(
            CustomLogExporter::export,
            (exporter, errors, entries, sizes),
            (LogExportStep::Invoke { callback, user_data, view }),
        ),
        0 <= i < entries@.len(),
        forall|j: int, k: int|
            0 <= j < entries@.len() && 0 <= k < entries@.len() && (#[trigger] entries@[j]).scope_key
                == (#[trigger] entries@[k]).scope_key ==> entries@[j].scope == entries@[k].scope,
    ensures
        view.records@.len() == entries@.len(),
        shows_fields(view.records@[i], *entries@[i].record),
        shows_values(view.records@[i], *entries@[i].record),
        view.records@[i].scope < view.scopes@.len(),
        shows_log_scope(view.scopes@[view.records@[i].scope as int], *entries@[i].scope),
        entries@.len() <= 65_536,
        view.records@[i].struct_size == sizes.record,
        view.scopes@[view.records@[i].scope as int].struct_size == sizes.scope,
{
    lemma_batch_record_shown(view, entries@, exporter.resource, i);
}

/// The callback of a Logs exporter sees the exporter's own resource, and every scope once.
pub proof fn log_callbacks_see_the_resource<'a>(
    exporter: &'a CustomLogExporter,
    errors: &mut ErrorState,
    entries: &[BatchEntry<'a>],
    sizes: ExportViewSizes,
    callback: usize,
    user_data: usize,
    view: OtelLogExportBatchView<'a>,
    i: int,
    j: int,
)
    requires
        call_ensures(
            CustomLogExporter::export,
            (exporter, errors, entries, sizes),
            (LogExportStep::Invoke { callback, user_data, view }),
        ),
        0 <= i < entries@.len(),
        0 <= j < entries@.len(),
    ensures
        reads_optional(view.resource_schema_url, exporter.resource.schema_url),
        shows_value_attributes(
            view.resource_value_nodes@,
            view.resource_attributes@,
            exporter.resource.attributes@,
        ),
        view.records@[i].scope == view.records@[j].scope <==> entries@[i].scope_key
            == entries@[j].scope_key,
{
    lemma_batch_resource_shown(view, entries@, exporter.resource);
    lemma_batch_scopes_shown(view, entries@, exporter.resource, i, j);
}

/// The exported record carries the times, the severity and the trace context of the emitted one
/// unchanged.
pub open spec fn carries_header(exported: ExportedRecord, emitted: LogRecord) -> bool {
    &&& exported.timestamp is Some <==> emitted.timestamp_unix_nanos is Some
    &&& exported.timestamp matches Some(time) ==> time.nanos_since_epoch
        == emitted.timestamp_unix_nanos->0
    &&& exported.observed_timestamp is Some <==> emitted.observed_timestamp_unix_nanos is Some
    &&& exported.observed_timestamp matches Some(time) ==> time.nanos_since_epoch
        == emitted.observed_timestamp_unix_nanos->0
    &&& exported.severity_number == emitted.severity
    &&& exported.severity_text is Some <==> emitted.severity_text is Some
    &&& exported.severity_text matches Some(text) ==> text@ == emitted.severity_text->0@
    &&& exported.trace_context is Some <==> emitted.trace_context is Some
    &&& exported.trace_context matches Some(context) ==> {
        &&& context.trace_id == emitted.trace_context->0.trace_id
        &&& context.span_id == emitted.trace_context->0.span_id
        &&& context.trace_flags == Some(emitted.trace_context->0.trace_flags)
    }
}

/// Times come out as they went in: where the emitted view has a time of the event, the exported
/// view has the same one as the time of the event, and where it has a time of its observation, the
/// same one as that. So do the severity and the trace context.
pub proof fn exports_show_the_times_that_were_emitted<'a, 'b>(
    input: &OtelLogRecordView<'a>,
    times: RepresentableTimes,
    emitted: LogRecord,
    exported: &'b ExportedRecord,
    scope_index: usize,
    sizes: ExportViewSizes,
    output: OtelLogExportRecordView<'b>,
)
    requires
        call_ensures(emit_record, (input, times), Ok::<LogRecord, RecordFault>(emitted)),
        carries_header(*exported, emitted),
        call_ensures(
            convert_record,
            (exported, scope_index, sizes),
            Ok::<OtelLogExportRecordView<'b>, ConversionError>(output),
        ),
    ensures
        input.present_fields & 1 != 0 ==> output.timestamp_unix_nanos == input.timestamp_unix_nanos,
        input.present_fields & 2 != 0 ==> output.observed_timestamp_unix_nanos
            == input.observed_timestamp_unix_nanos,
        input.present_fields & 1 == 0 ==> output.timestamp_unix_nanos == 0,
        input.present_fields & 2 == 0 ==> output.observed_timestamp_unix_nanos == 0,
        (output.present_fields & 1 != 0) == (input.present_fields & 1 != 0),
        (output.present_fields & 2 != 0) == (input.present_fields & 2 != 0),
        (output.present_fields & 4 != 0) == (input.present_fields & 4 != 0),
        output.severity_number == input.severity_number,
        input.present_fields & 4 != 0 ==> {
            &&& output.trace_context.trace_id@ == input.trace_context.trace_id@
            &&& output.trace_context.span_id@ == input.trace_context.span_id@
            &&& output.trace_context.trace_flags == input.trace_context.trace_flags
        },
{
    lemma_record_shown(output, *exported);
    emitted_records_say_what_was_given(input, times, emitted);
}

} // verus!
