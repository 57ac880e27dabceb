//! Ordering keyed entries by the bytes of their keys.

use vstd::prelude::*;
use vstd::utf8::encode_utf8;

use crate::text::{bytes_less, lemma_bytes_determine_text, text_less};

verus! {

/// Whether key `a` sorts strictly before key `b`.
pub open spec fn key_less(a: Seq<char>, b: Seq<char>) -> bool {
    bytes_less(encode_utf8(a), encode_utf8(b))
}

/// `entries` with `entry` put behind the last entry that does not sort after it.
pub open spec fn insert_entry<T>(entries: Seq<(Seq<char>, T)>, entry: (Seq<char>, T)) -> Seq<
    (Seq<char>, T),
>
    decreases entries.len(),
{
    if entries.len() > 0 && key_less(entry.0, entries.last().0) {
        insert_entry(entries.drop_last(), entry).push(entries.last())
    } else {
        entries.push(entry)
    }
}

/// The entries in ascending order of their keys; equal keys keep their order.
pub open spec fn sort_entries<T>(entries: Seq<(Seq<char>, T)>) -> Seq<(Seq<char>, T)>
    decreases entries.len(),
{
    if entries.len() == 0 {
        Seq::empty()
    } else {
        insert_entry(sort_entries(entries.drop_last()), entries.last())
    }
}

/// No entry sorts before an earlier one.
pub open spec fn ascending<T>(entries: Seq<(Seq<char>, T)>) -> bool {
    forall|i: int, j: int|
        0 <= i < j < entries.len() ==> !key_less((#[trigger] entries[j]).0, (#[trigger] entries[i]).0)
}

/// A byte string does not sort before itself.
proof fn lemma_bytes_irreflexive(a: Seq<u8>)
    ensures
        !bytes_less(a, a),
    decreases a.len(),
{
    if a.len() > 0 {
        lemma_bytes_irreflexive(a.drop_first());
    }
}

proof fn lemma_bytes_transitive(a: Seq<u8>, b: Seq<u8>, c: Seq<u8>)
    requires
        !bytes_less(b, a),
        !bytes_less(c, b),
    ensures
        !bytes_less(c, a),
    decreases a.len(),
{
    if a.len() > 0 && b.len() > 0 && c.len() > 0 && a[0] == b[0] && b[0] == c[0] {
        lemma_bytes_transitive(a.drop_first(), b.drop_first(), c.drop_first());
    }
}

proof fn lemma_bytes_asymmetric(a: Seq<u8>, b: Seq<u8>)
    ensures
        !(bytes_less(a, b) && bytes_less(b, a)),
    decreases a.len(),
{
    if a.len() > 0 && b.len() > 0 && a[0] == b[0] {
        lemma_bytes_asymmetric(a.drop_first(), b.drop_first());
    }
}

proof fn lemma_bytes_total(a: Seq<u8>, b: Seq<u8>)
    ensures
        !bytes_less(a, b) && !bytes_less(b, a) ==> a == b,
    decreases a.len(),
{
    if a.len() > 0 && b.len() > 0 && a[0] == b[0] {
        lemma_bytes_total(a.drop_first(), b.drop_first());
        if !bytes_less(a, b) && !bytes_less(b, a) {
            assert(a =~= seq![a[0]] + a.drop_first());
            assert(b =~= seq![b[0]] + b.drop_first());
        }
    } else if !bytes_less(a, b) && !bytes_less(b, a) {
        assert(a =~= b);
    }
}

/// Keys are totally ordered: of two different keys exactly one sorts before the other.
pub proof fn key_order_is_total(a: Seq<char>, b: Seq<char>)
    ensures
        a == b ==> !key_less(a, b),
        a != b ==> (key_less(a, b) <==> !key_less(b, a)),
{
    lemma_bytes_irreflexive(encode_utf8(a));
    lemma_bytes_asymmetric(encode_utf8(a), encode_utf8(b));
    lemma_bytes_total(encode_utf8(a), encode_utf8(b));
    lemma_bytes_determine_text(a, b);
}

proof fn lemma_insert_ascending<T>(entries: Seq<(Seq<char>, T)>, entry: (Seq<char>, T))
    requires
        ascending(entries),
    ensures
        ascending(insert_entry(entries, entry)),
        insert_entry(entries, entry).to_multiset() == entries.to_multiset().insert(entry),
        insert_entry(entries, entry).len() == entries.len() + 1,
        forall|i: int|
            0 <= i <= entries.len() ==> (#[trigger] insert_entry(entries, entry)[i] == entry
                || exists|j: int| 0 <= j < entries.len() && entries[j] == insert_entry(entries, entry)[i]),
    decreases entries.len(),
{
    broadcast use vstd::seq_lib::group_to_multiset_ensures;

    let result = insert_entry(entries, entry);
    if entries.len() > 0 && key_less(entry.0, entries.last().0) {
        let rest = entries.drop_last();
        let last = entries.last();
        assert(ascending(rest)) by {
            assert forall|i: int, j: int| 0 <= i < j < rest.len() implies !key_less(
                (#[trigger] rest[j]).0,
                (#[trigger] rest[i]).0,
            ) by {
                assert(rest[i] == entries[i] && rest[j] == entries[j]);
            }
        }
        lemma_insert_ascending(rest, entry);
        let inner = insert_entry(rest, entry);
        assert forall|i: int, j: int| 0 <= i < j < result.len() implies !key_less(
            (#[trigger] result[j]).0,
            (#[trigger] result[i]).0,
        ) by {
            if j < inner.len() {
                assert(result[i] == inner[i] && result[j] == inner[j]);
            } else {
                assert(result[j] == last);
                assert(result[i] == inner[i]);
                if inner[i] == entry {
                    lemma_bytes_asymmetric(encode_utf8(entry.0), encode_utf8(last.0));
                } else {
                    let k = choose|k: int| 0 <= k < rest.len() && rest[k] == inner[i];
                    assert(entries[k] == inner[i]);
                }
            }
        }
        assert forall|i: int| 0 <= i <= entries.len() implies (#[trigger] result[i] == entry
            || exists|j: int| 0 <= j < entries.len() && entries[j] == result[i]) by {
            if i < inner.len() {
                assert(result[i] == inner[i]);
                if inner[i] != entry {
                    let k = choose|k: int| 0 <= k < rest.len() && rest[k] == inner[i];
                    assert(entries[k] == result[i]);
                }
            } else {
                assert(entries[entries.len() - 1] == result[i]);
            }
        }
        assert(entries =~= rest.push(last));
        assert(result.to_multiset() =~= entries.to_multiset().insert(entry));
    } else {
        assert forall|i: int, j: int| 0 <= i < j < result.len() implies !key_less(
            (#[trigger] result[j]).0,
            (#[trigger] result[i]).0,
        ) by {
            if j < entries.len() {
                assert(result[i] == entries[i] && result[j] == entries[j]);
            } else {
                assert(result[j] == entry);
                assert(result[i] == entries[i]);
                let last = entries.last();
                assert(!key_less(entry.0, last.0));
                if i < entries.len() - 1 {
                    assert(!key_less(entries[entries.len() - 1].0, entries[i].0));
                } else {
                    lemma_bytes_irreflexive(encode_utf8(last.0));
                }
                lemma_bytes_transitive(
                    encode_utf8(entries[i].0),
                    encode_utf8(last.0),
                    encode_utf8(entry.0),
                );
            }
        }
        assert forall|i: int| 0 <= i <= entries.len() implies (#[trigger] result[i] == entry
            || exists|j: int| 0 <= j < entries.len() && entries[j] == result[i]) by {
            if i < entries.len() {
                assert(entries[i] == result[i]);
            }
        }
    }
}

/// Sorting puts entries in ascending order and neither loses nor adds one.
pub proof fn sorting_orders_and_keeps_entries<T>(entries: Seq<(Seq<char>, T)>)
    ensures
        ascending(sort_entries(entries)),
        sort_entries(entries).to_multiset() == entries.to_multiset(),
        sort_entries(entries).len() == entries.len(),
    decreases entries.len(),
{
    broadcast use vstd::seq_lib::group_to_multiset_ensures;

    if entries.len() > 0 {
        sorting_orders_and_keeps_entries(entries.drop_last());
        lemma_insert_ascending(sort_entries(entries.drop_last()), entries.last());
        assert(entries =~= entries.drop_last().push(entries.last()));
    } else {
        assert(entries =~= Seq::empty());
    }
}

/// The entries with every payload replaced.
pub open spec fn map_entries<T, U>(entries: Seq<(Seq<char>, T)>, f: spec_fn(T) -> U) -> Seq<
    (Seq<char>, U),
> {
    Seq::new(entries.len(), |i: int| (entries[i].0, f(entries[i].1)))
}

proof fn lemma_insert_map<T, U>(
    entries: Seq<(Seq<char>, T)>,
    entry: (Seq<char>, T),
    f: spec_fn(T) -> U,
)
    ensures
        insert_entry(map_entries(entries, f), (entry.0, f(entry.1))) == map_entries(
            insert_entry(entries, entry),
            f,
        ),
    decreases entries.len(),
{
    let mapped = map_entries(entries, f);
    if entries.len() > 0 && key_less(entry.0, entries.last().0) {
        lemma_insert_map(entries.drop_last(), entry, f);
        assert(mapped.drop_last() =~= map_entries(entries.drop_last(), f));
        assert(insert_entry(mapped, (entry.0, f(entry.1))) =~= map_entries(
            insert_entry(entries, entry),
            f,
        ));
    } else {
        assert(mapped.push((entry.0, f(entry.1))) =~= map_entries(entries.push(entry), f));
    }
}

/// Sorting looks at keys only, so it commutes with replacing payloads.
pub proof fn lemma_sort_map<T, U>(entries: Seq<(Seq<char>, T)>, f: spec_fn(T) -> U)
    ensures
        sort_entries(map_entries(entries, f)) == map_entries(sort_entries(entries), f),
    decreases entries.len(),
{
    let mapped = map_entries(entries, f);
    if entries.len() > 0 {
        lemma_sort_map(entries.drop_last(), f);
        assert(mapped.drop_last() =~= map_entries(entries.drop_last(), f));
        lemma_insert_map(sort_entries(entries.drop_last()), entries.last(), f);
    } else {
        assert(sort_entries(mapped) =~= map_entries(sort_entries(entries), f));
    }
}

/// Where an entry belongs, stated by its neighbours.
pub proof fn lemma_insert_position<T>(
    entries: Seq<(Seq<char>, T)>,
    entry: (Seq<char>, T),
    position: int,
)
    requires
        0 <= position <= entries.len(),
        forall|j: int| position <= j < entries.len() ==> key_less(entry.0, (#[trigger] entries[j]).0),
        position > 0 ==> !key_less(entry.0, entries[position - 1].0),
    ensures
        insert_entry(entries, entry) == entries.insert(position, entry),
    decreases entries.len(),
{
    if position == entries.len() {
        assert(entries.insert(position, entry) =~= entries.push(entry));
    } else {
        let rest = entries.drop_last();
        lemma_insert_position(rest, entry, position);
        assert(entries.insert(position, entry) =~= rest.insert(position, entry).push(
            entries.last(),
        ));
    }
}

/// The keys and payloads of borrowed entries.
pub open spec fn borrowed_entries<'a, T>(entries: Seq<(&'a str, &'a T)>) -> Seq<(Seq<char>, T)> {
    Seq::new(entries.len(), |i: int| (entries[i].0@, *entries[i].1))
}

/// Puts one entry where it belongs in ordered entries.
pub fn insert_ordered<'a, T>(
    entries: &mut Vec<(&'a str, &'a T)>,
    key: &'a str,
    value: &'a T,
)
    ensures
        borrowed_entries(final(entries)@) == insert_entry(
            borrowed_entries(old(entries)@),
            (key@, *value),
        ),
        final(entries)@.len() == old(entries)@.len() + 1,
{
    let ghost before = borrowed_entries(entries@);
    let mut position: usize = entries.len();
    while position > 0 && text_less(key, entries[position - 1].0)
        invariant
            position <= entries@.len(),
            entries@ == old(entries)@,
            before == borrowed_entries(entries@),
            forall|j: int|
                position <= j < entries@.len() ==> key_less(key@, (#[trigger] before[j]).0),
        decreases position,
    {
        assert(key_less(key@, before[position - 1].0));
        position -= 1;
    }
    proof {
        lemma_insert_position(before, (key@, *value), position as int);
    }
    entries.insert(position, (key, value));
    assert(borrowed_entries(entries@) =~= before.insert(position as int, (key@, *value)));
}

} // verus!
