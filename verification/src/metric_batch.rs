//! Batches that are being exported, known to C by a token.
//!
//! A batch can be visited through its token only on the thread that exports it and only while
//! the export callback runs.

use vstd::prelude::*;

verus! {

/// What C holds of a batch: its token, never zero.
#[derive(Clone, Copy, Debug, PartialEq, Eq, Structural)]
pub struct OtelMetricBatch {
    pub token: usize,
}

/// The batches that a thread is exporting, innermost last: tokens and the batches' addresses.
#[derive(Debug)]
pub struct ActiveBatches {
    pub entries: Vec<(usize, usize)>,
}

/// The position of the innermost entry with this token among the first `n`.
pub open spec fn innermost(entries: Seq<(usize, usize)>, token: usize, n: int) -> Option<int>
    decreases n,
{
    if n <= 0 {
        None
    } else if entries[n - 1].0 == token {
        Some(n - 1)
    } else {
        innermost(entries, token, n - 1)
    }
}

/// The batch that a token stands for.
pub open spec fn batch_of(entries: Seq<(usize, usize)>, token: usize) -> Option<usize> {
    match innermost(entries, token, entries.len() as int) {
        Some(i) => Some(entries[i].1),
        None => None,
    }
}

/// The entries without the innermost one with this token.
pub open spec fn without(entries: Seq<(usize, usize)>, token: usize) -> Seq<(usize, usize)> {
    match innermost(entries, token, entries.len() as int) {
        Some(i) => entries.remove(i),
        None => entries,
    }
}

impl ActiveBatches {
    /// No batch is being exported.
    pub fn new() -> (r: ActiveBatches)
        ensures
            r.entries@.len() == 0,
    {
        ActiveBatches { entries: Vec::new() }
    }

    fn position(&self, token: usize) -> (r: Option<usize>)
        ensures
            match r {
                Some(i) => innermost(self.entries@, token, self.entries@.len() as int) == Some(
                    i as int,
                ) && i < self.entries@.len(),
                None => innermost(self.entries@, token, self.entries@.len() as int) is None,
            },
    {
        let mut i: usize = self.entries.len();
        while i > 0
            invariant
                i <= self.entries@.len(),
                innermost(self.entries@, token, self.entries@.len() as int) == innermost(
                    self.entries@,
                    token,
                    i as int,
                ),
            decreases i,
        {
            i -= 1;
            if self.entries[i].0 == token {
                return Some(i);
            }
        }
        None
    }
}

/// The address of the batch that a token stands for on this thread.
pub fn active_batch(batches: &ActiveBatches, token: usize) -> (r: Option<usize>)
    ensures
        r == batch_of(batches.entries@, token),
{
    match batches.position(token) {
        Some(i) => Some(batches.entries[i].1),
        None => None,
    }
}

/// The token that a registration takes from the counter. Zero is skipped.
pub open spec fn token_at(counter: usize) -> usize {
    if counter == 0 {
        1
    } else {
        counter
    }
}

/// The counter behind a registration. A full counter starts again.
pub open spec fn counter_beyond(counter: usize) -> usize {
    if token_at(counter) == usize::MAX {
        0
    } else {
        (token_at(counter) + 1) as usize
    }
}

/// The counter behind `n` registrations.
pub open spec fn counter_after(counter: usize, n: nat) -> usize
    decreases n,
{
    if n == 0 {
        counter
    } else {
        counter_beyond(counter_after(counter, (n - 1) as nat))
    }
}

/// The registration of a batch for the duration of one export callback.
#[derive(Debug)]
pub struct MetricBatchRegistration {
    token: usize,
}

impl MetricBatchRegistration {
    /// The token of the registration.
    pub closed spec fn spec_token(self) -> usize {
        self.token
    }

    /// Registers a batch under the next token of the process-wide counter. Zero is skipped, so no
    /// token is a NULL pointer.
    pub fn new(counter: &mut usize, batches: &mut ActiveBatches, metrics: usize) -> (r: Self)
        ensures
            r.spec_token() == token_at(*old(counter)),
            *final(counter) == counter_beyond(*old(counter)),
            final(batches).entries@ == old(batches).entries@.push((r.spec_token(), metrics)),
    {
        if *counter == 0 {
            *counter = 1;
        }
        let token: usize = *counter;
        *counter = if token == usize::MAX {
            0
        } else {
            token + 1
        };
        batches.entries.push((token, metrics));
        MetricBatchRegistration { token }
    }

    /// What C is given.
    pub fn token(&self) -> (r: OtelMetricBatch)
        ensures
            r.token == self.spec_token(),
    {
        OtelMetricBatch { token: self.token }
    }

    /// Ends the registration.
    pub fn release(self, batches: &mut ActiveBatches)
        ensures
            final(batches).entries@ == without(old(batches).entries@, self.spec_token()),
    {
        match batches.position(self.token) {
            Some(i) => {
                batches.entries.remove(i);
            },
            None => {},
        }
    }
}

/// The tokens of any two registrations differ, and none is zero, as long as the counter has not
/// come round to the first of them again.
pub proof fn tokens_are_distinct(counter: usize, first: nat, second: nat)
    requires
        first < second < first + usize::MAX,
    ensures
        token_at(counter_after(counter, first)) != token_at(counter_after(counter, second)),
        token_at(counter_after(counter, first)) != 0,
        token_at(counter_after(counter, second)) != 0,
{
    lemma_token_after(counter, first, (second - first) as nat);
}

/// Tokens count up and start again at one.
proof fn lemma_token_after(counter: usize, n: nat, more: nat)
    requires
        more < usize::MAX,
    ensures
        token_at(counter_after(counter, n + more)) == (if token_at(counter_after(counter, n)) + more
            <= usize::MAX {
            token_at(counter_after(counter, n)) + more
        } else {
            token_at(counter_after(counter, n)) + more - usize::MAX
        }),
    decreases more,
{
    if more > 0 {
        lemma_token_after(counter, n, (more - 1) as nat);
        assert(counter_after(counter, n + more) == counter_beyond(
            counter_after(counter, (n + more - 1) as nat),
        ));
    }
}

/// A fresh token stands for its batch from registration to release and for nothing before or
/// after, and the other registrations of the thread are as they were.
pub proof fn token_is_active_only_while_registered(
    entries: Seq<(usize, usize)>,
    token: usize,
    metrics: usize,
    other: usize,
)
    requires
        batch_of(entries, token) is None,
        other != token,
    ensures
        batch_of(entries.push((token, metrics)), token) == Some(metrics),
        batch_of(entries.push((token, metrics)), other) == batch_of(entries, other),
        without(entries.push((token, metrics)), token) == entries,
        batch_of(without(entries.push((token, metrics)), token), token) is None,
{
    let more = entries.push((token, metrics));
    let n = entries.len() as int;
    assert(innermost(more, token, n + 1) == Some(n));
    assert(more.remove(n) =~= entries);
    lemma_innermost_prefix(entries, more, other, n);
}

proof fn lemma_innermost_prefix(
    a: Seq<(usize, usize)>,
    b: Seq<(usize, usize)>,
    token: usize,
    n: int,
)
    requires
        0 <= n <= a.len() <= b.len(),
        forall|i: int| 0 <= i < a.len() ==> a[i] == b[i],
    ensures
        innermost(a, token, n) == innermost(b, token, n),
        innermost(a, token, n) matches Some(i) ==> 0 <= i < n,
    decreases n,
{
    if n > 0 {
        lemma_innermost_prefix(a, b, token, n - 1);
    }
}

} // verus!
