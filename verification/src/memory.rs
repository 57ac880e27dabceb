//! Fallible allocation.

use vstd::prelude::*;

verus! {

/// A reservation that the allocator refused. Running code gets one from [`reserve`] alone; every
/// contract that admits one says which reservation it was, by the room that was asked for.
#[derive(Clone, Copy, Debug)]
pub struct AllocationFailure {
    additional: usize,
}

impl AllocationFailure {
    /// The number of elements that the allocator refused to make room for.
    pub closed spec fn requested(self) -> usize {
        self.additional
    }

    /// The allocator refused to make room for `count` elements, of which there are some.
    pub open spec fn refused(self, count: nat) -> bool {
        0 < count && self.requested() == count
    }
}

/// Makes room for `additional` more elements, or reports that the allocator refused that many.
/// No room is always granted; whether more is depends on the machine.
pub fn reserve<T>(items: &mut Vec<T>, additional: usize) -> (r: Result<(), AllocationFailure>)
    ensures
        final(items)@ == old(items)@,
        additional == 0 ==> r is Ok,
        r matches Err(failure) ==> failure.refused(additional as nat),
{
    if additional == 0 {
        return Ok(());
    }
    match items.try_reserve(additional) {
        Ok(_) => Ok(()),
        Err(_) => Err(AllocationFailure { additional }),
    }
}

} // verus!
