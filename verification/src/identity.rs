//! Identities and their allocation.

use vstd::prelude::*;

verus! {

/// Identity given to each connection by the server.
///
/// Two identities are equal exactly when the wrapped numbers are.
#[derive(Debug, Clone, Copy, PartialEq, Eq, Hash, Structural)]
pub struct UserId(pub usize);

impl View for UserId {
    type V = usize;

    open spec fn view(&self) -> usize {
        self.0
    }
}

/// The counter value that follows `value`; the counter wraps at the top of
/// its range.
pub open spec fn successor(value: usize) -> usize {
    if value == usize::MAX {
        0
    } else {
        (value + 1) as usize
    }
}

/// Source of fresh identities: a counter that starts at 1 and is read and
/// incremented by every allocation.
pub struct IdAllocator {
    next: usize,
}

impl View for IdAllocator {
    type V = usize;

    /// The number that the next allocation will hand out.
    closed spec fn view(&self) -> usize {
        self.next
    }
}

impl IdAllocator {
    /// An allocator that has issued nothing yet; zero is never the first
    /// identity.
    pub fn new() -> (allocator: Self)
        ensures
            allocator@ == 1,
    {
        IdAllocator { next: 1 }
    }
}

impl UserId {
    pub fn from_usize(id: usize) -> (uid: Self)
        ensures
            uid == UserId(id),
    {
        UserId(id)
    }

    /// The wrapped number.
    pub fn as_usize(self) -> (id: usize)
        ensures
            id == self@,
    {
        self.0
    }

    /// Takes the next identity from `allocator` and advances it by one.
    pub fn create_new_user_id(allocator: &mut IdAllocator) -> (id: Self)
        ensures
            id == UserId(old(allocator)@),
            final(allocator)@ == successor(old(allocator)@),
    {
        let id = UserId(allocator.next);
        allocator.next = if allocator.next == usize::MAX {
            0
        } else {
            allocator.next + 1
        };
        id
    }
}

} // verus!
