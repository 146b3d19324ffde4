//! The reference count that CEF objects made by the client carry: CEF adds
//! and releases references, and the object is freed with its last one.
use vstd::prelude::*;

verus! {

/// The count left after one of `count` references is given up, and whether
/// that was the last one.
pub open spec fn released(count: int) -> (int, bool) {
    (count - 1, count == 1)
}

/// The number of references held to an object.
pub struct RefCount {
    pub count: usize,
}

impl RefCount {
    /// A new object starts with the one reference of its creator.
    pub fn new() -> (r: RefCount)
        ensures
            r.count == 1,
    {
        RefCount { count: 1 }
    }

    /// Another reference is taken.
    pub fn add_ref(&mut self)
        requires
            old(self).count < usize::MAX,
        ensures
            final(self).count == old(self).count + 1,
    {
        self.count = self.count + 1;
    }

    /// 1 when exactly one reference is held, else 0.
    pub fn has_one_ref(&self) -> (r: i32)
        ensures
            r == (if self.count == 1 { 1i32 } else { 0i32 }),
    {
        if self.count == 1 {
            1
        } else {
            0
        }
    }

    /// 1 when some reference is held, else 0.
    pub fn has_at_least_one_ref(&self) -> (r: i32)
        ensures
            r == (if self.count >= 1 { 1i32 } else { 0i32 }),
    {
        if self.count >= 1 {
            1
        } else {
            0
        }
    }

    /// A reference is given up; 1 when it was the last one (the object is then
    /// to be freed), else 0.
    pub fn release(&mut self) -> (freed: i32)
        requires
            old(self).count > 0,
        ensures
            (final(self).count as int, freed == 1) == released(old(self).count as int),
            freed == 0 || freed == 1,
    {
        let prev = self.count;
        self.count = prev - 1;
        if prev != 1 {
            0
        } else {
            1
        }
    }
}

/// Taking and then giving up a reference leaves the count as it was and
/// frees nothing.
pub proof fn law_add_then_release(count: int)
    requires
        count >= 1,
    ensures
        released(count + 1) == (count, false),
{
}

} // verus!
