//! A slot for a value that is set up once and then shared.
use vstd::prelude::*;

verus! {

/// A slot that holds a value or nothing.
pub struct StaticCell<T>(pub Option<T>);

impl<T> StaticCell<T> {
    /// An empty slot.
    pub fn new() -> (c: Self)
        ensures
            c.0 is None,
    {
        StaticCell(None)
    }

    /// The value held, for changing in place.
    pub fn get_mut(&mut self) -> (r: Option<&mut T>)
        ensures
            match old(self).0 {
                None => r is None && final(self).0 is None,
                Some(v) => r matches Some(x) && *x == v && final(self).0 == Some(*final(x)),
            },
    {
        self.0.as_mut()
    }

    /// Holds `value`, replacing what was held; gives it back for changing.
    pub fn set(&mut self, value: T) -> (r: &mut T)
        ensures
            *r == value,
            final(self).0 == Some(*final(r)),
    {
        self.0.insert(value)
    }

    /// Empties the slot, giving back what it held.
    pub fn take(&mut self) -> (r: Option<T>)
        ensures
            r == old(self).0,
            final(self).0 is None,
    {
        self.0.take()
    }
}

} // verus!
