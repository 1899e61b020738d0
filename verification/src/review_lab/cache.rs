//! A replace-in-place cell for bundle jobs: the held value is moved to a
//! transform and the transform's result is stored back.

use vstd::prelude::*;

pub use crate::platform::cache::SafeCell;

verus! {

/// A cell that always holds a value.
pub struct SlotCell<T> {
    value: Option<T>,
}

impl<T> SlotCell<T> {
    /// The cell holds a value.
    pub closed spec fn wf(&self) -> bool {
        self.value is Some
    }

    /// The value held.
    pub closed spec fn content(&self) -> T {
        self.value->0
    }

    pub fn new(value: T) -> (r: Self)
        ensures
            r.wf(),
            r.content() == value,
    {
        SlotCell { value: Some(value) }
    }

    pub fn get(&self) -> (r: &T)
        requires
            self.wf(),
        ensures
            *r == self.content(),
    {
        self.value.as_ref().unwrap()
    }

    /// Replaces the value by what `transform` makes of it.
    pub fn replace_with<F>(&mut self, transform: F)
        where
            F: FnOnce(T) -> T,
        requires
            old(self).wf(),
            call_requires(transform, (old(self).content(),)),
        ensures
            final(self).wf(),
            call_ensures(transform, (old(self).content(),), final(self).content()),
    {
        let held = self.value.take();
        match held {
            Some(v) => {
                self.value = Some(transform(v));
            },
            None => {},
        }
    }
}

} // verus!
