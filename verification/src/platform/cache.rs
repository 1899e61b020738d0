//! Replace-in-place cells: the held value is moved to a transform and the
//! transform's result is stored back.

use vstd::prelude::*;

verus! {

/// A cell that always holds a value.
pub struct PanicCell<T> {
    value: Option<T>,
}

impl<T> PanicCell<T> {
    /// The cell holds a value.
    pub closed spec fn wf(&self) -> bool {
        self.value is Some
    }

    /// The value held.
    pub closed spec fn content(&self) -> T {
        self.value->0
    }

    pub fn new(value: T) -> (r: Self)
        ensures
            r.wf(),
            r.content() == value,
    {
        PanicCell { value: Some(value) }
    }

    pub fn get(&self) -> (r: &T)
        requires
            self.wf(),
        ensures
            *r == self.content(),
    {
        self.value.as_ref().unwrap()
    }

    /// Replaces the value by what `transform` makes of it.
    pub fn replace_with<F>(&mut self, transform: F)
        where
            F: FnOnce(T) -> T,
        requires
            old(self).wf(),
            call_requires(transform, (old(self).content(),)),
        ensures
            final(self).wf(),
            call_ensures(transform, (old(self).content(),), final(self).content()),
    {
        let held = self.value.take();
        match held {
            Some(v) => {
                self.value = Some(transform(v));
            },
            None => {},
        }
    }
}

/// A cell that may be empty: it is left empty when its transform does not
/// return.
pub struct SafeCell<T> {
    value: Option<T>,
}

impl<T> SafeCell<T> {
    /// The value held, if any.
    pub closed spec fn content(&self) -> Option<T> {
        self.value
    }

    pub fn new(value: T) -> (r: Self)
        ensures
            r.content() == Some(value),
    {
        SafeCell { value: Some(value) }
    }

    pub fn get(&self) -> (r: Option<&T>)
        ensures
            r is Some == self.content() is Some,
            r matches Some(v) ==> *v == self.content()->0,
    {
        self.value.as_ref()
    }

    /// Replaces the value by what `transform` makes of it; the cell must hold
    /// one.
    pub fn replace_with<F>(&mut self, transform: F)
        where
            F: FnOnce(T) -> T,
        requires
            old(self).content() is Some,
            call_requires(transform, (old(self).content()->0,)),
        ensures
            final(self).content() is Some,
            call_ensures(transform, (old(self).content()->0,), final(self).content()->0),
    {
        let held = self.value.take();
        match held {
            Some(v) => {
                self.value = Some(transform(v));
            },
            None => {},
        }
    }
}

} // verus!
