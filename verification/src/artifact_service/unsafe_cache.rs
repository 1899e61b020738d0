//! A compact collection whose removal hands the removed item to a callback.

use vstd::prelude::*;

verus! {

#[derive(Debug)]
pub struct FragileVec<T> {
    items: Vec<T>,
}

impl<T> FragileVec<T> {
    /// The items, in order.
    pub closed spec fn items(&self) -> Seq<T> {
        self.items@
    }

    pub fn from_vec(items: Vec<T>) -> (r: Self)
        ensures
            r.items() == items@,
    {
        FragileVec { items }
    }

    pub fn as_slice(&self) -> (r: &[T])
        ensures
            r@ == self.items(),
    {
        self.items.as_slice()
    }

    /// Removes the item at `index` (the rest shift down) and hands it to
    /// `callback`.
    pub fn remove_with<F>(&mut self, index: usize, callback: F)
        where
            F: FnOnce(T),
        requires
            index < old(self).items().len(),
            call_requires(callback, (old(self).items()[index as int],)),
        ensures
            final(self).items() == old(self).items().remove(index as int),
    {
        let value = self.items.remove(index);
        callback(value);
    }
}

} // verus!
