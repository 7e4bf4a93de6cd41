//! Datasets: numbered items that can be read one after the other.

use std::marker::PhantomData;
use vstd::prelude::*;

verus! {

/// A source of numbered items.
pub trait Dataset<I>: Send + Sync {
    /// The item with the given number, if there is one.
    fn get(&self, index: usize) -> Option<I>;

    /// The number of items.
    fn len(&self) -> usize;

    /// A cursor at the first item of this dataset.
    fn iter(&self) -> (iterator: DatasetIterator<'_, I, Self>) where Self: Sized
        ensures
            iterator.position() == 0,
            iterator.source() == self,
    {
        DatasetIterator { current: 0, dataset: self, items: PhantomData }
    }
}

/// A cursor over the items of a dataset.
pub struct DatasetIterator<'a, I, D> {
    current: usize,
    dataset: &'a D,
    items: PhantomData<I>,
}

impl<'a, I, D> DatasetIterator<'a, I, D> {
    /// The number of the item that the cursor reads next.
    pub closed spec fn position(&self) -> usize {
        self.current
    }

    /// The dataset that the cursor reads.
    pub closed spec fn source(&self) -> &'a D {
        self.dataset
    }

    /// The number of the item that the cursor reads next.
    pub fn current(&self) -> (index: usize)
        ensures
            index == self.position(),
    {
        self.current
    }
}

impl<'a, I, D: Dataset<I>> DatasetIterator<'a, I, D> {
    /// A cursor at the first item of `dataset`.
    pub fn new(dataset: &'a D) -> (iterator: Self)
        ensures
            iterator.position() == 0,
            iterator.source() == dataset,
    {
        DatasetIterator { current: 0, dataset, items: PhantomData }
    }

    /// Reads the item of the dataset at the cursor and moves the cursor on,
    /// also where there was no item: the result is what the dataset's `get`
    /// answers for the cursor's number. A cursor at the largest number stays there.
    pub fn next(&mut self) -> (item: Option<I>)
        ensures
            call_ensures(D::get, (old(self).source(), old(self).position()), item),
            final(self).source() == old(self).source(),
            final(self).position() == if old(self).position() < usize::MAX {
                old(self).position() + 1
            } else {
                usize::MAX as int
            },
    {
        let item = self.dataset.get(self.current);
        if self.current < usize::MAX {
            self.current = self.current + 1;
        }
        item
    }
}

} // verus!
