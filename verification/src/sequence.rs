use vstd::prelude::*;

verus! {

/// An append-only sequence of items, addressed by a dense index that starts
/// at 0. Every sequence carries the storage key under which its items are
/// kept, so that independent sequences never share a location.
pub struct Sequence<T> {
    prefix: Vec<u8>,
    items: Vec<T>,
}

impl<T> View for Sequence<T> {
    type V = Seq<T>;

    closed spec fn view(&self) -> Seq<T> {
        self.items@
    }
}

impl<T> Sequence<T> {
    /// The storage key that this sequence was made with.
    pub closed spec fn prefix(&self) -> Seq<u8> {
        self.prefix@
    }

    /// An empty sequence that lives under `prefix`.
    pub fn new(prefix: Vec<u8>) -> (s: Self)
        ensures
            s@ == Seq::<T>::empty(),
            s.prefix() == prefix@,
    {
        Sequence { prefix, items: Vec::new() }
    }

    /// The number of items.
    pub fn len(&self) -> (n: u64)
        ensures
            n == self@.len(),
    {
        self.items.len() as u64
    }

    /// Whether the sequence holds no item.
    pub fn is_empty(&self) -> (empty: bool)
        ensures
            empty == (self@.len() == 0),
    {
        self.items.len() == 0
    }

    /// Appends `item`; its index is the length before the call.
    pub fn push(&mut self, item: T)
        ensures
            final(self)@ == old(self)@.push(item),
            final(self).prefix() == old(self).prefix(),
    {
        self.items.push(item);
    }

    /// The item at `index`, or `None` where `index` is not below the length.
    pub fn get(&self, index: u64) -> (item: Option<&T>)
        ensures
            index < self@.len() ==> item == Some(&self@[index as int]),
            index >= self@.len() ==> item.is_none(),
    {
        if index < self.items.len() as u64 {
            Some(&self.items[index as usize])
        } else {
            None
        }
    }

    /// The storage key of this sequence.
    pub fn storage_prefix(&self) -> (key: &Vec<u8>)
        ensures
            key@ == self.prefix(),
    {
        &self.prefix
    }

    /// Takes out the item at `index` and closes the gap, keeping the order
    /// of the others. Only the ordered sets of this crate remove items.
    pub(crate) fn remove(&mut self, index: u64) -> (item: T)
        requires
            index < old(self)@.len(),
        ensures
            item == old(self)@[index as int],
            final(self)@ == old(self)@.remove(index as int),
            final(self).prefix() == old(self).prefix(),
    {
        let count: usize = self.items.len();
        assert(index < count);
        self.items.remove(index as usize)
    }
}

} // verus!
