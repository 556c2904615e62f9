//! A list that always has at least one item.

use vstd::prelude::*;
use crate::deep::deep;

verus! {

/// A non-empty list: one item, then any number of further items.
#[derive(Debug, PartialEq, Eq)]
pub struct OneOrMany<T> {
    first: T,
    rest: Vec<T>,
}

/// A list was to be made of no items at all.
#[derive(Debug, Clone, Copy, PartialEq, Eq)]
pub struct EmptyListError;

impl<T> View for OneOrMany<T> {
    type V = Seq<T>;

    closed spec fn view(&self) -> Seq<T> {
        seq![self.first] + self.rest@
    }
}

impl<T: DeepView> DeepView for OneOrMany<T> {
    type V = Seq<T::V>;

    open spec fn deep_view(&self) -> Seq<T::V> {
        deep(self@)
    }
}

/// Such a list is never empty.
pub broadcast proof fn lemma_never_empty<T>(list: OneOrMany<T>)
    ensures
        #[trigger] list@.len() >= 1,
{
}

impl<T: Clone> Clone for OneOrMany<T> {
    fn clone(&self) -> (copy: Self)
        ensures
            copy@.len() == self@.len(),
            forall|i: int| 0 <= i < self@.len() ==> cloned::<T>(#[trigger] self@[i], copy@[i]),
    {
        let copy = OneOrMany { first: self.first.clone(), rest: self.rest.clone() };
        assert forall|i: int| 0 <= i < self@.len() implies cloned::<T>(#[trigger] self@[i], copy@[i]) by {
            if i > 0 {
                assert(self@[i] == self.rest@[i - 1]);
                assert(copy@[i] == copy.rest@[i - 1]);
            }
        }
        copy
    }
}

impl<T> OneOrMany<T> {
    /// The list of one item.
    pub fn one(item: T) -> (list: Self)
        ensures
            list@ == seq![item],
    {
        let list = OneOrMany { first: item, rest: Vec::new() };
        assert(list@ =~= seq![item]);
        list
    }

    /// The list of the given items; there has to be one at least.
    pub fn many(items: Vec<T>) -> (list: Result<Self, EmptyListError>)
        ensures
            list is Err <==> items@.len() == 0,
            list matches Ok(list) ==> list@ == items@,
    {
        match Self::from_vec(items) {
            Some(list) => Ok(list),
            None => Err(EmptyListError),
        }
    }

    /// The list of the given items, or `None` when there are none.
    pub fn from_vec(items: Vec<T>) -> (list: Option<Self>)
        ensures
            list is None <==> items@.len() == 0,
            list matches Some(list) ==> list@ == items@,
    {
        let mut rest = items;
        if rest.len() == 0 {
            return None;
        }
        let first = rest.remove(0);
        let list = OneOrMany { first, rest };
        assert(list@ =~= items@);
        Some(list)
    }

    /// The first item.
    pub fn first(&self) -> (item: &T)
        ensures
            *item == self@[0],
    {
        &self.first
    }

    /// Whether there is one item only.
    pub fn is_single(&self) -> (single: bool)
        ensures
            single == (self@.len() == 1),
    {
        self.rest.len() == 0
    }

    /// The items in order.
    pub fn iter(&self) -> (items: Vec<&T>)
        ensures
            items@.len() == self@.len(),
            forall|i: int| 0 <= i < items@.len() ==> *(#[trigger] items@[i]) == self@[i],
    {
        let mut items: Vec<&T> = Vec::new();
        items.push(&self.first);
        let mut i: usize = 0;
        while i < self.rest.len()
            invariant
                i <= self.rest@.len(),
                items@.len() == i + 1,
                forall|k: int| 0 <= k < items@.len() ==> *(#[trigger] items@[k]) == self@[k],
            decreases self.rest@.len() - i,
        {
            items.push(&self.rest[i]);
            i = i + 1;
        }
        items
    }

    /// The items in order, taken out of the list.
    pub fn into_vec(self) -> (items: Vec<T>)
        ensures
            items@ == self@,
    {
        let ghost whole = self@;
        let mut items = self.rest;
        items.insert(0, self.first);
        assert(items@ =~= whole);
        items
    }

    /// Adds an item at the end.
    pub fn push(&mut self, item: T)
        ensures
            final(self)@ == old(self)@.push(item),
    {
        self.rest.push(item);
        assert(self@ =~= old(self)@.push(item));
    }

    /// Adds an item in front of all others.
    pub fn push_front(&mut self, item: T)
        ensures
            final(self)@ == seq![item] + old(self)@,
    {
        let mut item = item;
        std::mem::swap(&mut self.first, &mut item);
        self.rest.insert(0, item);
        assert(self@ =~= seq![self.first] + old(self)@);
    }

    /// How many items there are.
    pub fn len(&self) -> (n: usize)
        requires
            self@.len() <= usize::MAX,
        ensures
            n == self@.len(),
    {
        1 + self.rest.len()
    }
}

} // verus!
