//! A value that is either one item or a list of items, and the rule by which a sequence
//! collapses into one.

use vstd::prelude::*;

verus! {

/// Either a single `T` or a list of `T`.
#[derive(Debug, PartialEq, Eq)]
pub enum OneOrList<T> {
    One(T),
    List(Vec<T>),
}

/// The mathematical counterpart of [`OneOrList`]: one value, or a sequence of values.
pub enum OneOrMany<T> {
    One(T),
    Many(Seq<T>),
}

impl<T> OneOrMany<T> {
    /// The values held, in order.
    pub open spec fn elements(self) -> Seq<T> {
        match self {
            OneOrMany::One(x) => seq![x],
            OneOrMany::Many(s) => s,
        }
    }
}

/// The collapsing rule: an empty sequence is absent, a sequence of one value is that
/// value, a longer sequence stays a list.
pub open spec fn collapsed<T>(s: Seq<T>) -> Option<OneOrMany<T>> {
    if s.len() == 0 {
        None
    } else if s.len() == 1 {
        Some(OneOrMany::One(s[0]))
    } else {
        Some(OneOrMany::Many(s))
    }
}

/// The collapsing rule where absence is written as the empty list: a sequence of one
/// value is that value, any other sequence stays a list.
pub open spec fn collapsed_or_empty<T>(s: Seq<T>) -> OneOrMany<T> {
    if s.len() == 1 {
        OneOrMany::One(s[0])
    } else {
        OneOrMany::Many(s)
    }
}

/// `core::slice::from_ref`: the slice of length one that holds the referenced value.
pub assume_specification<T>[ core::slice::from_ref::<T> ](s: &T) -> (r: &[T])
    ensures
        r@ == seq![*s],
;

/// `core::slice::from_mut`: the slice of length one through which the referenced value is
/// read and written.
pub assume_specification<T>[ core::slice::from_mut::<T> ](s: &mut T) -> (r: &mut [T])
    ensures
        r@ == seq![*old(s)],
        final(r)@.len() == 1,
        *final(s) == final(r)@[0],
;

impl<T> OneOrList<T> {
    /// The items held, in order: one item for `One`, the list's items for `List`.
    pub open spec fn elements(&self) -> Seq<T> {
        match self {
            OneOrList::One(x) => seq![*x],
            OneOrList::List(v) => v@,
        }
    }

    /// The same value with its list, if it has one, as a sequence.
    pub open spec fn shape(&self) -> OneOrMany<T> {
        match self {
            OneOrList::One(x) => OneOrMany::One(*x),
            OneOrList::List(v) => OneOrMany::Many(v@),
        }
    }

    /// The items as a slice.
    pub fn as_slice(&self) -> (s: &[T])
        ensures
            s@ == self.elements(),
    {
        match self {
            OneOrList::One(x) => core::slice::from_ref(x),
            OneOrList::List(x) => x.as_slice(),
        }
    }

    /// The items as a slice through which each of them can be replaced. The variant stays
    /// what it was, and holds what the slice holds when the borrow ends.
    pub fn as_slice_mut(&mut self) -> (s: &mut [T])
        ensures
            s@ == old(self).elements(),
            final(self).elements() == final(s)@,
            (*final(self) is One) == (*old(self) is One),
    {
        match self {
            OneOrList::One(x) => core::slice::from_mut(x),
            OneOrList::List(x) => x.as_mut_slice(),
        }
    }

    /// Collapses a list: nothing for no item, the item itself for one, the list for more.
    pub fn collapse(list: Vec<T>) -> (r: Option<Self>)
        ensures
            r.is_some() == collapsed(list@).is_some(),
            r.is_some() ==> r.unwrap().shape() == collapsed(list@).unwrap(),
    {
        let mut list = list;
        if list.len() == 0 {
            None
        } else if list.len() == 1 {
            let only = list.pop();
            Some(OneOrList::One(only.unwrap()))
        } else {
            Some(OneOrList::List(list))
        }
    }

    /// Collapses a list that is never absent: the item itself for one item, the list for
    /// none or for more.
    pub fn collapse_or_empty(list: Vec<T>) -> (r: Self)
        ensures
            r.shape() == collapsed_or_empty(list@),
    {
        let mut list = list;
        if list.len() == 1 {
            let only = list.pop();
            OneOrList::One(only.unwrap())
        } else {
            OneOrList::List(list)
        }
    }
}

impl<T> Default for OneOrList<T> {
    /// The empty list.
    fn default() -> (r: Self)
        ensures
            r.shape() == OneOrMany::<T>::Many(Seq::empty()),
    {
        OneOrList::List(Vec::new())
    }
}

/// A sequence of one value collapses to that value, never to a list of one.
pub proof fn lemma_one_collapses_to_one<T>(s: Seq<T>)
    requires
        s.len() == 1,
    ensures
        collapsed(s) == Some(OneOrMany::One(s[0])),
        collapsed_or_empty(s) == OneOrMany::One(s[0]),
{
}

/// A sequence of two or more values collapses to the list of them, in their order; an
/// empty sequence is absent, or the empty list where absence is written so.
pub proof fn lemma_other_lengths_collapse_to_list<T>(s: Seq<T>)
    requires
        s.len() != 1,
    ensures
        s.len() == 0 ==> collapsed(s) is None,
        s.len() >= 2 ==> collapsed(s) == Some(OneOrMany::Many(s)),
        collapsed_or_empty(s) == OneOrMany::Many(s),
{
}

/// Collapsing loses nothing: the values of the collapsed form are the sequence.
pub proof fn lemma_collapse_keeps_elements<T>(s: Seq<T>)
    ensures
        collapsed_or_empty(s).elements() == s,
        collapsed(s) is Some ==> collapsed(s).unwrap().elements() == s,
        collapsed(s) is None ==> s.len() == 0,
{
    if s.len() == 1 {
        assert(seq![s[0]] =~= s);
    }
}

} // verus!
