//! The list handle and its operations.

use crate::cell::{
    chain_of, chain_values, lemma_chain_of_push, lemma_chain_of_values, lemma_chain_rebuild,
    lemma_chain_walk, push_cell, Link, Node,
};
use std::sync::Arc;
use vstd::prelude::*;
use vstd::std_specs::cmp::PartialEqSpec;

verus! {

/// A handle on an immutable sequence of shared values.
///
/// Copying a handle copies one pointer. The cells behind it are never written
/// once a handle can reach them, so handles may share any common suffix.
///
/// The view of a handle is the sequence of its values, head first, and a
/// handle is nothing more than that: two handles with the same view are equal
/// (`lemma_view_eq`). Which cells two handles share is therefore not something
/// a contract can tell; the doc comments say where cells are reused.
///
/// A handle that is dropped frees the cells that no other handle can reach,
/// and stops at the first cell that another handle shares. The cells are freed
/// in a loop, not one from inside the other, so the stack needed to drop a
/// list does not grow with its length.
pub struct List<T> {
    head: Link<T>,
}

impl<T> View for List<T> {
    type V = Seq<T>;

    /// The values of the list, head first.
    closed spec fn view(&self) -> Seq<T> {
        chain_values(self.head)
    }
}

/// Whether `left` and `right` have the same length and, at every position,
/// values that the comparison of their types takes for equal.
pub open spec fn spec_pairwise_eq<T: PartialEq<U>, U>(left: Seq<T>, right: Seq<U>) -> bool {
    &&& left.len() == right.len()
    &&& forall|i: int| 0 <= i < left.len() ==> (#[trigger] left[i]).eq_spec(&right[i])
}

/// Whether `answer` is what `!=` may return for `left` and `right`. It is all
/// that is known of a comparison whose `==` has no specification.
pub open spec fn spec_ne_answers<T: PartialEq<U>, U>(left: T, right: U, answer: bool) -> bool {
    call_ensures(<T as PartialEq<U>>::ne, (&left, &right), answer)
}

impl<T> List<T> {
    /// The list that holds `values`, head first.
    pub closed spec fn of_seq(values: Seq<T>) -> Self {
        List { head: chain_of(values, None) }
    }

    /// The list that `prepend` makes of `self` and `val`.
    pub open spec fn spec_prepend(self, val: T) -> Self {
        Self::of_seq(seq![val] + self@)
    }

    /// The list that `tail` makes of `self`.
    pub open spec fn spec_tail(self) -> Self
        recommends
            self@.len() > 0,
    {
        Self::of_seq(self@.drop_first())
    }

    /// The list that `append` makes of `self` and `other`.
    pub open spec fn spec_append(self, other: Self) -> Self {
        Self::of_seq(self@ + other@)
    }

    /// `of_seq` is the inverse of the view, on sequences.
    pub proof fn lemma_of_seq_view(values: Seq<T>)
        ensures
            Self::of_seq(values)@ == values,
    {
        lemma_chain_of_values(values, None);
    }

    /// `of_seq` is the inverse of the view, on lists.
    pub proof fn lemma_of_seq_self(self)
        ensures
            Self::of_seq(self@) == self,
    {
        lemma_chain_rebuild(self.head);
    }

    /// A list is nothing but the values it holds: two lists with the same view
    /// are the same list.
    pub proof fn lemma_view_eq(self, other: Self)
        requires
            self@ == other@,
        ensures
            self == other,
    {
        self.lemma_of_seq_self();
        other.lemma_of_seq_self();
    }

    /// The empty list.
    pub fn new() -> (r: Self)
        ensures
            r@ == Seq::<T>::empty(),
    {
        List { head: None }
    }

    /// Whether the list holds no value. Takes constant time.
    pub fn is_empty(&self) -> (b: bool)
        ensures
            b == (self@.len() == 0),
    {
        self.head.is_none()
    }

    /// The number of values, where a `usize` can hold it; `usize::MAX` where
    /// there are more. Walks the whole list.
    pub fn len(&self) -> (n: usize)
        ensures
            self@.len() <= usize::MAX ==> n == self@.len(),
            self@.len() > usize::MAX ==> n == usize::MAX,
    {
        let mut n: usize = 0;
        let mut cursor = &self.head;
        loop
            invariant
                n <= self@.len(),
                chain_values(*cursor) == self@.skip(n as int),
            decreases *cursor,
        {
            match cursor {
                None => {
                    return n;
                },
                Some(cell) => {
                    proof {
                        lemma_chain_walk(self@, n as int, *cursor);
                    }
                    if n == usize::MAX {
                        return n;
                    }
                    n = n + 1;
                    cursor = &cell.next;
                },
            }
        }
    }

    /// The first value.
    pub fn head(&self) -> (v: Arc<T>)
        requires
            self@.len() > 0,
        ensures
            *v == self@[0],
    {
        let cell = self.head.as_ref().expect("head of an empty list");
        cell.val.clone()
    }

    /// The list without its first value. It shares every cell it has with
    /// `self`.
    pub fn tail(self) -> (r: Self)
        requires
            self@.len() > 0,
        ensures
            r == self.spec_tail(),
            r@ == self@.drop_first(),
    {
        let cell = self.head.as_ref().expect("tail of an empty list");
        let r = List {
            head: match &cell.next {
                Some(next) => Some(next.clone()),
                None => None,
            },
        };
        proof {
            assert(r@ == self@.drop_first());
            r.lemma_of_seq_self();
        }
        r
    }

    /// The list with `val` in front of the values of `self`.
    pub fn prepend(self, val: T) -> (r: Self)
        ensures
            r == self.spec_prepend(val),
            r@ == seq![val] + self@,
            r@.len() == self@.len() + 1,
            r@[0] == val,
    {
        self.prepend_shared(Arc::new(val))
    }

    /// The list with the value behind `val` in front of the values of `self`.
    /// Allocates one cell; the cells of `self` become the tail as they are.
    pub fn prepend_shared(self, val: Arc<T>) -> (r: Self)
        ensures
            r == self.spec_prepend(*val),
            r@ == seq![*val] + self@,
            r@.len() == self@.len() + 1,
            r@[0] == *val,
    {
        let r = List { head: Some(Arc::new(Node { val, next: self.head })) };
        proof {
            r.lemma_of_seq_self();
        }
        r
    }

    /// The values of `self` followed by the values of `ls`.
    ///
    /// Where one of the two is empty the other is returned as it is. Otherwise
    /// the cells of `self` are copied, front to back in one pass, since their
    /// links must go on leading to the rest of `self` for whoever else holds
    /// them; the values are shared, not copied, and the last new cell is
    /// linked to the first cell of `ls`, whose chain is used as it is.
    pub fn append(self, ls: Self) -> (r: Self)
        ensures
            r == self.spec_append(ls),
            r@ == self@ + ls@,
            self@.len() == 0 ==> r == ls,
            ls@.len() == 0 ==> r == self,
    {
        proof {
            self.lemma_of_seq_self();
            ls.lemma_of_seq_self();
        }
        if self.is_empty() {
            return ls;
        }
        if ls.is_empty() {
            return self;
        }
        let ghost values = self@;
        let ghost mut copied: int = 0;
        let mut rest = self;
        let mut list = List { head: None };
        let mut last = &mut list.head;
        loop
            invariant
                *last is None,
                0 <= copied <= values.len(),
                rest@ == values.skip(copied),
                after_borrow(list).head == chain_of(values.take(copied), *final(last)),
            ensures
                copied == values.len(),
            decreases rest@.len(),
        {
            match rest.next() {
                None => {
                    break ;
                },
                Some(element) => {
                    last = push_cell(last, element);
                    proof {
                        let built = values.take(copied);
                        lemma_chain_of_push(built, values[copied], *final(last));
                        assert(values.take(copied + 1) == built.push(values[copied]));
                        copied = copied + 1;
                    }
                },
            }
        }
        *last = ls.head;
        proof {
            lemma_chain_of_values(values, ls.head);
            list.lemma_of_seq_self();
        }
        list
    }

    /// The list that holds the values behind `source`, in the order of
    /// `source`.
    ///
    /// Built front to back in one pass: each value gets a fresh cell, hung at
    /// the open end of the chain built so far.
    pub fn from_shared(source: Vec<Arc<T>>) -> (r: Self)
        ensures
            r@ == source@.map_values(|v: Arc<T>| *v),
            r == Self::of_seq(source@.map_values(|v: Arc<T>| *v)),
    {
        let ghost values = source@.map_values(|v: Arc<T>| *v);
        let mut list = List { head: None };
        let mut last = &mut list.head;
        for val in it: source
            invariant
                *last is None,
                values == it.seq().map_values(|v: Arc<T>| *v),
                after_borrow(list).head == chain_of(values.take(it.index()), *final(last)),
        {
            last = push_cell(last, val);
            proof {
                let built = values.take(it.index());
                lemma_chain_of_push(built, values[it.index()], *final(last));
                assert(values.take(it.index() + 1) == built.push(values[it.index()]));
            }
        }
        proof {
            assert(values.take(values.len() as int) == values);
            Self::lemma_of_seq_view(values);
        }
        list
    }

    /// The values of the list as a vector, head first. The values are shared
    /// with the list, not copied.
    pub fn to_vec(&self) -> (v: Vec<Arc<T>>)
        ensures
            v@.map_values(|a: Arc<T>| *a) == self@,
    {
        let mut v: Vec<Arc<T>> = Vec::new();
        let mut cursor = &self.head;
        loop
            invariant
                v@.len() <= self@.len(),
                v@.map_values(|a: Arc<T>| *a) == self@.take(v@.len() as int),
                chain_values(*cursor) == self@.skip(v@.len() as int),
            decreases *cursor,
        {
            match cursor {
                None => {
                    return v;
                },
                Some(cell) => {
                    proof {
                        lemma_chain_walk(self@, v@.len() as int, *cursor);
                    }
                    v.push(cell.val.clone());
                    cursor = &cell.next;
                },
            }
        }
    }
}

impl<T> Clone for List<T> {
    /// A second handle on the same cells.
    fn clone(&self) -> (r: Self)
        ensures
            r == *self,
    {
        List {
            head: match &self.head {
                Some(cell) => Some(cell.clone()),
                None => None,
            },
        }
    }
}

impl<T> Iterator for List<T> {
    type Item = Arc<T>;

    /// Hands out the first value and moves this handle on to the tail. Only
    /// this handle moves: the cells stay as they are, and so does every other
    /// handle on them. An empty handle stays empty.
    fn next(&mut self) -> (r: Option<Arc<T>>)
        ensures
            old(self)@.len() == 0 ==> r is None && *final(self) == *old(self),
            old(self)@.len() > 0 ==> r is Some && *r->0 == old(self)@[0],
            old(self)@.len() > 0 ==> *final(self) == old(self).spec_tail(),
            old(self)@.len() > 0 ==> final(self)@ == old(self)@.drop_first(),
    {
        match &self.head {
            None => None,
            Some(cell) => {
                let val = cell.val.clone();
                let rest = match &cell.next {
                    Some(next) => Some(next.clone()),
                    None => None,
                };
                self.head = rest;
                proof {
                    assert(self@ == old(self)@.drop_first());
                    self.lemma_of_seq_self();
                }
                Some(val)
            },
        }
    }
}

impl<T> vstd::std_specs::iter::IteratorSpecImpl for List<T> {
    open spec fn obeys_prophetic_iter_laws(&self) -> bool {
        true
    }

    open spec fn remaining(&self) -> Seq<Arc<T>> {
        self@.map_values(|v: T| Arc::new(v))
    }

    open spec fn will_return_none(&self) -> bool {
        true
    }

    open spec fn decrease(&self) -> Option<nat> {
        Some(self@.len())
    }

    open spec fn initial_value_relation(&self, init: &Self) -> bool {
        self@ == init@
    }

    open spec fn peek(&self, index: int) -> Option<Arc<T>> {
        if 0 <= index < self@.len() {
            Some(Arc::new(self@[index]))
        } else {
            None
        }
    }
}

impl<T: PartialEq<U>, U> PartialEq<List<U>> for List<T> {
    /// Compares the two lists value by value with `!=`, from the heads on, and
    /// stops at the first pair that differs or where one list ends before the
    /// other.
    ///
    /// Lists of different lengths are never equal. Lists are equal only if
    /// `!=` answered `false` at every position, and unequal lists of the same
    /// length have a position where it answered `true`. For the types whose
    /// `==` is specified that is `spec_pairwise_eq`.
    fn eq(&self, rhs: &List<U>) -> (r: bool)
        ensures
            self@.len() != rhs@.len() ==> !r,
            r ==> forall|i: int|
                0 <= i < self@.len() ==> #[trigger] spec_ne_answers(self@[i], rhs@[i], false),
            !r && self@.len() == rhs@.len() ==> exists|i: int|
                0 <= i < self@.len() && #[trigger] spec_ne_answers(self@[i], rhs@[i], true),
            <T as PartialEqSpec<U>>::obeys_eq_spec() ==> r == spec_pairwise_eq(self@, rhs@),
    {
        let mut left = self.clone();
        let mut right = rhs.clone();
        let ghost mut seen: int = 0;
        loop
            invariant
                0 <= seen <= self@.len(),
                seen <= rhs@.len(),
                left@ == self@.skip(seen),
                right@ == rhs@.skip(seen),
                forall|i: int|
                    0 <= i < seen ==> #[trigger] spec_ne_answers(self@[i], rhs@[i], false),
                <T as PartialEqSpec<U>>::obeys_eq_spec() ==> forall|i: int|
                    0 <= i < seen ==> (#[trigger] self@[i]).eq_spec(&rhs@[i]),
            decreases left@.len(),
        {
            let l = left.next();
            let r = right.next();
            match (l, r) {
                (None, None) => {
                    return true;
                },
                (Some(l), Some(r)) => {
                    if *l != *r {
                        assert(spec_ne_answers(self@[seen], rhs@[seen], true));
                        return false;
                    }
                },
                _ => {
                    return false;
                },
            }
            proof {
                seen = seen + 1;
            }
        }
    }
}

impl<T: PartialEq<U>, U> vstd::std_specs::cmp::PartialEqSpecImpl<List<U>> for List<T> {
    open spec fn obeys_eq_spec() -> bool {
        <T as PartialEqSpec<U>>::obeys_eq_spec()
    }

    open spec fn eq_spec(&self, other: &List<U>) -> bool {
        spec_pairwise_eq(self@, other@)
    }
}

impl<T: Eq> Eq for List<T> {}

impl<T: Clone> List<T> {
    /// A list of the same length whose values are clones of the values of
    /// `self`, each in a cell of its own: nothing is shared with `self`.
    ///
    /// Each value of the result is what `clone` returned for the value at its
    /// place in `self`.
    pub fn deep_clone(&self) -> (r: Self)
        ensures
            r@.len() == self@.len(),
            forall|i: int|
                0 <= i < self@.len() ==> vstd::pervasive::strictly_cloned::<T>(
                    self@[i],
                    #[trigger] r@[i],
                ),
    {
        let ghost mut clones: Seq<T> = Seq::empty();
        let mut list = List { head: None };
        let mut last = &mut list.head;
        let mut cursor = &self.head;
        loop
            invariant
                *last is None,
                clones.len() <= self@.len(),
                chain_values(*cursor) == self@.skip(clones.len() as int),
                forall|i: int|
                    0 <= i < clones.len() ==> vstd::pervasive::strictly_cloned::<T>(
                        self@[i],
                        #[trigger] clones[i],
                    ),
                after_borrow(list).head == chain_of(clones, *final(last)),
            ensures
                clones.len() == self@.len(),
            decreases *cursor,
        {
            match cursor {
                None => {
                    break ;
                },
                Some(cell) => {
                    proof {
                        lemma_chain_walk(self@, clones.len() as int, *cursor);
                    }
                    let copy = (*cell.val).clone();
                    let ghost built = clones;
                    let ghost made = copy;
                    last = push_cell(last, Arc::new(copy));
                    proof {
                        clones = built.push(made);
                        lemma_chain_of_push(built, made, *final(last));
                    }
                    cursor = &cell.next;
                },
            }
        }
        proof {
            lemma_chain_of_values(clones, None);
        }
        list
    }
}

impl<T> From<Vec<T>> for List<T> {
    /// The list that holds the items of `source`, in the order of `source`,
    /// each behind a fresh shared reference.
    ///
    /// Built front to back in one pass, as `from_shared` builds.
    fn from(source: Vec<T>) -> (r: Self)
        ensures
            r@ == source@,
            r == Self::of_seq(source@),
    {
        let ghost values = source@;
        let mut list = List { head: None };
        let mut last = &mut list.head;
        for val in it: source
            invariant
                *last is None,
                values == it.seq(),
                after_borrow(list).head == chain_of(values.take(it.index()), *final(last)),
        {
            last = push_cell(last, Arc::new(val));
            proof {
                let built = values.take(it.index());
                lemma_chain_of_push(built, values[it.index()], *final(last));
                assert(values.take(it.index() + 1) == built.push(values[it.index()]));
            }
        }
        proof {
            assert(values.take(values.len() as int) == values);
            Self::lemma_of_seq_view(values);
        }
        list
    }
}

impl<T> vstd::std_specs::convert::FromSpecImpl<Vec<T>> for List<T> {
    open spec fn obeys_from_spec() -> bool {
        true
    }

    open spec fn from_spec(source: Vec<T>) -> Self {
        Self::of_seq(source@)
    }
}

/// `Vec::from` on an array: the vector that the items of `items` are moved
/// into, in their order.
#[verifier::external_body]
fn array_into_vec<T, const N: usize>(items: [T; N]) -> (v: Vec<T>)
    ensures
        v@ == items@,
{
    Vec::from(items)
}

impl<T, const N: usize> From<[T; N]> for List<T> {
    /// The list that holds the items of `source`, in the order of `source`,
    /// each behind a fresh shared reference.
    fn from(source: [T; N]) -> (r: Self)
        ensures
            r@ == source@,
            r == Self::of_seq(source@),
    {
        List::from(array_into_vec(source))
    }
}

impl<T, const N: usize> vstd::std_specs::convert::FromSpecImpl<[T; N]> for List<T> {
    open spec fn obeys_from_spec() -> bool {
        true
    }

    open spec fn from_spec(source: [T; N]) -> Self {
        Self::of_seq(source@)
    }
}

impl<T> std::ops::Index<usize> for List<T> {
    type Output = Arc<T>;

    /// The value at position `idx`, counted from 0 at the head. Walks `idx`
    /// cells.
    fn index(&self, idx: usize) -> (r: &Arc<T>)
        ensures
            **r == self@[idx as int],
    {
        let mut cursor = &self.head;
        let mut left = idx;
        loop
            invariant
                left <= idx < self@.len(),
                chain_values(*cursor) == self@.skip(idx - left),
            decreases left,
        {
            proof {
                if *cursor is Some {
                    lemma_chain_walk(self@, idx - left, *cursor);
                }
            }
            let cell = cursor.as_ref().expect("index out of bounds");
            if left == 0 {
                return &cell.val;
            }
            cursor = &cell.next;
            left = left - 1;
        }
    }
}

impl<T> vstd::std_specs::core::IndexSpecImpl<usize> for List<T> {
    open spec fn index_req(&self, index: &usize) -> bool {
        *index < self@.len()
    }
}

} // verus!
