//! What holds of the list operations taken together, for every list.
//!
//! Each law is stated over the views of the lists involved and over the spec
//! functions that the contracts of the operations use.

use crate::list::{spec_ne_answers, spec_pairwise_eq, List};
use vstd::prelude::*;
use vstd::std_specs::cmp::PartialEqSpec;

verus! {

/// A list built from a sequence of values holds exactly that sequence: reading
/// it back gives what went in, in the same order.
pub proof fn law_round_trip<T>(values: Seq<T>)
    ensures
        List::<T>::of_seq(values)@ == values,
{
    List::<T>::lemma_of_seq_view(values);
}

/// Prepending makes the list longer by one and puts the new value at the
/// head.
pub proof fn law_prepend_len_head<T>(list: List<T>, val: T)
    ensures
        list.spec_prepend(val)@.len() == list@.len() + 1,
        list.spec_prepend(val)@[0] == val,
{
    List::<T>::lemma_of_seq_view(seq![val] + list@);
}

/// The tail of a list that was made by prepending is the list that was
/// prepended to.
pub proof fn law_tail_of_prepend<T>(list: List<T>, val: T)
    ensures
        list.spec_prepend(val).spec_tail() == list,
        list.spec_prepend(val).spec_tail()@ == list@,
{
    let longer = seq![val] + list@;
    List::<T>::lemma_of_seq_view(longer);
    assert(longer.drop_first() == list@);
    list.lemma_of_seq_self();
}

/// Appending concatenates: the result holds the values of the first list
/// followed by the values of the second.
pub proof fn law_append_concat<T>(first: List<T>, second: List<T>)
    ensures
        first.spec_append(second)@ == first@ + second@,
        first.spec_append(second)@.len() == first@.len() + second@.len(),
{
    List::<T>::lemma_of_seq_view(first@ + second@);
}

/// The empty list is neutral for appending, on either side: the result is the
/// other list itself.
pub proof fn law_append_empty<T>(list: List<T>, empty: List<T>)
    requires
        empty@.len() == 0,
    ensures
        empty.spec_append(list) == list,
        list.spec_append(empty) == list,
{
    list.lemma_of_seq_self();
}

/// Two lists compare equal exactly if they have the same length and their
/// values compare equal position by position: a difference in length or in
/// any one pair of values makes them unequal.
pub proof fn law_eq_pairwise<T: PartialEq<U>, U>(left: List<T>, right: List<U>)
    ensures
        left.eq_spec(&right) <==> spec_pairwise_eq(left@, right@),
        left@.len() != right@.len() ==> !left.eq_spec(&right),
        forall|i: int|
            0 <= i < left@.len() && i < right@.len() && !(#[trigger] left@[i]).eq_spec(&right@[i])
                ==> !left.eq_spec(&right),
        (left@.len() == right@.len() && (forall|i: int|
            0 <= i < left@.len() ==> (#[trigger] left@[i]).eq_spec(&right@[i])))
            ==> left.eq_spec(&right),
{
}

/// Where every value compares equal to itself, every list compares equal to
/// itself.
pub proof fn law_eq_reflexive<T: PartialEq>(list: List<T>)
    requires
        forall|x: T| #[trigger] x.eq_spec(&x),
    ensures
        list.eq_spec(&list),
{
}

/// Where comparing values gives the same answer in either direction, so does
/// comparing lists.
pub proof fn law_eq_symmetric<T: PartialEq<U>, U: PartialEq<T>>(left: List<T>, right: List<U>)
    requires
        forall|x: T, y: U| #[trigger] x.eq_spec(&y) == y.eq_spec(&x),
    ensures
        left.eq_spec(&right) == right.eq_spec(&left),
{
}

/// Where values compare equal exactly if they are the same value, lists
/// compare equal exactly if they hold the same values: if they are the same
/// list.
pub proof fn law_eq_same_values<T: PartialEq>(left: List<T>, right: List<T>)
    requires
        forall|x: T, y: T| #[trigger] x.eq_spec(&y) <==> x == y,
    ensures
        left.eq_spec(&right) <==> left@ == right@,
        left.eq_spec(&right) <==> left == right,
{
    if left.eq_spec(&right) {
        assert(left@ =~= right@);
    }
    if left@ == right@ {
        left.lemma_view_eq(right);
    }
}

/// For types whose `==` is specified, `!=` answers `true` exactly for values
/// that do not compare equal.
pub proof fn law_ne_answers_specified<T: PartialEq<U>, U>(left: T, right: U, answer: bool)
    requires
        <T as PartialEqSpec<U>>::obeys_eq_spec(),
        spec_ne_answers(left, right, answer),
    ensures
        answer == !left.eq_spec(&right),
{
}

} // verus!
