use std::cell::Cell;
use std::fmt;
use std::sync::Arc;

use fpnkd::list::List;
use fpnkd::render::bracketed;

/// A value whose `Debug` gives its number, and an error for the number 0.
struct Fussy(u32);

impl fmt::Debug for Fussy {
    fn fmt(&self, f: &mut fmt::Formatter) -> fmt::Result {
        if self.0 == 0 {
            return Err(fmt::Error);
        }
        f.write_str(&self.0.to_string())
    }
}

/// Shows a list of fussy values, or the word `failed` where showing it
/// returned an error.
struct Guarded(List<Fussy>);

impl fmt::Debug for Guarded {
    fn fmt(&self, f: &mut fmt::Formatter) -> fmt::Result {
        match fmt::Debug::fmt(&self.0, f) {
            Ok(()) => Ok(()),
            Err(_) => f.write_str("failed"),
        }
    }
}

fn values_of(list: &List<i32>) -> Vec<i32> {
    list.to_vec().iter().map(|v| **v).collect()
}

#[test]
fn new_list_is_empty() {
    let list: List<i32> = List::new();

    assert!(list.is_empty());
    assert_eq!(0, list.len());
    assert!(list.to_vec().is_empty());
}

#[test]
fn len_counts_every_value() {
    assert_eq!(1, List::from([7]).len());
    assert_eq!(4, List::from([7, 7, 7, 7]).len());
    assert!(!List::from([7]).is_empty());
}

#[test]
fn round_trip_keeps_values_and_order() {
    let input = vec![5, 1, 4, 1, 5, 9, 2, 6];

    let list = List::from(input.clone());

    assert_eq!(input, values_of(&list));
    let collected: Vec<i32> = list.map(|v| *v).collect();
    assert_eq!(input, collected);
}

#[test]
fn round_trip_of_nothing_is_nothing() {
    let list = List::from(Vec::<i32>::new());

    assert!(list.is_empty());
    assert_eq!(Vec::<i32>::new(), values_of(&list));
}

#[test]
fn from_array_keeps_order() {
    let list = List::from(["a", "b", "c"]);

    assert_eq!("a", *list[0]);
    assert_eq!("b", *list[1]);
    assert_eq!("c", *list[2]);
    assert_eq!(3, list.len());
}

#[test]
fn from_shared_shares_the_values() {
    let first = Arc::new(String::from("one"));
    let second = Arc::new(String::from("two"));

    let list = List::from_shared(vec![first.clone(), second.clone()]);

    assert!(Arc::ptr_eq(&first, &list.head()));
    assert!(Arc::ptr_eq(&second, &list[1]));
    assert_eq!(2, list.len());
}

#[test]
fn to_vec_shares_the_values_and_leaves_the_list() {
    let val = Arc::new(String::from("kept"));
    let list = List::new().prepend_shared(val.clone()).prepend(String::from("first"));

    let items = list.to_vec();

    assert_eq!(2, items.len());
    assert_eq!("first", *items[0]);
    assert!(Arc::ptr_eq(&val, &items[1]));
    assert_eq!(2, list.len());
    assert_eq!("first", *list.head());
}

#[test]
fn clone_is_a_second_handle_on_the_same_cells() {
    let list = List::from([1, 2, 3]);

    let copy = list.clone();

    assert_eq!(list, copy);
    assert!(Arc::ptr_eq(&list.head(), &copy.head()));
    // One cell per value, whatever the number of handles.
    assert_eq!(1, Arc::strong_count(&list[0]));
}

#[test]
fn prepend_grows_by_one_and_sets_the_head() {
    let list = List::from([2, 3]);
    let before = list.len();

    let longer = list.prepend(1);

    assert_eq!(before + 1, longer.len());
    assert_eq!(1, *longer.head());
    assert_eq!(vec![1, 2, 3], values_of(&longer));
}

#[test]
fn prepend_to_empty_gives_one_value() {
    let list = List::new().prepend(9);

    assert_eq!(1, list.len());
    assert_eq!(9, *list.head());
    assert!(list.tail().is_empty());
}

#[test]
fn prepend_shared_does_not_copy_the_value() {
    let val = Arc::new(vec![1, 2, 3]);

    let list = List::new().prepend_shared(val.clone());

    assert!(Arc::ptr_eq(&val, &list.head()));
}

#[test]
fn tail_of_prepend_is_the_old_list() {
    let list = List::from([1, 2, 3]);
    let kept = list.clone();

    let back = list.prepend(0).tail();

    assert!(kept == back);
    assert_eq!(vec![1, 2, 3], values_of(&back));
    // The remainder is made of the very cells of the old list: each value is
    // still held by one cell only, next to the handle taken here.
    let head = back.head();
    assert_eq!(2, Arc::strong_count(&head));
}

#[test]
fn append_concatenates() {
    let joined = List::from([1, 2]).append(List::from([3, 4, 5]));

    assert_eq!(vec![1, 2, 3, 4, 5], values_of(&joined));
    assert_eq!(5, joined.len());
}

#[test]
fn append_to_empty_returns_the_other_list() {
    let list = List::from([1, 2, 3]);
    let kept = list.clone();

    let joined = List::new().append(list);

    assert!(kept == joined);
    // No cell was copied: one cell per value, plus the handle taken here.
    assert_eq!(2, Arc::strong_count(&joined.head()));
}

#[test]
fn append_of_empty_returns_the_list() {
    let list = List::from([1, 2, 3]);
    let kept = list.clone();

    let joined = list.append(List::new());

    assert!(kept == joined);
    assert_eq!(2, Arc::strong_count(&joined.head()));
}

#[test]
fn append_copies_the_first_list_and_shares_the_second() {
    let first = List::from([1, 2]);
    let second = List::from([3, 4]);

    let joined = first.clone().append(second.clone());

    assert_eq!(vec![1, 2, 3, 4], values_of(&joined));
    assert_eq!(vec![1, 2], values_of(&first));
    assert_eq!(vec![3, 4], values_of(&second));
    // The values of the first list sit in two cells each, an old one and a
    // copy; those of the second list in one cell, used by both lists.
    assert_eq!(2, Arc::strong_count(&joined[0]));
    assert_eq!(2, Arc::strong_count(&joined[1]));
    assert_eq!(1, Arc::strong_count(&joined[2]));
    assert_eq!(1, Arc::strong_count(&joined[3]));
}

#[test]
fn equality_is_reflexive_and_symmetric() {
    let a = List::from([1, 2, 3]);
    let b = List::from(vec![1, 2, 3]);

    assert!(a == a);
    assert!(a == b);
    assert!(b == a);
}

#[test]
fn equality_sees_a_single_different_value() {
    let a = List::from([1, 2, 3]);
    let b = List::from([1, 2, 4]);

    assert!(a != b);
    assert!(b != a);
}

#[test]
fn equality_sees_a_prefix() {
    let a = List::from([1, 2]);
    let b = List::from([1, 2, 3]);
    let empty: List<i32> = List::new();

    assert!(a != b);
    assert!(b != a);
    assert!(empty != a);
    assert!(a != empty);
    assert!(empty == List::new());
}

#[test]
fn equality_across_related_types() {
    let owned = List::from([String::from("a"), String::from("b")]);
    let borrowed = List::from(["a", "b"]);
    let other = List::from(["a", "c"]);

    assert!(owned == borrowed);
    assert!(owned != other);
}

#[test]
fn index_reads_each_position() {
    let input = vec![10, 20, 30, 40];
    let list = List::from(input.clone());

    for (i, expected) in input.iter().enumerate() {
        assert_eq!(*expected, *list[i]);
    }
    assert_eq!(*list.head(), *list[0]);
}

#[test]
fn iteration_moves_only_the_handle_it_is_called_on() {
    let list = List::from([1, 2, 3]);
    let mut cursor = list.clone();

    assert_eq!(Some(1), cursor.next().map(|v| *v));
    assert_eq!(vec![2, 3], values_of(&cursor));
    assert_eq!(vec![1, 2, 3], values_of(&list));

    assert_eq!(Some(2), cursor.next().map(|v| *v));
    assert_eq!(Some(3), cursor.next().map(|v| *v));
    assert!(cursor.is_empty());
    assert!(cursor.next().is_none());
    assert!(cursor.next().is_none());
    assert!(cursor.is_empty());
    assert_eq!(vec![1, 2, 3], values_of(&list));
}

#[test]
fn lists_built_alike_do_not_affect_each_other() {
    let mut a = List::new();
    let mut b = List::new();
    for v in [3, 2, 1] {
        a = a.prepend(v);
        b = b.prepend(v);
    }
    assert!(a == b);

    let a = a.tail().prepend(7).append(List::from([8]));

    assert_eq!(vec![7, 2, 3, 8], values_of(&a));
    assert_eq!(vec![1, 2, 3], values_of(&b));
    let seen: Vec<i32> = b.map(|v| *v).collect();
    assert_eq!(vec![1, 2, 3], seen);
}

#[test]
fn handles_on_shared_cells_do_not_affect_each_other() {
    let base = List::from([2, 3]);
    let left = base.clone().prepend(1);
    let right = base.clone().prepend(0);

    let left_tail = left.clone().tail();
    let grown = left_tail.prepend(9);

    assert_eq!(vec![9, 2, 3], values_of(&grown));
    assert_eq!(vec![1, 2, 3], values_of(&left));
    assert_eq!(vec![0, 2, 3], values_of(&right));
    assert_eq!(vec![2, 3], values_of(&base));
}

#[test]
fn deep_clone_copies_the_values() {
    let list = List::from([String::from("x"), String::from("y")]);

    let copy = list.deep_clone();

    assert!(list == copy);
    assert_eq!(2, copy.len());
    assert!(!Arc::ptr_eq(&list.head(), &copy.head()));
    assert!(!Arc::ptr_eq(&list[1], &copy[1]));
    // A plain clone shares them.
    assert!(Arc::ptr_eq(&list.head(), &list.clone().head()));
}

#[test]
fn deep_clone_of_empty_is_empty() {
    let list: List<String> = List::new();

    assert!(list.deep_clone().is_empty());
}

#[test]
fn render_matches_the_bracketed_form() {
    assert_eq!(Ok(String::from("[1, 2, 3]")), List::from([1, 2, 3]).render());
    assert_eq!(Ok(String::from("[7]")), List::from([7]).render());
    assert_eq!(Ok(String::from("[]")), List::<i32>::new().render());
    assert_eq!(Ok(String::from("[\"a\", \"b\"]")), List::from(["a", "b"]).render());
}

#[test]
fn render_with_puts_each_text_at_the_place_of_its_value() {
    let list = List::from([1, 2, 3]);

    let doubled: Result<String, ()> = list.render_with(|v| Ok((v * 2).to_string()));
    let tagged: Result<String, ()> = list.render_with(|v| Ok(format!("<{}>", v)));
    let empty: Result<String, ()> = List::<i32>::new().render_with(|v| Ok(v.to_string()));

    assert_eq!(Ok(String::from("[2, 4, 6]")), doubled);
    assert_eq!(Ok(String::from("[<1>, <2>, <3>]")), tagged);
    assert_eq!(Ok(String::from("[]")), empty);
}

#[test]
fn render_with_asks_once_for_each_value_from_the_head_on() {
    let list = List::from([10, 20, 30]);
    let asked = Cell::new(Vec::new());

    let text: Result<String, ()> = list.render_with(|v| {
        let mut so_far = asked.take();
        so_far.push(*v);
        asked.set(so_far);
        Ok(v.to_string())
    });

    assert_eq!(Ok(String::from("[10, 20, 30]")), text);
    assert_eq!(vec![10, 20, 30], asked.take());
}

#[test]
fn render_with_hands_back_the_first_error_and_stops() {
    let list = List::from([1, 2, 3, 4]);
    let asked = Cell::new(0);

    let text = list.render_with(|v| {
        asked.set(asked.get() + 1);
        if v % 2 == 0 {
            Err(*v)
        } else {
            Ok(v.to_string())
        }
    });

    assert_eq!(Err(2), text);
    assert_eq!(2, asked.get());
}

#[test]
fn render_hands_back_the_error_of_a_value() {
    let fine = List::from([Fussy(1), Fussy(2)]);
    let broken = List::from([Fussy(1), Fussy(0), Fussy(3)]);

    assert_eq!(Ok(String::from("[1, 2]")), fine.render());
    assert_eq!(Err(fmt::Error), broken.render());
}

#[test]
fn debug_hands_back_the_error_of_a_value_and_writes_nothing() {
    let fine = Guarded(List::from([Fussy(4), Fussy(5)]));
    let broken = Guarded(List::from([Fussy(4), Fussy(0)]));

    assert_eq!("[4, 5]", format!("{:?}", fine));
    assert_eq!("failed", format!("{:?}", broken));
}

#[test]
fn debug_output_is_the_bracketed_form() {
    assert_eq!("[1, 2, 3]", format!("{:?}", List::from([1, 2, 3])));
    assert_eq!("[]", format!("{:?}", List::<u8>::new()));
    assert_eq!("['x']", format!("{:?}", List::from(['x'])));
    assert_eq!("[[1], [2, 3]]", format!("{:?}", List::from([vec![1], vec![2, 3]])));
}

#[test]
fn bracketed_joins_with_comma_and_space() {
    let texts = vec![String::from("x"), String::from(""), String::from("y z")];

    assert_eq!("[x, , y z]", bracketed(&texts));
    assert_eq!("[]", bracketed(&Vec::new()));
    assert_eq!("[only]", bracketed(&vec![String::from("only")]));
}

#[test]
fn drop_frees_what_nothing_else_holds() {
    let first = Arc::new(1);
    let second = Arc::new(2);
    let list = List::from_shared(vec![first.clone(), second.clone()]);
    assert_eq!(2, Arc::strong_count(&first));
    assert_eq!(2, Arc::strong_count(&second));

    drop(list);

    assert_eq!(1, Arc::strong_count(&first));
    assert_eq!(1, Arc::strong_count(&second));
}

#[test]
fn drop_stops_at_a_shared_cell() {
    let values: Vec<Arc<i32>> = (0..4).map(Arc::new).collect();
    let shared = List::from_shared(vec![values[2].clone(), values[3].clone()]);
    let list = shared.clone().prepend_shared(values[1].clone()).prepend_shared(values[0].clone());
    assert_eq!(vec![0, 1, 2, 3], values_of(&list));

    drop(list);

    assert_eq!(1, Arc::strong_count(&values[0]));
    assert_eq!(1, Arc::strong_count(&values[1]));
    assert_eq!(2, Arc::strong_count(&values[2]));
    assert_eq!(2, Arc::strong_count(&values[3]));
    assert_eq!(vec![2, 3], values_of(&shared));

    drop(shared);

    assert_eq!(1, Arc::strong_count(&values[2]));
    assert_eq!(1, Arc::strong_count(&values[3]));
}

#[test]
fn drop_of_one_handle_of_two_frees_nothing() {
    let val = Arc::new(5);
    let list = List::new().prepend_shared(val.clone()).prepend(4);
    let kept = list.clone();

    drop(list);

    assert_eq!(2, Arc::strong_count(&val));
    assert_eq!(vec![4, 5], values_of(&kept));
}

#[test]
fn five_million_prepended_values_are_dropped() {
    let last = Arc::new(0u32);
    let mut list = List::new().prepend_shared(last.clone());
    for i in 1..5_000_000u32 {
        list = list.prepend(i);
    }
    assert_eq!(4_999_999, *list.head());
    assert_eq!(2, Arc::strong_count(&last));

    drop(list);

    // The loop went all the way down: the cell at the far end is gone too.
    assert_eq!(1, Arc::strong_count(&last));
}

#[test]
fn a_long_list_goes_out_of_scope() {
    let last = Arc::new(0usize);
    {
        let mut list = List::new().prepend_shared(last.clone());
        for i in 1..1_000_000usize {
            list = list.prepend(i);
        }
        assert_eq!(999_999, *list.head());
    }
    assert_eq!(1, Arc::strong_count(&last));
}

#[test]
fn long_lists_that_share_a_tail_are_dropped_one_after_the_other() {
    let count = 1_000_000;
    let list = List::from((0..count).collect::<Vec<usize>>());

    assert_eq!(count, list.len());
    assert_eq!(count - 1, *list[count - 1]);
    let doubled = list.clone().append(list.clone());
    assert_eq!(2 * count, doubled.len());

    // The copied half of `doubled` goes now, the shared half stays.
    drop(doubled);
    assert_eq!(count, list.len());
    assert_eq!(1, Arc::strong_count(&list[count - 1]));
    drop(list);
}

#[test]
fn a_long_list_is_consumed_by_iteration_and_by_tail() {
    let count = 300_000usize;
    let list = List::from((0..count).collect::<Vec<usize>>());

    let seen = list.clone().count();
    assert_eq!(count, seen);

    let mut rest = list;
    for _ in 0..count {
        rest = rest.tail();
    }
    assert!(rest.is_empty());
}
