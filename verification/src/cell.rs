//! Link cells and the chains they form.

use std::sync::Arc;
use vstd::prelude::*;

verus! {

/// One cell of a chain: a shared value and the rest of the chain.
pub(crate) struct Node<T> {
    pub(crate) val: Arc<T>,
    pub(crate) next: Link<T>,
}

/// A possibly empty chain of cells.
pub(crate) type Link<T> = Option<Arc<Node<T>>>;

/// The chain whose first cell holds `val` and is followed by `rest`.
pub(crate) open spec fn cons<T>(val: T, rest: Link<T>) -> Link<T> {
    Some(Arc::new(Node { val: Arc::new(val), next: rest }))
}

/// What follows the first cell of `link`; nothing where `link` is empty.
pub(crate) open spec fn chain_rest<T>(link: Link<T>) -> Link<T> {
    match link {
        None => None,
        Some(cell) => cell.next,
    }
}

/// The value in the first cell of `link`.
pub(crate) open spec fn chain_first<T>(link: Link<T>) -> T
    recommends
        link is Some,
{
    match link {
        None => arbitrary(),
        Some(cell) => *cell.val,
    }
}

/// The values that the chain starting at `link` holds, head first.
pub(crate) open spec fn chain_values<T>(link: Link<T>) -> Seq<T>
    decreases link,
{
    match link {
        None => Seq::empty(),
        Some(cell) => seq![*cell.val] + chain_values(cell.next),
    }
}

/// The chain that holds `values`, head first, and goes on with `rest`.
pub(crate) open spec fn chain_of<T>(values: Seq<T>, rest: Link<T>) -> Link<T>
    decreases values.len(),
{
    if values.len() == 0 {
        rest
    } else {
        cons(values[0], chain_of(values.drop_first(), rest))
    }
}

/// The chain made of `values` and `rest` holds `values` followed by what
/// `rest` holds.
pub(crate) proof fn lemma_chain_of_values<T>(values: Seq<T>, rest: Link<T>)
    ensures
        chain_values(chain_of(values, rest)) == values + chain_values(rest),
    decreases values.len(),
{
    if values.len() > 0 {
        lemma_chain_of_values(values.drop_first(), rest);
    }
}

/// A chain is the one made of the values it holds: chains that hold the same
/// values are equal.
pub(crate) proof fn lemma_chain_rebuild<T>(link: Link<T>)
    ensures
        chain_of(chain_values(link), None) == link,
    decreases link,
{
    if link is Some {
        lemma_chain_rebuild(chain_rest(link));
        assert(chain_values(link).drop_first() == chain_values(chain_rest(link)));
    }
}

/// One step of a walk along a chain that holds `values`: where the walk has
/// come to `link` after `at` cells and the chain goes on, the cell it stands on
/// holds `values[at]`, and what follows holds the values from `at + 1` on.
pub(crate) proof fn lemma_chain_walk<T>(values: Seq<T>, at: int, link: Link<T>)
    requires
        0 <= at <= values.len(),
        chain_values(link) == values.skip(at),
        link is Some,
    ensures
        at < values.len(),
        chain_first(link) == values[at],
        chain_values(chain_rest(link)) == values.skip(at + 1),
{
    assert(chain_values(link).drop_first() == chain_values(chain_rest(link)));
    assert(values.skip(at)[0] == values[at]);
}

/// Putting a cell in front of `rest` is the same as listing its value last
/// among `values`.
pub(crate) proof fn lemma_chain_of_push<T>(values: Seq<T>, last: T, rest: Link<T>)
    ensures
        chain_of(values.push(last), rest) == chain_of(values, cons(last, rest)),
    decreases values.len(),
{
    let longer = values.push(last);
    if values.len() == 0 {
        assert(chain_of(longer.drop_first(), rest) == rest);
    } else {
        lemma_chain_of_push(values.drop_first(), last, rest);
        assert(longer.drop_first() == values.drop_first().push(last));
    }
}

impl<T> Clone for Node<T> {
    /// A second cell with the same value and the same successor; neither the
    /// value nor the rest of the chain is copied.
    fn clone(&self) -> (r: Self)
        ensures
            r == *self,
    {
        Node {
            val: self.val.clone(),
            next: match &self.next {
                Some(cell) => Some(cell.clone()),
                None => None,
            },
        }
    }
}

/// `Arc::get_mut`: access to the cell behind `cell` for writing, given only
/// where no other pointer leads to that cell. Whether one does is not visible
/// in a contract, so both outcomes are open. `Some` hands out the cell itself:
/// it reads as the cell did, and what is written through it is what `cell`
/// holds afterwards. `None` leaves `cell` as it was. The call reads two
/// counters and neither panics nor unwinds.
#[verifier::external_body]
pub(crate) fn unique_mut<T>(cell: &mut Arc<Node<T>>) -> (res: Option<&mut Node<T>>)
    ensures
        (match res {
            Some(node) => *node == **old(cell) && **final(cell) == *final(node),
            None => *final(cell) == *old(cell),
        }),
    opens_invariants none
    no_unwind
{
    Arc::get_mut(cell)
}

/// `Arc::make_mut`: access to the cell behind `cell` for writing, always given.
/// Where no other pointer leads to the cell, that is the cell itself; where one
/// does, `cell` is first pointed at a copy made by `Node::clone`, which equals
/// the cell, and the shared cell stays untouched. Either way the reference
/// reads as the cell did, and what is written through it is what `cell` holds
/// afterwards.
#[verifier::external_body]
pub(crate) fn cell_mut<T>(cell: &mut Arc<Node<T>>) -> (node: &mut Node<T>)
    ensures
        *node == **old(cell),
        **final(cell) == *final(node),
{
    Arc::make_mut(cell)
}

/// Hangs a fresh cell that holds `val` at `last`, the open end of a chain
/// under construction, and returns the open end of that cell.
///
/// The cell was allocated a line earlier and no handle has seen it, so writing
/// its link later changes nothing that anyone else can observe.
pub(crate) fn push_cell<'a, T>(last: &'a mut Link<T>, val: Arc<T>) -> (end: &'a mut Link<T>)
    requires
        *old(last) is None,
    ensures
        *end is None,
        *final(last) == cons(*val, *final(end)),
{
    let cell = last.insert(Arc::new(Node { val, next: None }));
    let node = cell_mut(cell);
    &mut node.next
}

/// Takes the chain out of `link` and leaves `link` empty.
fn detach<T>(link: &mut Link<T>) -> (rest: Link<T>)
    ensures
        rest == *old(link),
        *final(link) is None,
    opens_invariants none
    no_unwind
{
    let mut rest: Link<T> = None;
    core::mem::swap(&mut rest, link);
    rest
}

impl<T> Node<T> {
    /// Whether the cell has no successor: nothing is freed along with it.
    pub closed spec fn detached(&self) -> bool {
        self.next is None
    }
}

impl<T> Drop for Node<T> {
    /// Frees what follows this cell, cell by cell, in a loop.
    ///
    /// Left to itself a cell would free its successor from inside its own
    /// destructor, that one the next, and so on: one stack frame for each cell
    /// of the chain. Here the cell first takes its successor out of itself. As
    /// long as the cell at hand belongs to nothing else, its own successor is
    /// taken out of it in turn, so that it is freed with no successor and its
    /// destructor has nothing to do; the loop goes on with what was taken out.
    /// At the first cell that something else still points to the loop stops:
    /// that cell and what follows are the other owner's to keep, and letting
    /// go of the pointer to it is all that is left to do.
    ///
    /// The stack needed is the same for every length of chain.
    ///
    /// When the destructor returns the cell has no successor, so that freeing
    /// the cell itself frees nothing else.
    fn drop(&mut self)
        ensures
            final(self).detached(),
        opens_invariants none
        no_unwind
    {
        let mut temp = detach(&mut self.next);
        loop
            invariant
                self.next is None,
            decreases temp,
        {
            match temp {
                None => {
                    return ;
                },
                Some(mut curr) => {
                    temp =
                    match unique_mut(&mut curr) {
                        Some(node) => detach(&mut node.next),
                        None => {
                            return ;
                        },
                    };
                },
            }
        }
    }
}

} // verus!
