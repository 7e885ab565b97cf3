//! A persistent singly linked list.
//!
//! A [`list::List`] is a cheap handle on a chain of reference-counted cells.
//! No operation changes a cell that a second handle can reach: prepending,
//! taking the tail and concatenating return new handles that share whatever
//! trailing cells they can with the handles they were made from.
//!
//! Every contract is stated over the view of a handle, the `Seq` of the values
//! that its chain holds, from the head on. [`laws`] holds what follows for the
//! operations taken together, and [`render`] the text form of a list.

mod cell;
pub mod laws;
pub mod list;
pub mod render;
