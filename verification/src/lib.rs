//! A singly linked sequence container.
//!
//! The list is a header (an element count and a reference to the first
//! node) over a chain of nodes, each holding one element and a reference
//! to its successor. Nodes live as slots in an arena owned by the list,
//! and every reference between nodes is an arena slot number, so link
//! mutation is O(1) and traversal is an O(length) slot chase.
//!
//! Every operation carries a contract relating it to the list's abstract
//! view, a `Seq` of the element values in index order.

pub mod laws;
pub mod list;

pub use list::SLL;
pub use list::SLLElem;
