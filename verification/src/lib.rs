//! A tree whose nodes each have the same fixed number of child slots.
//!
//! An [`Ntree`] of arity `N` owns a root node. Every node carries one
//! payload and has `N` slots, each of which is empty or owns a child node
//! of the same kind. Children are made on demand, replaced or removed as a
//! whole, and addressed by the index of their slot; the payload type needs
//! neither a default value nor the ability to be copied.
//!
//! - [`tree`] holds the mathematical model, [`Tree`], over which every
//!   contract is stated, and the laws that the operations obey.
//! - [`slots`] makes the row of empty slots that a new node starts with.
//! - [`ntree_node`] holds the node type and [`NtreeNodeInterface`], the
//!   operations on a node and its children.
//! - [`ntree`] holds the tree type, the owner of the root.
//! - [`listing`] renders a tree as indented text.
pub mod listing;
pub mod ntree;
pub mod ntree_node;
pub mod slots;
pub mod tree;

pub use ntree::Ntree;
pub use ntree_node::NtreeNode;
pub use ntree_node::NtreeNodeInterface;
pub use tree::Tree;
