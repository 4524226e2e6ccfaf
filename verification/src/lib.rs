//! A rope: a tree-structured representation of a character sequence that
//! supports indexed access, range extraction, splitting, concatenation,
//! insertion, and deletion without copying the entire sequence on every edit.

pub mod rope;

pub use rope::Leaf;
pub use rope::Node;
pub use rope::Rope;
pub use rope::RopeIterator;

