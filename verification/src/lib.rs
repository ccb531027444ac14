//! A small chemistry model: atoms carrying valence-electron counts are
//! combined into a molecule when their total valence-electron count
//! satisfies a simplified octet rule. The engine sorts the atoms by
//! element symbol (stably, in lexicographic codepoint order) and
//! synthesizes a molecule name from the runs of equal symbols.

pub mod atoms;
pub mod molecule;
pub mod naming;
pub mod order;
pub mod sorting;

pub use atoms::Atom;
pub use atoms::ElementState;
pub use atoms::MatterState;
pub use atoms::Vec2;
pub use molecule::create_molecule;
pub use molecule::Molecule;
pub use molecule::Trash;
pub use naming::match_it;
pub use order::str_eq;
pub use order::str_le;
