//! A library for modelling and reasoning about multidimensional
//! binary states.
//!
//! A state is an assignment of a bit to every dimension together with a
//! per-dimension marker of whether that bit may currently be flipped.
//! [`BinGraph`] records such states and can decide whether the recorded
//! set is closed: every flip permitted from a recorded state must lead to
//! another recorded state. [`Symmetry`] composes several graphs into a
//! larger dimension space.

pub mod bingraph;
pub mod binnode;
pub mod symmetry;

pub use bingraph::BinGraph;
pub use bingraph::DimensionMismatch;
pub use binnode::BinNode;
pub use symmetry::Symmetry;
