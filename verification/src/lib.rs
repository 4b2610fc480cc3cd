//! Structural type ("shape") inference for semi-structured sample values.
//!
//! The heart of the crate is the [`shape`] module: a lattice of structural
//! type descriptions together with `unify`, the join operation that merges
//! two descriptions into the least general one covering both. The [`value`]
//! module supplies the six-kind value abstraction fed to the inference
//! driver, and [`laws`] states and proves the algebraic laws of `unify`.
//! The remaining modules are the declarative record catalogs for the game
//! journal formats that motivated the inference engine.

pub mod shape;
pub mod value;
pub mod laws;
pub mod journal;
pub mod event;
pub mod log;
