//! Placement rules for `crate` and `super` in module paths.
//!
//! A module path is a sequence of segments; the checker in [`path`] decides
//! whether the `crate` and `super` keywords stand where they are allowed to,
//! given how deeply the path's context is nested, and names every rule
//! broken otherwise. [`examples`] walks three ill-formed paths through it.

pub mod examples;
pub mod path;
