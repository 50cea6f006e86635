//! A self-describing, dynamically typed value tree.
//!
//! [`value`] holds the tree and its mathematical model, [`order`] the total
//! order by which [`mapping`] keeps the entries of a map, [`convert`] the
//! conversions from native primitives, [`equality`] the comparison of a value
//! with a native primitive, and [`literal`] the grammar that builds a tree
//! from a nested literal. [`laws`] states what holds of all of them.

pub mod convert;
pub mod equality;
pub mod laws;
pub mod literal;
pub mod mapping;
pub mod order;
pub mod value;
