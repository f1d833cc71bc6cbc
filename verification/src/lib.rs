//! Low-level storage primitives: a generational slot map that hands out
//! stable, reusable identifiers, and a type-erased owning container.

pub mod black_box;
pub mod error;
pub mod list;
pub mod text;
