//! The rendering strategies that a pile can be given.

pub use super::cascade::Cascade;
pub use super::flippable::Flippable;
pub use super::straight::Straight;
