//! Shapes that the stored settings had in earlier releases.

pub mod v1;
