//! The reader capability traits: one base trait for cursor state and
//! one trait per supported byte order.

pub mod traits;
