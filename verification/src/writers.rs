//! The writer capability traits: one base trait for sink state and
//! one trait per supported byte order.

pub mod traits;
