//! The plain-value side of the bindings to the Ink stroke library: status
//! codes and errors, and the enums that cross into Ink.

pub mod error;
pub mod kinds;
