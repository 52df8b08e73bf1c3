//! A small CSS engine for UI toolkits: the property set, the cascade's
//! order, and the state and names selectors match on.

pub mod atom;
pub mod element;
pub mod error;
pub mod properties;
pub mod values;
pub mod cascade;
pub mod stylesheet;
pub mod ranking;
pub mod selector;
pub mod specified;
