//! A UI suite for pixel tools: a CSS engine, a toolkit built on it, and the
//! plain values of the bindings to a stroke library.

pub mod fonts;
pub mod ink;
pub mod styler;
pub mod text;
pub mod ui;
