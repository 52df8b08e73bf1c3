//! The toolkit: keyboard shortcuts, widgets, layout vocabulary.

pub mod arena;
pub mod attrs;
pub mod event;
pub mod font_error;
pub mod shortcut;
pub mod geometry;
pub mod layout;
pub mod routing;
pub mod widgets;
pub mod style;
pub mod tags;
pub mod tree;
