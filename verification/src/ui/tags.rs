//! Marker types that check that a closing tag of the markup matches its
//! opening tag, one per built-in element. Not for use directly.

use vstd::prelude::*;

verus! {

#[allow(non_camel_case_types)]
pub struct column;

#[allow(non_camel_case_types)]
pub struct row;

#[allow(non_camel_case_types)]
pub struct panel;

#[allow(non_camel_case_types)]
pub struct label;

#[allow(non_camel_case_types)]
pub struct button;

#[allow(non_camel_case_types)]
pub struct checkbox;

#[allow(non_camel_case_types)]
pub struct input;

#[allow(non_camel_case_types)]
pub struct separator;

#[allow(non_camel_case_types)]
pub struct spacer;

} // verus!
