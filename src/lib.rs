//! Resolution of a simple stylesheet against rendered elements: a parser
//! into a rule table, a resolver that gives every property a value, the
//! cascade over an element's classes, and the emitters of inline markup and
//! box-model style text.

use vstd::prelude::*;

pub mod emit;
pub mod laws;
pub mod properties;
pub mod rules;
pub mod sheet;
pub mod style;
pub mod text;

verus! {

} // verus!
