use vstd::prelude::*;

pub mod clipboard;
pub mod commander;
pub mod text;
pub mod ui;

verus! {

} // verus!
