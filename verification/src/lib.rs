use vstd::prelude::*;

pub mod animation;
pub mod buffer;
pub mod diff;
pub mod panes;
pub mod syntax;
pub mod theme;

verus! {

} // verus!
