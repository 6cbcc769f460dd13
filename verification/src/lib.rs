//! Argument parsing and comparison logic of the diff utilities `cmp`, `sdiff`
//! and `diff3`.
pub mod cmp;
pub mod diff3;
pub mod executable;
pub mod option_generator;
pub mod params_gen;
pub mod sdiff;
pub mod text;

use vstd::prelude::*;

verus! {

} // verus!
