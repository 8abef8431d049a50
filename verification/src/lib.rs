use vstd::prelude::*;

pub mod text;
pub mod models;
pub mod process;
pub mod watch;
pub mod store;
pub mod hash;
pub mod upload;

verus! {
} // verus!
