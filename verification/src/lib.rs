use vstd::prelude::*;

pub mod api;
pub mod app;
pub mod capture;
pub mod cli;
pub mod cursor;
pub mod domain;
pub mod fields;
pub mod search;
pub mod filter;
pub mod keys;
pub mod laws;
pub mod text;

verus! {

} // verus!
