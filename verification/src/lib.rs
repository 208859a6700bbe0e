use vstd::prelude::*;

pub mod data;
pub mod laws;
pub mod table;
pub mod ui;
pub mod text;
pub mod collectors;
pub mod config;

verus! {
} // verus!
