use vstd::prelude::*;

pub mod api;
pub mod auth;
pub mod config;
pub mod fresh;
pub mod models;
pub mod registry;
pub mod stream;
pub mod terminal;
pub mod text;

verus! {

} // verus!
