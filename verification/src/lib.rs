use vstd::prelude::*;

pub mod config;
pub mod handlers;
pub mod middleware;
pub mod models;
pub mod path;
pub mod services;
pub mod sort;
pub mod text;
pub mod time;
pub mod utils;

verus! {
} // verus!
