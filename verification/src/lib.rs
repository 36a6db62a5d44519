//! Verified core of the Lattice workspace intelligence layer.
use vstd::prelude::*;

pub mod text;
pub mod hex;
pub mod digest;
pub mod platform;
pub mod resource;
pub mod order;
pub mod tools;
pub mod fabric;
pub mod model;
pub mod studio;
pub mod protocol;
pub mod jobs;
pub mod bridge;
pub mod editor;
pub mod cli;
pub mod storage;
pub mod connections;
pub mod northbound;
pub mod json;
pub mod catalog;
pub mod builtin;
pub mod codex;
pub mod graph;
pub mod pull;
pub mod supervisor;

verus! {
} // verus!
