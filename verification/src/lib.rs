pub mod analysis;
pub mod catalog;
pub mod cli;
pub mod common;
pub mod generator;
pub mod github;
pub mod llm;
pub mod mcp;
pub mod orchestrator;
pub mod pattern;
pub mod plugins;
pub mod ranking;
pub mod pr;
pub mod text;
pub mod web;

use vstd::prelude::*;

verus! {

/// The release this library describes itself as in generated text.
pub const VERSION: &'static str = "5.8.0";

} // verus!
