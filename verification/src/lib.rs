//! Verified core of a desktop assistant.
use vstd::prelude::*;

pub mod agent;
pub mod annotation;
pub mod ax;
pub mod bmp;
pub mod capture_context;
pub mod clock;
pub mod config;
pub mod desktop;
pub mod embed;
pub mod error;
pub mod find;
pub mod hashing;
pub mod ids;
pub mod installed;
pub mod jev;
pub mod json;
pub mod locate;
pub mod mcp;
pub mod model;
pub mod order;
pub mod preferences;
pub mod profile;
pub mod prompt;
pub mod prompt_texts;
pub mod region_walk;
pub mod runner;
pub mod semantics;
pub mod smoke;
pub mod store_db;
pub mod table;
pub mod target_service;
pub mod targets;
pub mod text;
pub mod tool;
pub mod tool_cache;
pub mod types;
pub mod uia;
pub mod uia_tree;
pub mod workflow;

verus! {

} // verus!
