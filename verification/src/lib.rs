//! Battery packs: curated crate collections, their manifests, resolution and merging.
use vstd::prelude::*;

pub mod text;
pub mod common;
pub mod strmap;
pub mod report;
pub mod glob;
pub mod version;
pub mod manifest;
pub mod merge_specs;
pub mod toml_model;
pub mod docs;
pub mod naming;
pub mod commands;
pub mod file_merge;
pub mod registry;
pub mod tui;
pub mod lines;
pub mod validate;
pub mod cli;
pub mod raw;
pub mod browser;
pub mod deps;
pub mod edits;
pub mod managed;
pub mod build_script;
pub mod sorting;
pub mod template;
pub mod yaml_merge;
pub mod sync;
pub mod toml_text;

verus! {
} // verus!
pub mod manifest_write;
pub mod detail_text;
pub mod detail_screen;
pub mod manifest_read;
pub mod yaml_text;
