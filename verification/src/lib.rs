//! Storage-side logic of a mod-documentation wiki.
pub mod text;
pub mod json;
pub mod resloc;
pub mod fields;
pub mod ingredient;
pub mod issues;
pub mod recipe;
pub mod custom_recipe;
pub mod loader;
pub mod maven;
pub mod paths;
pub mod store;
pub mod format;
pub mod git;
pub mod markdown;
pub mod ingest;
pub mod deployment;
pub mod realtime;
pub mod game_data;
pub mod frontmatter;
pub mod config;
pub mod logging;
pub mod util;
pub mod tree;
pub mod search;
pub mod sub_ingest;
pub mod run;
pub mod deploy_flow;
pub mod tasks;
pub mod server;
