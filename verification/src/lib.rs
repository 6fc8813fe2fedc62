//! Decision logic of the moon task runner: remote and local cache flow, retries,
//! workspace discovery, dependency installation, docker scaffolding and tool setup,
//! stated over plain values so that every step is proved.

pub mod action;
pub mod bin;
pub mod cache;
pub mod config;
pub mod download;
pub mod emitter;
pub mod errors;
pub mod fxcollections;
pub mod hash_plan;
pub mod install;
pub mod language;
pub mod paths;
pub mod remote_cache;
pub mod runner;
pub mod scaffold;
pub mod setup;
pub mod task;
pub mod text;
pub mod workspace;
