//! Localref: a local reference-library daemon core with verified logic.
//!
//! The library holds the pure decision logic of Localref: validated value
//! types, metadata rules, category manifests, the daemon task queue, rule
//! matching and connector payload normalisation.  Filesystem, network and
//! process work is left to the binary around it.

pub mod calendar;
pub mod client;
pub mod config;
pub mod connector;
pub mod daemon;
pub mod error;
pub mod events;
pub mod ffi;
pub mod health;
pub mod import;
pub mod json;
pub mod lock;
pub mod logging;
pub mod manifest;
pub mod metadata_edits;
pub mod model;
pub mod ordered;
pub mod paths;
pub mod pending;
pub mod platformfs;
pub mod plugins;
pub mod rest;
pub mod rules;
pub mod sessions;
pub mod setmap;
pub mod storage;
pub mod text;
pub mod types;
