//! Core logic of the Sherlock launcher: searching, command splitting,
//! markup parsing, path handling and configuration defaults.

pub mod clipboard;
pub mod colors;
pub mod command;
pub mod completion;
pub mod config;
pub mod counter;
pub mod defaults;
pub mod desktop;
pub mod errors;
pub mod event;
pub mod intent;
pub mod keys;
pub mod logging;
pub mod migration;
pub mod number;
pub mod order;
pub mod pango;
pub mod paths;
pub mod script;
pub mod scoring;
pub mod search;
pub mod setup;
pub mod text;
pub mod tiles;
pub mod timer;
pub mod translation;
pub mod units;
pub mod variables;
pub mod view;
pub mod websearch;
