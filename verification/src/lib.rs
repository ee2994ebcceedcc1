//! lazymagick — the verified core of a terminal front-end for ImageMagick.
//!
//! The library holds the recipe model, the command and output-path rules,
//! the theme and settings model, the screen layout, and the state machine
//! that drives the interactive interface. Everything that touches the
//! terminal, the file system or child processes lives in the application
//! crate around it.

pub mod text;
pub mod paths;
pub mod fs_utils;
pub mod magick;
pub mod recipe;
pub mod config;
pub mod layout;
pub mod sort;
pub mod app;
pub mod app_view;
pub mod app_ops;
pub mod app_run;
pub mod app_keys;
pub mod laws;
pub mod key_laws;
pub mod operation_laws;
