//! Formats, package merging and launcher state of the Exanima Modding Toolkit.

pub mod bytes;
pub mod text;
pub mod entry;
pub mod rpk;
pub mod rdb;
pub mod rfc;
pub mod rfi;
pub mod format;
pub mod merge;
pub mod texture;
pub mod config;
pub mod priority;
pub mod mods;
pub mod instance;
pub mod explorer;
pub mod release;
pub mod nav;
pub mod settings_screen;
pub mod console;
pub mod ui;
pub mod progress;
pub mod toast;
pub mod tasks;
