//! dozed: the logic of an idle management daemon for Wayland compositors.

pub mod app;
pub mod args;
pub mod callbacks;
pub mod config;
pub mod config_file;
pub mod effect_laws;
pub mod event_loop;
pub mod event_laws;
pub mod events;
pub mod file_laws;
pub mod laws;
pub mod log;
pub mod loop_laws;
pub mod number;
pub mod process;
pub mod report;
pub mod report_laws;
pub mod startup;
pub mod text;
pub mod text_laws;
pub mod timeout_laws;
pub mod view_laws;
pub mod word_laws;
pub mod words;
