//! Verified core of the freemkv disc ripper's front ends.

pub mod text;
pub mod reading;
pub mod cli_entry;
pub mod cli_laws;
pub mod shown;
pub mod strings;
pub mod paths;
pub mod disc;
pub mod disc_info;
pub mod listing_laws;
pub mod archive;
pub mod encode;
pub mod info;
pub mod profile_laws;
pub mod submit;
pub mod keydb_fetch;
pub mod fetch_laws;
pub mod disc_capture;
pub mod share_laws;
pub mod engine;
pub mod app_entry;
pub mod file_identity;
pub mod icon;
pub mod icon_laws;
pub mod bench;
pub mod bench_laws;
pub mod linux;
pub mod desktop_laws;
pub mod cmd;
