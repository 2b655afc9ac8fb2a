//! Media ingest and clip export pipeline for a desktop clipping workstation.
//!
//! The crate validates and normalizes runtime tool settings, checks download
//! sources against a fixed allow-list, verifies artifact checksums, plans
//! local staging and YouTube downloads, tracks streamed progress, lays out
//! burned-in subtitles, and plans batch clip exports. All time quantities are
//! carried as integer milliseconds; the host shell around the library performs
//! the actual file, network and subprocess work.

pub mod backend;
pub mod checksum;
pub mod decimal;
pub mod export;
pub mod media;
pub mod progress;
pub mod resolution;
pub mod settings;
pub mod strutil;
pub mod subtitle;
pub mod text;
pub mod tools;
pub mod urlcheck;
pub mod youtube;
