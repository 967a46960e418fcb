//! The engine of a structured MEGA downloader: its rules, plans and decisions.
//!
//! A MEGA folder link is listed, its files are fetched through Real-Debrid (or
//! from MEGA directly where that fails), and each is written into its correct
//! nested directory. State is kept in a database so that downloads resume
//! after a crash or a restart.
//!
//! This library decides; whoever uses it does the input and output. The
//! modules, by subject:
//!
//! - text: `text`, `decimal`, `json`
//! - names and places of files: `names`, `paths`, `path_laws`, `pathmap`,
//!   `pathmap_laws`
//! - jobs: `ids`, `job`, `run`, `job_view`, `registry`
//! - the files of a job: `queue`, `task`, `retry`, `events`
//! - ways to download a file: `stream`, `native`, `aria2`, `poll`,
//!   `downloader`
//! - the server: `settings`, `api`, `zip`

pub mod api;
pub mod aria2;
pub mod decimal;
pub mod downloader;
pub mod error;
pub mod events;
pub mod ids;
pub mod job;
pub mod job_view;
pub mod json;
pub mod names;
pub mod native;
pub mod path_laws;
pub mod pathmap;
pub mod pathmap_laws;
pub mod paths;
pub mod poll;
pub mod queue;
pub mod registry;
pub mod retry;
pub mod run;
pub mod settings;
pub mod stream;
pub mod task;
pub mod text;
pub mod zip;

pub use downloader::Downloader;
pub use error::Error;
pub use events::EngineEvent;
pub use pathmap::{resolve_mapping, PathMapping};

use vstd::prelude::*;

verus! {

/// Crate version, surfaced to the user interface.
pub const VERSION: &'static str = "0.1.0";

} // verus!
