//! The file-management core: listing and metadata, navigation and
//! selection state, the job system and scheduler, the transfer engine's
//! planning and reporting, the directory watcher's debouncer, and the
//! clipboard payload codec.

pub mod clipboard;
pub mod config;
pub mod conflict;
pub mod copy;
pub mod display;
pub mod drives;
pub mod entry;
pub mod error;
pub mod filter;
pub mod folder;
pub mod job;
pub mod json;
pub mod listing;
pub mod navigation;
pub mod ordering;
pub mod paths;
pub mod plan;
pub mod properties;
pub mod recycle;
pub mod report;
pub mod scheduler;
pub mod selection;
pub mod sort;
pub mod text;
pub mod watcher;
pub mod transfer_job;
