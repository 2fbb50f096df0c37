//! Process supervision and log pipeline for a self-hosted game-server manager.
//!
//! The crate keeps, per logical server name, a bounded in-memory log buffer
//! fed from the server's output streams, a registry of running processes with
//! their command channels, heuristics that spot crashes and tunnel addresses
//! in the log stream, and a background backup scheduler with archive
//! retention.  All decisions are made here, over plain values; spawning
//! processes, reading pipes and touching the filesystem are left to the
//! embedding application.

pub mod detector;
pub mod errors;
pub mod java;
pub mod json_tree;
pub mod log_buffer;
pub mod name_map;
pub mod numfmt;
pub mod paths;
pub mod playit;
pub mod crash;
pub mod registry;
pub mod scheduler;
pub mod server_config;
pub mod supervisor;
pub mod text;
pub mod tunnel;

pub use log_buffer::LogBuffer;
pub use playit::PlayitSupervisor;
pub use registry::ProcessRegistry;
pub use scheduler::BackupScheduler;
pub use supervisor::ProcessSupervisor;
