//! Lifecycle tracking and transfer planning for downloads that travel from a
//! seed host, through a relay, to a final consumer.
//!
//! The crate holds the decisions of the pipeline: the task table with its
//! ordered statuses, the selection of items reported by the seed host, the
//! command line of the copy tool, the lease that keeps transfer batches apart,
//! and the steps of the handoff protocol. Reading the network, the file system
//! and the clock is left to the program that embeds it.

pub mod api;
pub mod bot;
pub mod config;
pub mod daemon;
pub mod error;
pub mod puller;
pub mod qbit;
pub mod rsync;
pub mod storage;
pub mod storage_laws;
pub mod task;
pub mod text;
pub mod watermark;

pub use api::ApiServer;
