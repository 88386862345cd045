//! Builders and pure decisions around the FFmpeg command line.

pub mod alignment;
pub mod audio;
pub mod cache_key;
pub mod commands;
pub mod filter_graph;
pub mod progress;
pub mod render;
pub mod sidecar;
pub mod thumbnail;
