//! Verified core logic of the Mango comic-drama workstation.

pub mod account;
pub mod app_config;
pub mod aspect_ratio;
pub mod asset;
pub mod checkpoint;
pub mod error;
pub mod export;
pub mod task;
pub mod text;
pub mod timeline;
pub mod ffmpeg;
pub mod ken_burns;
pub mod project;
pub mod records;
