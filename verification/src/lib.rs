//! Collector of Telegram channels and files: the verified core.
//!
//! The modules hold the decisions of the collector: the bounded download
//! queue, the steps of the authorization and history walks, and the
//! conversions of the data the Telegram API hands back.

pub mod auth;
pub mod config;
pub mod error;
pub mod download_queue;
pub mod text;
pub mod tg_client;
pub mod types;
