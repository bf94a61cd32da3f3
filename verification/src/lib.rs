//! Incremental ingestion of purchase receipts from a mailbox.

pub mod amount;
pub mod auth;
pub mod config;
pub mod dedup;
pub mod email_service;
pub mod ingestor;
pub mod lister;
pub mod mail;
pub mod markup;
pub mod message;
pub mod normalize;
pub mod receipt;
pub mod relevance;
pub mod requests;
pub mod rules;
pub mod text;
pub mod transport;
pub mod user;
pub mod user_sync;
pub mod window;
