//! Verified core of a Solana vanity-address generator with encrypted wallet storage.

pub mod benchmark;
pub mod bytes;
pub mod calendar;
pub mod cli;
pub mod config;
pub mod crypto;
pub mod decrypt;
pub mod engine;
pub mod error;
pub mod resource;
pub mod storage;
pub mod text;
pub mod ui;
