//! What each request decides, from plain values to plain values.

pub mod clients;
pub mod config;
pub mod files;
