//! A document store for client tax records: the registry of the storage
//! root, the per-client file store and the record store, as functions from
//! plain values to plain values.

pub mod config;
pub mod db;
pub mod path;
pub mod routes;
pub mod server;
pub mod text;

pub use db::models::{Amount, CategoryEntry, CategoryMap, Client, TaxReturn};
pub use server::rocket;
