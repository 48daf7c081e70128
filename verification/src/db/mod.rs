//! The record store: clients and tax returns, and the statements and rows by
//! which a relational store keeps them.

pub mod models;
pub mod schema;
