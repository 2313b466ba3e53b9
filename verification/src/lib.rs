//! An inventory bookkeeping library: suppliers, supplies, dated purchase
//! journals and stocktaking entries, with validating value objects,
//! referential-integrity-checking services, an in-memory repository and a
//! relational (SQLite-backed) repository.

pub mod error;
pub mod text;
pub mod values;
pub mod entities;
pub mod dto;
pub mod queries;
pub mod search;
pub mod ports;
pub mod mock;
pub mod supplier_service;
pub mod supply_service;
pub mod stocktaking_service;
pub mod journal_service;
pub mod stocker;
pub mod config;
pub mod sqlite_db;
pub mod sqlite_rows;
pub mod sqlite_repos;
pub mod laws;

pub use error::Error;
