//! Election-result records: resolving the election kind and database name,
//! decoding constituency records from JSON, and preparing the documents of
//! one bulk insert.

pub mod document;
pub mod json;
pub mod kind;
pub mod loader;
pub mod record;
pub mod util;
pub mod walker;

pub use kind::ElectionDatabase;
pub use loader::create_database;
