//! Control-plane core of an Iceberg REST catalog: identifiers, locations,
//! warehouse location rules and the tabular lifecycle, with machine-checked
//! contracts.

pub mod catalog;
pub mod error;
pub mod flags;
pub mod ident;
pub mod lifecycle;
pub mod location;
pub mod memory;
pub mod names;
pub mod pagination;
pub mod server;
pub mod storage;
pub mod store;
pub mod tabular;
pub mod tabular_idents;
pub mod text;
pub mod transaction;
pub mod views;
