//! Requests to add table features to a Delta table.
//!
//! A caller hands over borrowed feature names and borrowed commit metadata. The library copies and
//! checks them, and decides step by step what has to be done with the table: build the ALTER
//! transaction, create the commit info row, commit. It performs none of these itself.
pub mod alteration;
pub mod call_laws;
pub mod collect;
pub mod commit_info;
pub mod error;
pub mod features;
pub mod kernel;
pub mod laws;
pub mod text;
