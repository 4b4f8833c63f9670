//! Drives an external integration-registry tool and turns its text output
//! into typed server records, with the configuration scopes around it.
pub mod config_paths;
pub mod detail_output;
pub mod import;
pub mod lifecycle;
pub mod list_output;
pub mod records;
pub mod skills;
pub mod text;
