//! Side plugins for ToplingDB, with a verified core.
//!
//! - [`prefix_delete_factory`]: a compaction filter factory that deletes keys by their first four
//!   bytes, with its state exchange and its web interface
//! - [`side_plugin_ex`]: what any side plugin offers, and how plugins are handed over
//! - [`params`]: prefixes and counters in JSON documents
//! - [`wire`]: the binary form in which plugin state travels
//! - [`json`]: JSON documents, read and written with `serde_json`
//! - [`prefixes`] and [`bytes`]: sets of prefixes, and numbers as bytes
//! - [`laws`]: what holds of the plugin as a whole
//! - [`meaning`]: what the words of the contracts come to in bytes, numbers and field names

pub mod bytes;
pub mod json;
pub mod laws;
pub mod meaning;
pub mod params;
pub mod prefix_delete_factory;
pub mod prefixes;
pub mod side_plugin_ex;
pub mod wire;
