//! Mirrors configured files and directories into target locations with
//! symbolic links.
//!
//! The library holds the decisions of the reconciliation engine: how a
//! mapping's source is dispatched, how each directory entry is planned, and
//! what is done to a link target in each state it can be found in. The
//! program around it performs the file-system work those decisions name.
pub mod config;
pub mod config_file;
pub mod laws;
pub mod node;
pub mod paths;
