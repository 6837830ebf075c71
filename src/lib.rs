//! Download a versioned archive from a fixed host and unpack it under a
//! target directory.
//!
//! The library holds the decisions of that pipeline: which URL to fetch,
//! whether a response may be written, how the archive's entries are read and
//! where each of them lands. Performing the requests and touching the disk is
//! left to the caller, which follows the plans computed here.
pub mod error;
pub mod config;
pub mod entry_path;
pub mod archive;
pub mod extract;
pub mod pipeline;
