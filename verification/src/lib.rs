//! Verified core of a command-line client for the Nifty Asset program.
//!
//! The crate holds the parts of the client that decide and compute: the
//! packing of instructions into transactions by their wire size against the
//! size limit, the parsing of delegate roles, the reading of asset files, the
//! instruction lists that each command sends, and the bookkeeping of batch
//! mints. Reading files from disk, talking to the cluster and printing stay
//! with the program around it.
pub mod asset_file;
pub mod commands;
pub mod instructions;
pub mod mint_batch;
pub mod minting;
pub mod model;
pub mod roles;
pub mod transaction;
pub mod wire;
