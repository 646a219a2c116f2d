//! Watches a configured set of versioned packages (browser extensions,
//! identified by an opaque vendor ID) for newly published releases.
//!
//! The library holds the pipeline's logic: resolving the currently published
//! version and artifact location of a package from one of two update-metadata
//! sources ([`manifest`] and [`webstore`]), reconciling that version against a
//! ledger of last-seen versions ([`ledger`]), partitioning unpacked release
//! files into balanced formatting batches ([`batching`]), sanitizing the
//! output of the external diff tool ([`diffclean`]), and deciding, per
//! package, which pipeline stages run ([`pipeline`]). Network transfers and
//! external processes live outside the library; it is handed their plain
//! results (bytes, strings, exit data) and states in its contracts exactly
//! what it computes from them.

pub mod batching;
pub mod config;
pub mod diffclean;
pub mod ledger;
pub mod manifest;
pub mod paths;
pub mod pipeline;
pub mod resolve;
pub mod webstore;
