//! Core of a multi-protocol, multi-fragment download engine.
//!
//! The library partitions a file of known size into range fragments,
//! records per-fragment progress in a store model so that interrupted
//! jobs can resume, selects resolvers and transfer drivers for
//! user-supplied links, and drives range-based transfers with retry
//! and backoff. File, network and database access stay outside; the
//! library holds the decisions and the data they act on.

pub mod assembler;
pub mod drivers;
pub mod engine;
pub mod events;
pub mod i18n;
pub mod httpdriver;
pub mod model;
pub mod naming;
pub mod planner;
pub mod registry;
pub mod resolvers;
pub mod store;
pub mod text;
pub mod urlparse;
