//! Keeps a local catalog of passes and one-time products in step with the
//! platform that sells them: merging what the platform lists into the
//! catalog, comparing the catalog with it field by field, and deciding what
//! is created, what is updated and what is sent.
//!
//! The library decides and computes; it never talks to the network, the
//! disk or the terminal. Its callers do, and hand it what came back.

pub mod catalog;
pub mod confirm;
pub mod diff;
pub mod diff_viewer;
pub mod download;
pub mod export;
pub mod fetch;
pub mod input;
pub mod model;
pub mod number;
pub mod order;
pub mod product;
pub mod render;
pub mod store;
pub mod text;
pub mod transport;
pub mod upload;
