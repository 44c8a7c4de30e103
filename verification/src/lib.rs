//! A verified faceted-search and keyset-pagination engine for a package
//! catalog.
//!
//! The engine composes the recognized facets of a request into one
//! predicate, orders the matching items under a chosen sort strategy, and
//! serves pages either by numeric offset or by opaque continuation
//! tokens, keeping `total`, ordering and page links mutually consistent.
//! The catalog is handed in as a plain in-memory snapshot; storage,
//! HTTP, and the full-text scoring oracle are collaborators behind plain
//! values.

pub mod auth;
pub mod catalog;
pub mod engine;
pub mod errors;
pub mod feed;
pub mod laws;
pub mod order;
pub mod pagination;
pub mod params;
pub mod seek;
pub mod sort;
pub mod team;
pub mod text;
