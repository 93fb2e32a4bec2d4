//! Content-addressed image optimization cache engine.
//!
//! The engine turns a (source path, transform) pair into a `Key`, renders the
//! transform at most once per key, stores the artifact durably under a hashed
//! file name, and keeps small blur placeholders in an in-memory index for
//! inline embedding.

pub mod artifact;
pub mod codec;
pub mod coordinator;
pub mod error;
pub mod http;
pub mod index;
pub mod key;
pub mod store;
pub mod svg;
pub mod transform;
pub mod view;
