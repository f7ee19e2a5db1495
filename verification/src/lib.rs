//! An on-demand image transformation library: a URL-safe token encodes an
//! ordered chain of transform operations (resize, filter, watermark); the
//! chain is applied to fetched image bytes through an engine, with a bounded
//! least-recently-used cache in front of the fetch.

pub mod cache;
pub mod codec;
pub mod engine;
pub mod pb;
