//! Cursor-based pagination over a virtual, densely numbered image collection.
//!
//! The collection holds `image_count` resources, identified by the integers
//! `1..=image_count`. A page is requested with a `(first, after)` pair, where
//! `after` is an opaque cursor of the form `image-<id>`. The library decodes
//! and validates cursors, computes the inclusive identifier window of a page,
//! and derives the page-info fields (start/end cursor, has-next-page,
//! has-previous-page) exactly as the connection protocol demands.

pub mod connection;
pub mod cursor;
pub mod pagination;
pub mod urls;

pub use cursor::CursorError;
