//! Verified core of a personal-data export tool for an education platform's
//! REST API.
//!
//! The library contains the decision logic of the export: a small JSON model
//! with field accessors, name sanitization, the user-deduplication set, the
//! cursor-based feed walk, and the type-dispatched traversal of a course's
//! content tree, expressed as a work-list engine that turns fetched records
//! into filesystem operations. All network and disk I/O stays outside the
//! library; a driver performs the fetches and executes the operations the
//! engine emits.

pub mod error;
pub mod feed;
pub mod json;
pub mod profile;
pub mod text;
pub mod token;
pub mod tree;
pub mod users;
