//! A filesystem-backed resource resolution and representation engine.
//!
//! An incoming request path is mapped to a resource handle that is either a
//! structured (linked-data) file, an opaque file, or absent. The handle then
//! answers, independently of one another, for the response body bytes, the
//! content-type header value, and a cache-validation token (etag) derived
//! from the file's modification timestamp. All filesystem access is left to
//! the caller, which hands the observed outcomes (existence, read result,
//! modification time) to the functions here.

pub mod etag;
pub mod path;
pub mod resource;
