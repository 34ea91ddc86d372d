//! Resolution of short links into destination URLs.
//!
//! A request names a short link by the first segment of its path. That segment
//! is normalised, looked up by the caller, and the stored long value is
//! expanded: either as a template over the rest of the request path, or by
//! appending that rest to the long value.

pub mod error;
pub mod expand;
pub mod input;
pub mod normalize;
pub mod resolve;
pub mod template;
pub mod text;
pub mod url_text;

pub use error::GolinkError;
pub use normalize::normalize_shortlink;
pub use resolve::{resolve, resolve_fetched, GolinkResolution};
