//! Client-side access to N5 containers served over HTTP: dataset metadata,
//! block addressing, response interpretation and a bounded LRU block cache.

pub mod attributes;
pub mod block;
pub mod cache;
pub mod error;
pub mod http;
pub mod json;
pub mod lru;
pub mod version;

pub use attributes::{DatasetAttributes, ElementType};
pub use block::{BlockData, DecodedBlock};
pub use cache::{CacheLookup, N5AsyncCacheReader};
pub use error::N5Error;
pub use http::{Fetched, HttpMethod, HttpRequest, HttpResponse, N5HTTPFetch};
pub use version::Version;
