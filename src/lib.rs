//! A client core for the OCI distribution protocol: digests and their
//! validation, pagination cursors, authentication challenges, blob streams
//! and image download plans.

pub mod text;
pub mod error;
pub mod digest;
pub mod pagination;
pub mod challenge;
pub mod auth;
pub mod blob;
pub mod client;
pub mod download;
pub mod index;

pub use auth::Credentials;
pub use blob::Blob;
pub use digest::Digest;
pub use error::{Error, ErrorKind};
pub use index::Index;
pub use pagination::Paginate;
