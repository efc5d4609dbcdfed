//! Build-time directory embedding and runtime asset serving.
//!
//! A directory tree is scanned once at build time; each regular file becomes
//! an entry mapping its path relative to the scanned root to its raw bytes.
//! The entries are assembled into an immutable [`index::AssetIndex`], sized
//! either dynamically or to the next power of two above the entry count.
//! At runtime the index answers read-only byte lookups, and the content-type
//! resolver infers a MIME type for each served file, validating the
//! extension-derived expectation against a content sniff of the bytes.

pub mod args;
pub mod capacity;
pub mod errors;
pub mod index;
pub mod keyer;
pub mod resolver;

pub use args::get_path_from_args;
pub use args::ArgToken;
pub use capacity::round_pow_2;
pub use capacity::CapacityMode;
pub use errors::BuildError;
pub use index::build_index;
pub use index::AssetIndex;
pub use index::FileEntry;
pub use keyer::relative_key;
pub use resolver::mime_decision;
pub use resolver::resolve_content_type;
pub use resolver::sniff;
pub use resolver::MimeDecision;
