//! Package management core: the manifest, the lockfile, registry URLs and
//! checksums, the cache layout and the version resolver.

pub mod error;
pub mod lockfile;
pub mod registry;
pub mod manifest;
pub mod installer;
pub mod resolver;
