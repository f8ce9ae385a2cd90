//! The package registry's REST layout and download checksums.
//!
//! ```text
//! GET  /v1/packages/{name}                → PackageInfo (all versions)
//! GET  /v1/packages/{name}/{version}      → VersionInfo (metadata + download URL)
//! GET  /v1/packages/{name}/{version}/dl   → binary tarball (.tar.gz)
//! GET  /v1/search?q={query}&limit={n}     → SearchResult[]
//! ```
//!
//! The HTTP requests themselves are made by the caller.

use vstd::prelude::*;
use sha2::Digest;
use crate::pkg::error::PkgError;
use crate::text::{string_of, push_str, u64_to_string, nat_digits};

verus! {

/// The default registry.
pub const DEFAULT_REGISTRY: &'static str = "https://pkg.selvr-lang.org";

/// Summary information about a package.
#[derive(Debug, Clone)]
pub struct PackageInfo {
    pub name: String,
    pub description: Option<String>,
    pub versions: Vec<String>,
    pub latest: String,
    pub downloads: u64,
}

/// Metadata of one version of a package.
#[derive(Debug, Clone)]
pub struct VersionInfo {
    pub name: String,
    pub version: String,
    pub description: Option<String>,
    pub authors: Vec<String>,
    pub license: Option<String>,
    pub dependencies: Vec<RegistryDep>,
    /// SHA-256 hex of the tarball.
    pub checksum: String,
    pub download_url: String,
    pub yanked: bool,
}

/// A dependency as the registry lists it.
#[derive(Debug, Clone)]
pub struct RegistryDep {
    pub name: String,
    /// Semver requirement, e.g. `^1.0.0`.
    pub req: String,
    pub dev: bool,
}

/// One search hit.
#[derive(Debug, Clone)]
pub struct SearchResult {
    pub name: String,
    pub version: String,
    pub description: Option<String>,
    pub downloads: u64,
}

/// A registry client's settings.
pub struct Registry {
    pub base_url: String,
    pub token: Option<String>,
}

impl Registry {
    pub fn new(base_url: &str) -> (r: Registry)
        ensures
            r.base_url@ == base_url@,
            r.token is None,
    {
        Registry { base_url: string_of(base_url), token: None }
    }

    /// The client for [`DEFAULT_REGISTRY`].
    pub fn default() -> (r: Registry)
        ensures
            r.base_url@ == "https://pkg.selvr-lang.org"@,
            r.token is None,
    {
        Registry::new("https://pkg.selvr-lang.org")
    }

    pub fn with_token(self, token: &str) -> (r: Registry)
        ensures
            r.base_url == self.base_url,
            r.token matches Some(t) && t@ == token@,
    {
        let mut r = self;
        r.token = Some(string_of(token));
        r
    }

    /// The URL of a package's information.
    pub fn package_url(&self, name: &str) -> (u: String)
        ensures
            u@ == self.base_url@ + "/v1/packages/"@ + name@,
    {
        let mut u = self.base_url.clone();
        push_str(&mut u, "/v1/packages/");
        push_str(&mut u, name);
        u
    }

    /// The URL of one version's metadata.
    pub fn version_url(&self, name: &str, version: &str) -> (u: String)
        ensures
            u@ == self.base_url@ + "/v1/packages/"@ + name@ + "/"@ + version@,
    {
        let mut u = self.package_url(name);
        push_str(&mut u, "/");
        push_str(&mut u, version);
        u
    }

    /// The download URL of a version's tarball.
    pub fn download_url(&self, name: &str, version: &str) -> (u: String)
        ensures
            u@ == self.base_url@ + "/v1/packages/"@ + name@ + "/"@ + version@ + "/dl"@,
    {
        let mut u = self.version_url(name, version);
        push_str(&mut u, "/dl");
        u
    }

    /// The search URL.
    pub fn search_url(&self, query: &str, limit: usize) -> (u: String)
        ensures
            u@ == self.base_url@ + "/v1/search?q="@ + query@ + "&limit="@ + nat_digits(limit as nat),
    {
        let mut u = self.base_url.clone();
        push_str(&mut u, "/v1/search?q=");
        push_str(&mut u, query);
        push_str(&mut u, "&limit=");
        push_str(&mut u, u64_to_string(limit as u64).as_str());
        u
    }
}

/// The SHA-256 digest of some bytes.
pub uninterp spec fn sha256(data: Seq<u8>) -> Seq<u8>;

/// Wraps `<sha2::Sha256 as Digest>::digest`: the 32-byte SHA-256 digest of
/// `data`, named `sha256(data)`.
#[verifier::external_body]
fn sha256_digest(data: &[u8]) -> (r: Vec<u8>)
    ensures
        r@ == sha256(data@),
        r@.len() == 32,
{
    <sha2::Sha256 as Digest>::digest(data).to_vec()
}

/// The lowercase hex digit for `d` (below 16).
pub open spec fn hex_digit(d: int) -> char {
    if d < 10 {
        (48 + d) as char
    } else {
        (87 + d) as char
    }
}

/// Bytes as lowercase hex, two digits each, high nibble first.
pub open spec fn hex_lower(b: Seq<u8>) -> Seq<char>
    decreases b.len(),
{
    if b.len() == 0 {
        seq![]
    } else {
        hex_lower(b.drop_last()) + seq![hex_digit(b.last() as int / 16), hex_digit(b.last() as int % 16)]
    }
}

/// Wraps `hex::encode`: each byte as two lowercase hex digits, high nibble
/// first, as the crate's `HEX_CHARS_LOWER` table writes them.
#[verifier::external_body]
fn hex_encode(data: &[u8]) -> (s: String)
    ensures
        s@ == hex_lower(data@),
{
    hex::encode(data)
}

/// The checksum text of some bytes: `sha256:` and the hex digest.
pub open spec fn checksum_text(data: Seq<u8>) -> Seq<char> {
    "sha256:"@ + hex_lower(sha256(data))
}

/// Checks downloaded bytes against their declared checksum.
pub fn verify_checksum(bytes: &[u8], expected: &str) -> (r: Result<(), PkgError>)
    ensures
        r is Ok <==> checksum_text(bytes@) == expected@,
        r matches Err(e) ==> e matches PkgError::ChecksumMismatch { name, expected: x, actual }
            && name@ == "package"@ && x@ == expected@ && actual@ == checksum_text(bytes@),
{
    let hash = sha256_digest(bytes);
    let mut actual = string_of("sha256:");
    let hex = hex_encode(hash.as_slice());
    push_str(&mut actual, hex.as_str());
    if !crate::text::str_eq(actual.as_str(), expected) {
        return Err(PkgError::ChecksumMismatch { name: string_of("package"), expected: string_of(expected), actual });
    }
    Ok(())
}

} // verus!
