//! The package cache layout: `{cache}/{name}/{version}/`, with the sources
//! under `src/`.  Locating the home directory and touching the file system
//! are the caller's part; paths here are `/`-separated text.

use vstd::prelude::*;
use crate::text::{string_of, push_str, push_char, chars_of};

verus! {

/// Appending one component to a path, as `PathBuf::push` does on Unix: an
/// absolute component replaces the path; otherwise a separator is added
/// unless the path is empty or already ends with one.
pub open spec fn path_join(base: Seq<char>, part: Seq<char>) -> Seq<char> {
    if part.len() > 0 && part[0] == '/' {
        part
    } else if base.len() == 0 || base.last() == '/' {
        base + part
    } else {
        base + seq!['/'] + part
    }
}

pub fn join(base: &str, part: &str) -> (r: String)
    ensures
        r@ == path_join(base@, part@),
{
    let pv = chars_of(part);
    if pv.len() > 0 && pv[0] == '/' {
        return string_of(part);
    }
    let bv = chars_of(base);
    let mut r = string_of(base);
    if !(bv.len() == 0 || bv[bv.len() - 1] == '/') {
        push_char(&mut r, '/');
    }
    push_str(&mut r, part);
    r
}

/// The cache directory under a home directory: `{home}/.selvr/cache`.
pub fn cache_dir_in(home: &str) -> (r: String)
    ensures
        r@ == path_join(path_join(home@, ".selvr"@), "cache"@),
{
    let a = join(home, ".selvr");
    join(a.as_str(), "cache")
}

/// Where a package version is cached: `{cache}/{name}/{version}`.
pub fn package_cache_path(cache: &str, name: &str, version: &str) -> (r: String)
    ensures
        r@ == path_join(path_join(cache@, name@), version@),
{
    let a = join(cache, name);
    join(a.as_str(), version)
}

/// A cached package's `src/` directory.
pub fn package_src_dir(cache: &str, name: &str, version: &str) -> (r: String)
    ensures
        r@ == path_join(path_join(path_join(cache@, name@), version@), "src"@),
{
    let a = package_cache_path(cache, name, version);
    join(a.as_str(), "src")
}

} // verus!
