//! `selvr.toml`, the package manifest, once parsed.
//!
//! ```toml
//! [package]
//! name    = "my-app"
//! version = "0.1.0"
//!
//! [dependencies]
//! selvr-std   = "1.0.0"
//! other-lib   = { version = "2.0", path = "../other-lib" }
//!
//! [targets]
//! force_wasm = ["heavy_compute"]
//! force_js   = ["render_frame"]
//!
//! [build]
//! emit  = "hybrid"           # "js" | "hybrid"
//! opt   = "release"          # "debug" | "release"
//! entry = "src/main.self"
//! ```
//!
//! Reading the file and the TOML syntax are handled by the caller; the
//! dependency tables arrive as lists of `(name, dependency)` pairs.

use vstd::prelude::*;
use crate::text::string_of;

verus! {

/// The parsed manifest.
#[derive(Debug, Clone)]
pub struct Manifest {
    pub package: PackageMeta,
    pub dependencies: Vec<(String, Dependency)>,
    pub dev_dependencies: Vec<(String, Dependency)>,
    pub targets: TargetOverrides,
    pub build: BuildConfig,
}

/// The `[package]` section.
#[derive(Debug, Clone)]
pub struct PackageMeta {
    pub name: String,
    pub version: String,
    pub authors: Vec<String>,
    pub license: Option<String>,
    pub description: Option<String>,
    pub homepage: Option<String>,
    pub repository: Option<String>,
    pub keywords: Vec<String>,
}

/// One dependency: a bare version requirement or a table.
#[derive(Debug, Clone)]
pub enum Dependency {
    /// `some-lib = "^1.0.0"`
    Version(String),
    /// `some-lib = { version = "^1.0.0", path = "../some-lib" }`
    Table(DependencyTable),
}

#[derive(Debug, Clone)]
pub struct DependencyTable {
    pub version: String,
    pub path: Option<String>,
    pub optional: bool,
    pub features: Vec<String>,
}

impl Dependency {
    /// The version requirement, whichever form the dependency takes.
    /// The local path, for a table dependency that has one.
    pub open spec fn path_spec(&self) -> Option<Seq<char>> {
        match self {
            Dependency::Table(t) => match t.path {
                Some(p) => Some(p@),
                None => None,
            },
            _ => None,
        }
    }

    pub open spec fn req_spec(&self) -> Seq<char> {
        match self {
            Dependency::Version(v) => v@,
            Dependency::Table(t) => t.version@,
        }
    }

    pub fn version_req(&self) -> (r: &str)
        ensures
            r@ == self.req_spec(),
    {
        match self {
            Dependency::Version(v) => v.as_str(),
            Dependency::Table(t) => t.version.as_str(),
        }
    }

    /// The local path of a table dependency that has one.
    pub fn local_path(&self) -> (r: Option<&str>)
        ensures
            match self {
                Dependency::Table(t) => match t.path {
                    Some(p) => r matches Some(q) && q@ == p@,
                    None => r is None,
                },
                _ => r is None,
            },
    {
        match self {
            Dependency::Table(t) => match &t.path {
                Some(p) => Some(p.as_str()),
                None => None,
            },
            _ => None,
        }
    }
}

/// `[targets]`: functions forced to one runtime.
#[derive(Debug, Clone)]
pub struct TargetOverrides {
    pub force_wasm: Vec<String>,
    pub force_js: Vec<String>,
}

impl Default for TargetOverrides {
    fn default() -> (t: TargetOverrides)
        ensures
            t.force_wasm@.len() == 0,
            t.force_js@.len() == 0,
    {
        TargetOverrides { force_wasm: Vec::new(), force_js: Vec::new() }
    }
}

/// `[build]`: build configuration.
#[derive(Debug, Clone)]
pub struct BuildConfig {
    pub emit: String,
    pub opt: String,
    pub entry: String,
}

pub fn default_emit() -> (s: String)
    ensures
        s@ == "js"@,
{
    string_of("js")
}

pub fn default_opt() -> (s: String)
    ensures
        s@ == "debug"@,
{
    string_of("debug")
}

pub fn default_entry() -> (s: String)
    ensures
        s@ == "src/main.self"@,
{
    string_of("src/main.self")
}

impl Default for BuildConfig {
    fn default() -> (b: BuildConfig)
        ensures
            b.emit@ == "js"@,
            b.opt@ == "debug"@,
            b.entry@ == "src/main.self"@,
    {
        BuildConfig { emit: default_emit(), opt: default_opt(), entry: default_entry() }
    }
}

impl Manifest {
    /// Every direct dependency: the regular ones, then the dev ones.
    pub open spec fn all_deps(&self) -> Seq<(String, Dependency)> {
        self.dependencies@ + self.dev_dependencies@
    }

    /// All direct dependencies (regular, then dev).
    pub fn all_dependencies(&self) -> (r: Vec<&(String, Dependency)>)
        ensures
            r@.len() == self.all_deps().len(),
            forall|i: int| 0 <= i < r@.len() ==> *(#[trigger] r@[i]) == self.all_deps()[i],
    {
        let mut out: Vec<&(String, Dependency)> = Vec::new();
        let mut i: usize = 0;
        while i < self.dependencies.len()
            invariant
                i <= self.dependencies@.len(),
                out@.len() == i,
                forall|k: int| 0 <= k < i ==> *(#[trigger] out@[k]) == self.all_deps()[k],
            decreases self.dependencies.len() - i,
        {
            out.push(&self.dependencies[i]);
            i = i + 1;
        }
        let n = self.dependencies.len();
        let mut j: usize = 0;
        while j < self.dev_dependencies.len()
            invariant
                n == self.dependencies@.len(),
                j <= self.dev_dependencies@.len(),
                out@.len() == n + j,
                forall|k: int| 0 <= k < n + j ==> *(#[trigger] out@[k]) == self.all_deps()[k],
            decreases self.dev_dependencies.len() - j,
        {
            out.push(&self.dev_dependencies[j]);
            j = j + 1;
        }
        out
    }
}

} // verus!
