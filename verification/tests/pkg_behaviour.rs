use selvr::pkg::error::PkgError;
use selvr::pkg::installer::{cache_dir_in, package_cache_path, package_src_dir};
use selvr::pkg::lockfile::{LockedPackage, Lockfile};
use selvr::pkg::manifest::{
    BuildConfig, Dependency, DependencyTable, Manifest, PackageMeta, TargetOverrides,
};
use selvr::pkg::registry::{verify_checksum, Registry};
use selvr::pkg::resolver::{check_lockfile, resolve};

fn pkg(name: &str, version: &str) -> LockedPackage {
    LockedPackage {
        name: name.to_string(),
        version: version.to_string(),
        registry: "https://pkg.selvr-lang.org".to_string(),
        checksum: String::new(),
        dependencies: Vec::new(),
    }
}

fn manifest(deps: Vec<(&str, &str)>) -> Manifest {
    Manifest {
        package: PackageMeta {
            name: "app".to_string(),
            version: "0.1.0".to_string(),
            authors: Vec::new(),
            license: None,
            description: None,
            homepage: None,
            repository: None,
            keywords: Vec::new(),
        },
        dependencies: deps
            .into_iter()
            .map(|(n, v)| (n.to_string(), Dependency::Version(v.to_string())))
            .collect(),
        dev_dependencies: Vec::new(),
        targets: TargetOverrides { force_wasm: Vec::new(), force_js: Vec::new() },
        build: BuildConfig::default(),
    }
}

#[test]
fn lockfile_get_after_upsert() {
    let mut l = Lockfile::new();
    l.upsert(pkg("b", "1.0.0"));
    l.upsert(pkg("a", "2.0.0"));
    assert_eq!(l.get("b").unwrap().version, "1.0.0");
    l.upsert(pkg("b", "1.1.0"));
    assert_eq!(l.packages.len(), 2);
    assert_eq!(l.get("b").unwrap().version, "1.1.0");
    assert_eq!(l.get("a").unwrap().version, "2.0.0");
    assert!(l.get("c").is_none());
}

#[test]
fn lockfile_remove_and_sort() {
    let mut l = Lockfile::new();
    l.upsert(pkg("zeta", "1.0.0"));
    l.upsert(pkg("alpha", "1.0.0"));
    l.upsert(pkg("mid", "1.0.0"));
    l.remove("mid");
    assert!(l.get("mid").is_none());
    assert_eq!(l.packages.len(), 2);
    l.sort();
    assert_eq!(l.packages[0].name, "alpha");
    assert_eq!(l.packages[1].name, "zeta");
}

#[test]
fn registry_urls() {
    let r = Registry::default();
    assert_eq!(r.package_url("json"), "https://pkg.selvr-lang.org/v1/packages/json");
    assert_eq!(r.version_url("json", "1.2.3"), "https://pkg.selvr-lang.org/v1/packages/json/1.2.3");
    assert_eq!(r.download_url("json", "1.2.3"), "https://pkg.selvr-lang.org/v1/packages/json/1.2.3/dl");
    assert_eq!(r.search_url("http", 20), "https://pkg.selvr-lang.org/v1/search?q=http&limit=20");
    let t = Registry::new("http://localhost").with_token("tok");
    assert_eq!(t.token.as_deref(), Some("tok"));
    assert_eq!(t.package_url("x"), "http://localhost/v1/packages/x");
}

#[test]
fn checksum_of_abc() {
    let good = "sha256:ba7816bf8f01cfea414140de5dae2223b00361a396177a9cb410ff61f20015ad";
    assert!(verify_checksum(b"abc", good).is_ok());
    match verify_checksum(b"abd", good) {
        Err(PkgError::ChecksumMismatch { name, expected, actual }) => {
            assert_eq!(name, "package");
            assert_eq!(expected, good);
            assert!(actual.starts_with("sha256:"));
            assert_eq!(actual.len(), 7 + 64);
            assert_ne!(actual, good);
        }
        _ => panic!("expected a checksum mismatch"),
    }
}

#[test]
fn cache_paths() {
    assert_eq!(cache_dir_in("/home/u"), "/home/u/.selvr/cache");
    assert_eq!(package_cache_path("/c", "json", "1.0.0"), "/c/json/1.0.0");
    assert_eq!(package_src_dir("/c", "json", "1.0.0"), "/c/json/1.0.0/src");
}

#[test]
fn resolve_picks_newest_match() {
    let m = manifest(vec![("json", "^1.0.0"), ("http", "~2.1")]);
    let available = vec![
        ("json".to_string(), vec!["2.0.0".to_string(), "1.4.2".to_string(), "1.0.0".to_string()]),
        ("http".to_string(), vec!["2.2.0".to_string(), "2.1.7".to_string()]),
    ];
    let locked = resolve(&m, &available).unwrap();
    assert_eq!(locked.len(), 2);
    assert_eq!(locked[0].name, "json");
    assert_eq!(locked[0].version, "1.4.2");
    assert_eq!(locked[1].name, "http");
    assert_eq!(locked[1].version, "2.1.7");
    assert_eq!(locked[0].registry, "https://pkg.selvr-lang.org");
    assert_eq!(locked[0].checksum, "");
}

#[test]
fn resolve_errors() {
    let m = manifest(vec![("json", "^3.0.0")]);
    let available = vec![("json".to_string(), vec!["2.0.0".to_string()])];
    match resolve(&m, &available) {
        Err(PkgError::NotFound { name }) => assert_eq!(name, "json"),
        _ => panic!("expected NotFound"),
    }
    let unknown = manifest(vec![("nope", "^1.0.0")]);
    assert!(matches!(resolve(&unknown, &available), Err(PkgError::NotFound { .. })));
    let bad_req = manifest(vec![("json", "not a req")]);
    match resolve(&bad_req, &available) {
        Err(PkgError::Manifest(msg)) => assert!(msg.starts_with("bad version req for json: ")),
        _ => panic!("expected a manifest error"),
    }
    let bad_version = vec![("json".to_string(), vec!["x.y".to_string()])];
    let m2 = manifest(vec![("json", "^1.0.0")]);
    match resolve(&m2, &bad_version) {
        Err(PkgError::Manifest(msg)) => assert!(msg.starts_with("bad version x.y for json: ")),
        _ => panic!("expected a manifest error"),
    }
}

#[test]
fn stale_lock_entries() {
    let m = manifest(vec![("json", "^1.0.0"), ("http", "^2.0.0"), ("log", "^0.4")]);
    let locked = vec![pkg("json", "1.2.0"), pkg("http", "1.9.0")];
    assert_eq!(check_lockfile(&m, &locked), vec!["http".to_string(), "log".to_string()]);
}

#[test]
fn dependency_forms() {
    let v = Dependency::Version("^1.0".to_string());
    assert_eq!(v.version_req(), "^1.0");
    assert_eq!(v.local_path(), None);
    let t = Dependency::Table(DependencyTable {
        version: "^2.0".to_string(),
        path: Some("../lib".to_string()),
        optional: false,
        features: Vec::new(),
    });
    assert_eq!(t.version_req(), "^2.0");
    assert_eq!(t.local_path(), Some("../lib"));
    let b = BuildConfig::default();
    assert_eq!((b.emit.as_str(), b.opt.as_str(), b.entry.as_str()), ("js", "debug", "src/main.self"));
}

#[test]
fn pkg_error_messages() {
    assert_eq!(PkgError::NotFound { name: "x".to_string() }.message(), "dependency `x` not found in registry");
    assert_eq!(PkgError::Manifest("m".to_string()).message(), "manifest error: m");
}
