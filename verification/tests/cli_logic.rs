use selvr::cli::{
    add_dependency, init_manifest, install_locks, lint_failed, lint_summary, remove_dependency,
    split_package_spec, target_warnings, test_fn_names, test_harness,
};
use selvr::ir::ir::{IrModule, Target};
use selvr::target::propagate::propagate_targets;
use selvr::lexer::Lexer;
use selvr::parser::Parser;
use selvr::pkg::lockfile::Lockfile;
use selvr::pkg::manifest::{BuildConfig, Dependency, DependencyTable, Manifest, PackageMeta, TargetOverrides};
use selvr::target::target::{FnTarget, TargetMap};

fn manifest() -> Manifest {
    Manifest {
        package: PackageMeta {
            name: "app".to_string(),
            version: "0.1.0".to_string(),
            authors: Vec::new(),
            license: None,
            description: None,
            homepage: None,
            repository: None,
            keywords: Vec::new(),
        },
        dependencies: vec![("json".to_string(), Dependency::Version("^~1.2.0".to_string()))],
        dev_dependencies: vec![(
            "local".to_string(),
            Dependency::Table(DependencyTable {
                version: "0.1.0".to_string(),
                path: Some("../local".to_string()),
                optional: false,
                features: Vec::new(),
            }),
        )],
        targets: TargetOverrides { force_wasm: Vec::new(), force_js: Vec::new() },
        build: BuildConfig::default(),
    }
}

#[test]
fn package_specs() {
    assert_eq!(split_package_spec("selvr-std@1.2.0"), ("selvr-std".to_string(), "1.2.0".to_string()));
    assert_eq!(split_package_spec("selvr-std"), ("selvr-std".to_string(), "*".to_string()));
    assert_eq!(split_package_spec("a@b@c"), ("a".to_string(), "b@c".to_string()));
}

#[test]
fn install_locks_every_dependency() {
    let m = manifest();
    let mut lock = Lockfile::new();
    assert_eq!(install_locks(&m, &mut lock), 2);
    assert_eq!(lock.packages.len(), 2);
    let json = lock.get("json").unwrap();
    assert_eq!(json.version, "1.2.0");
    assert_eq!(json.registry, "https://pkg.selvr-lang.org");
    assert_eq!(json.checksum, "pending");
    let local = lock.get("local").unwrap();
    assert_eq!(local.version, "0.1.0");
    assert_eq!(local.registry, "path:../local");
    assert_eq!(local.checksum, "local");
    assert_eq!(lock.packages[0].name, "json");
}

#[test]
fn dependency_edits() {
    let mut m = manifest();
    add_dependency(&mut m, "json".to_string(), Dependency::Version("2.0".to_string()), false);
    assert_eq!(m.dependencies.len(), 1);
    assert_eq!(m.dependencies[0].1.version_req(), "2.0");
    add_dependency(&mut m, "http".to_string(), Dependency::Version("*".to_string()), true);
    assert_eq!(m.dev_dependencies.len(), 2);
    assert_eq!(m.dev_dependencies[1].0, "http");
    assert!(remove_dependency(&mut m, "local"));
    assert_eq!(m.dev_dependencies.len(), 1);
    assert!(!remove_dependency(&mut m, "missing"));
}

#[test]
fn forced_target_warnings() {
    let mut map = TargetMap::new();
    let rec = |name: &str, target: Target, forced: bool, score: i32| FnTarget {
        name: name.to_string(),
        target,
        forced,
        reason: String::new(),
        score,
        callees: Vec::new(),
    };
    map.insert(rec("a", Target::Wasm, true, -5));
    map.insert(rec("b", Target::Js, true, 80));
    map.insert(rec("c", Target::Js, false, 80));
    map.insert(rec("d", Target::Js, true, 50));
    let ws = target_warnings(&map);
    assert_eq!(ws.len(), 2);
    assert_eq!(
        ws[0],
        "warning: `a` is annotated `#[wasm]` but analysis score (-5) suggests it belongs in JS — remove #[wasm] or ensure it has no DOM calls"
    );
    assert!(ws[1].starts_with("warning: `b` is annotated `#[js]` but analysis score (80)"));
}

#[test]
fn test_functions_and_harness() {
    let src = "#[test]\nfn check_one(): void {\n    return;\n}\n\nfn helper(): void {\n    return;\n}\n";
    let (tokens, _) = Lexer::new(src, 0).tokenize();
    let module = Parser::new(tokens, 0).parse().0;
    let names = test_fn_names(&module);
    assert_eq!(names, vec!["check_one".to_string()]);
    let all = test_harness(&names, None);
    assert!(all.starts_with("\n// --- selvr test harness ---\nlet __passed = 0, __failed = 0;\ntry { check_one(); __passed++;"));
    assert!(all.ends_with("if (__failed > 0) process.exit(1);\n"));
    let none = test_harness(&names, Some("zzz"));
    assert!(!none.contains("try {"));
    let some = test_harness(&names, Some("one"));
    assert!(some.contains("try { check_one();"));
}

#[test]
fn lint_summaries() {
    assert_eq!(lint_summary(0, 0), "");
    assert_eq!(lint_summary(2, 0), "2 error(s)");
    assert_eq!(lint_summary(0, 3), "3 warning(s)");
    assert_eq!(lint_summary(1, 4), "1 error(s), 4 warning(s)");
    assert!(lint_failed(1, 0, false));
    assert!(!lint_failed(0, 2, false));
    assert!(lint_failed(0, 2, true));
}

#[test]
fn init_manifest_text() {
    let t = init_manifest("demo");
    assert!(t.starts_with("[package]\nname        = \"demo\"\nversion     = \"0.1.0\"\n"));
    assert!(t.ends_with("entry = \"src/main.self\"\n"));
}

#[test]
fn propagation_downgrades_a_wasm_caller_of_js() {
    let mut map = TargetMap::new();
    let rec = |name: &str, target: Target, score: i32, callees: Vec<&str>| FnTarget {
        name: name.to_string(),
        target,
        forced: false,
        reason: String::new(),
        score,
        callees: callees.into_iter().map(|c| c.to_string()).collect(),
    };
    map.insert(rec("top", Target::Wasm, 10, vec!["mid"]));
    map.insert(rec("mid", Target::Wasm, 10, vec!["dom"]));
    map.insert(rec("dom", Target::Js, -10, vec![]));
    let mut module = IrModule { name: "main".to_string(), fns: Vec::new(), globals: Vec::new() };
    let changed = propagate_targets(&mut module, &mut map);
    assert_eq!(changed, vec!["mid".to_string(), "top".to_string()]);
    assert_eq!(map.get("top").unwrap().target, Target::Js);
    assert_eq!(map.get("mid").unwrap().target, Target::Js);
    assert_eq!(map.get("mid").unwrap().reason, "downgraded: calls a JS-only function");
    assert_eq!(map.get("dom").unwrap().target, Target::Js);
}

#[test]
fn propagation_reaches_a_fixed_point() {
    let rec = |name: &str, target: Target, forced: bool, score: i32, callees: Vec<&str>| FnTarget {
        name: name.to_string(),
        target,
        forced,
        reason: String::new(),
        score,
        callees: callees.into_iter().map(|c| c.to_string()).collect(),
    };
    // A forced WASM caller of a JS function that calls a forced JS one: the
    // middle function stays JS, so no WASM function calls JS.
    let mut map = TargetMap::new();
    map.insert(rec("a", Target::Wasm, true, 1000, vec!["b"]));
    map.insert(rec("b", Target::Js, false, 10, vec!["c"]));
    map.insert(rec("c", Target::Js, true, -1000, vec![]));
    let mut module = IrModule { name: "main".to_string(), fns: Vec::new(), globals: Vec::new() };
    let changed = propagate_targets(&mut module, &mut map);
    assert!(changed.is_empty());
    assert_eq!(map.get("b").unwrap().target, Target::Js);
    // With no JS callee, the middle function moves to WASM.
    let mut map = TargetMap::new();
    map.insert(rec("a", Target::Wasm, true, 1000, vec!["b"]));
    map.insert(rec("b", Target::Js, false, 10, vec!["c"]));
    map.insert(rec("c", Target::Wasm, false, 60, vec![]));
    let changed = propagate_targets(&mut module, &mut map);
    assert_eq!(changed, vec!["b".to_string()]);
    assert_eq!(map.get("b").unwrap().target, Target::Wasm);
    assert_eq!(map.get("b").unwrap().reason, "upgraded: all callers are WASM and score is positive");
}
