use kit::build_rules::{
    build_plan, check_fetch_source, clean_args, collect_imports_exports, compose_commands,
    default_wit_world, extract_imports_exports_from_wit, extract_world, get_world_or_default,
    has_feature, is_api_file_name, is_only_empty_string, is_world_file_name, javascript_commands,
    process_kind, python_command, remove_missing_features, rust_build_args, scan_step, ui_commands,
    update_args, wasm_adapt_args, wasi_snapshot_url, wit_url, BuildPlan, ComponentWit, DepChecks,
    ProcessKind, ScanAction, ScanEntry,
};

const CARGO: &str = "[package]\nname = \"p\"\n\n[features]\nsimulation-mode = []\ntest = []\n";

fn strings(v: &[&str]) -> Vec<String> {
    v.iter().map(|s| s.to_string()).collect()
}

#[test]
fn feature_lookup() {
    assert_eq!(has_feature(CARGO, "test"), Ok(true));
    assert_eq!(has_feature(CARGO, "other"), Ok(false));
    assert_eq!(has_feature("[package]\nname = \"p\"\n", "test"), Ok(false));
    assert!(has_feature("[[[", "test").is_err());
    assert_eq!(
        remove_missing_features(CARGO, &strings(&["test", "x", "simulation-mode"])),
        Ok(strings(&["test", "simulation-mode"]))
    );
    assert_eq!(remove_missing_features("a = 1", &strings(&["test"])), Ok(vec![]));
}

#[test]
fn empty_feature_list() {
    assert!(is_only_empty_string(&strings(&[""])));
    assert!(!is_only_empty_string(&strings(&["", ""])));
    assert!(!is_only_empty_string(&strings(&["a"])));
    assert!(!is_only_empty_string(&vec![]));
}

#[test]
fn rust_build_arguments() {
    let base = [
        "+nightly", "build", "--release", "--no-default-features", "--target", "wasm32-wasi",
        "--target-dir", "target", "--color=always",
    ];
    assert_eq!(rust_build_args("", CARGO), Ok(strings(&base)));
    let mut with = base.to_vec();
    with.push("--features");
    with.push("test,simulation-mode");
    assert_eq!(rust_build_args("test,nope,simulation-mode", CARGO), Ok(strings(&with)));
    assert!(rust_build_args("test", "= broken").is_err());
}

#[test]
fn world_extraction() {
    assert_eq!(extract_world("package a:b;\nworld  my-world-v0 {\n}"), Some("my-world-v0".to_string()));
    assert_eq!(extract_world("world{ }\nworld w2{"), Some("w2".to_string()));
    assert_eq!(extract_world("interface x {}"), None);
    assert!(is_world_file_name("a.wit"));
    assert!(!is_world_file_name("kinode.wit"));
    assert!(!is_world_file_name(".wit"));
    assert!(!is_world_file_name("a.wit.bak"));
    assert!(is_api_file_name("kinode.wit"));
    let files = vec![
        ("kinode.wit".to_string(), "world process-v0 {}".to_string()),
        ("a.wit".to_string(), "world mine-v0 { import x; }".to_string()),
        ("b.txt".to_string(), "world other {}".to_string()),
    ];
    assert_eq!(get_world_or_default(&files, "process-v0".to_string()), "mine-v0");
    let two = vec![
        ("a.wit".to_string(), "world one {}".to_string()),
        ("b.wit".to_string(), "world two {}".to_string()),
    ];
    assert_eq!(get_world_or_default(&two, "process-v0".to_string()), "process-v0");
}

#[test]
fn imports_and_exports_of_a_component() {
    let wit = "package root:component;\n\nworld root {\n  import wasi:io/poll@0.2.0;\n  import kinode:process/standard@0.8.0;\n  import foo:bar/api;\n  export init: func();\n  export foo:bar/other;\n}\n";
    let (imports, exports) = extract_imports_exports_from_wit(wit);
    assert_eq!(imports, strings(&["foo:bar/api"]));
    assert_eq!(exports, strings(&["foo:bar/other"]));
}

#[test]
fn composition_plan() {
    let components = vec![
        ComponentWit { path: "a.wasm".to_string(), imports: strings(&["x"]), exports: strings(&["y"]) },
        ComponentWit { path: "b.wasm".to_string(), imports: strings(&["x", "y"]), exports: strings(&["x"]) },
    ];
    let (importers, exporters) = collect_imports_exports(&components).ok().unwrap();
    assert_eq!(importers, vec![("x".to_string(), strings(&["a.wasm", "b.wasm"])), ("y".to_string(), strings(&["b.wasm"]))]);
    assert_eq!(exporters, vec![("y".to_string(), "a.wasm".to_string()), ("x".to_string(), "b.wasm".to_string())]);
    let cmds = compose_commands(&importers, &exporters).ok().unwrap();
    assert_eq!(cmds.len(), 3);
    assert_eq!(cmds[0], strings(&["compose", "a.wasm", "-d", "b.wasm", "-o", "a.wasm"]));
    let dup = vec![
        ComponentWit { path: "a.wasm".to_string(), imports: vec![], exports: strings(&["y"]) },
        ComponentWit { path: "b.wasm".to_string(), imports: vec![], exports: strings(&["y"]) },
    ];
    assert_eq!(collect_imports_exports(&dup).err(), Some(("y".to_string(), "b.wasm".to_string())));
    assert_eq!(
        compose_commands(&vec![("z".to_string(), strings(&["a.wasm"]))], &exporters).err(),
        Some("z".to_string())
    );
}

#[test]
fn build_decisions() {
    assert_eq!(build_plan(false, true, false, false, false), BuildPlan::Skip);
    assert_eq!(build_plan(false, false, true, false, false), BuildPlan::MissingPkgDir);
    assert_eq!(build_plan(true, false, false, false, true), BuildPlan::MissingUiDir);
    assert_eq!(build_plan(true, false, false, false, false), BuildPlan::Package);
    assert_eq!(build_plan(true, false, true, true, true), BuildPlan::Package);
    assert_eq!(build_plan(true, false, true, false, true), BuildPlan::UiOnly);
    assert_eq!(build_plan(true, false, true, false, false), BuildPlan::PackageAndUi);
    assert_eq!(process_kind(true, true, true), Some(ProcessKind::Rust));
    assert_eq!(process_kind(false, false, true), Some(ProcessKind::Javascript));
    assert_eq!(process_kind(false, false, false), None);
    assert_eq!(default_wit_world(None, None), "process");
    assert_eq!(default_wit_world(None, Some(0)), "process-v0");
    assert_eq!(default_wit_world(Some("w".to_string()), None), "w");
    assert!(wit_url(Some(1)).ends_with("/v0.8/kinode.wit"));
    assert!(wit_url(None).ends_with("aa2c8b11c9171b949d1991c32f58591c0e881f85/kinode.wit"));
    assert_eq!(
        check_fetch_source(1, &None),
        Err("Need a node to be able to fetch dependencies".to_string())
    );
    assert_eq!(check_fetch_source(0, &None), Ok(()));
}

#[test]
fn scan_checks_each_language_once() {
    let rust = ScanEntry { is_dir: true, has_rust_src: true, has_python_src: false, has_javascript_src: false, is_api_dir: false };
    let api = ScanEntry { is_dir: true, has_rust_src: false, has_python_src: false, has_javascript_src: false, is_api_dir: true };
    let start = DepChecks { rust: false, python: false, javascript: false };
    let (c1, a1) = scan_step(start, rust, false);
    assert_eq!(a1, ScanAction::CheckRustDeps);
    let (c2, a2) = scan_step(c1, rust, false);
    assert_eq!(a2, ScanAction::Nothing);
    assert_eq!(c2, c1);
    assert_eq!(scan_step(start, rust, true).1, ScanAction::Nothing);
    assert_eq!(scan_step(start, api, false).1, ScanAction::ReadApis);
}

#[test]
fn process_commands() {
    let (install, componentize) = javascript_commands(&Some("v20.1.0".to_string()), "proc", "w");
    assert_eq!(install, "source ~/.nvm/nvm.sh && nvm use v20.1.0 && npm install");
    assert_eq!(componentize, "source ~/.nvm/nvm.sh && nvm use v20.1.0 && node componentize.mjs proc w");
    assert_eq!(ui_commands(&None), ("npm install".to_string(), "npm run build:copy".to_string()));
    assert_eq!(
        python_command("proc", "w"),
        "source ../process_env/bin/activate && pip install componentize-py==0.11.0 && componentize-py -d ../target/wit/ -w w componentize lib -o ../../pkg/proc.wasm"
    );
    assert_eq!(
        wasm_adapt_args("proc"),
        strings(&["component", "new", "target/wasm32-wasi/release/proc.wasm", "-o", "../pkg/proc.wasm", "--adapt", "target/wasi_snapshot_preview1.wasm"])
    );
    assert_eq!(
        wasi_snapshot_url(),
        "https://github.com/bytecodealliance/wasmtime/releases/download/v19.0.1/wasi_snapshot_preview1.reactor.wasm"
    );
}

#[test]
fn cargo_arguments_of_clean_and_update() {
    assert_eq!(
        clean_args(true, Some("dev".to_string()), &strings(&["t1"]), &strings(&["p1", "p2"]), true),
        strings(&["clean", "--target-dir", "target", "--release", "--profile", "dev", "--target", "t1", "--package", "p1", "--package", "p2", "--dry-run"])
    );
    assert_eq!(clean_args(false, None, &vec![], &vec![], false), strings(&["clean", "--target-dir", "target"]));
    assert_eq!(
        update_args(strings(&["--force"]), "main"),
        strings(&["install", "--git", "https://github.com/uqbar-dao/necdev", "--branch", "main", "--force"])
    );
}

use kit::wit_world::{collect_project_results, is_hyperware_process, is_rust_source};

#[test]
fn project_discovery_and_results() {
    assert!(is_hyperware_process("[package]\nname = \"p\"\n[package.metadata.component]\npackage = \"hyperware:process\"\n"));
    assert!(!is_hyperware_process("[package]\nname = \"p\"\n[package.metadata.component]\npackage = \"other:thing\"\n"));
    assert!(!is_hyperware_process("[package]\nname = \"p\"\n"));
    assert!(!is_hyperware_process("not toml ["));
    assert!(is_rust_source("lib.rs"));
    assert!(!is_rust_source("lib.rs.orig"));
    let c = |s: &str| s.chars().collect::<Vec<char>>();
    let results = vec![(c("my-app"), c("app-v0")), (c(""), c("app-v0")), (c("other"), c("other-v0"))];
    let (imports, interfaces, worlds) = collect_project_results(&results);
    let s = |v: Vec<Vec<char>>| v.into_iter().map(|x| x.into_iter().collect::<String>()).collect::<Vec<String>>();
    assert_eq!(s(imports), vec!["    import my-app;", "    import other;"]);
    assert_eq!(s(interfaces), vec!["my-app", "other"]);
    assert_eq!(s(worlds), vec!["app-v0", "other-v0"]);
}

#[test]
fn exporter_names() {
    assert_eq!(kit::build_rules::exported_component_name("my_proc_v0.wasm"), "my-proc-v0.wasm");
    assert_eq!(kit::build_rules::exported_component_name("plain.wasm"), "plain.wasm");
}

#[test]
fn download_cache_path() {
    assert_eq!(kit::build_rules::cache_file_path("/tmp/c", "ab"), "/tmp/c/6162");
    assert_eq!(kit::build_rules::cache_file_path("/k", ""), "/k/");
}
