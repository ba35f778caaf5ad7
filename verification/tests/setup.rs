use kit::setup::{
    accepts_install, cargo_command, check_foundry_deps, check_js_deps, check_rust_deps,
    check_rust_toolchains_targets, collect_missing_deps, compare_versions_min_major,
    dependencies_text, get_newest_valid_node_version, get_python_version, install_commands,
    install_prompt, is_npm_version_correct, nvm_ls_versions, parse_u32_exec, parse_version_exec,
    select_newest, Dependency,
};

fn chars(s: &str) -> Vec<char> {
    s.chars().collect()
}

#[test]
fn dependency_names() {
    assert_eq!(Dependency::Nvm.text(), "nvm v0.39.7");
    assert_eq!(Dependency::Npm.text(), "npm 9.0");
    assert_eq!(Dependency::Node.text(), "node 20.0");
    assert_eq!(Dependency::RustWasm32Wasi.text(), "rust wasm32-wasip1 target");
    assert_eq!(
        dependencies_text(&vec![Dependency::Foundry, Dependency::Docker, Dependency::WasmTools]),
        "foundry, docker, wasm-tools"
    );
    assert_eq!(dependencies_text(&vec![]), "");
}

#[test]
fn version_parsing() {
    assert_eq!(parse_version_exec(&chars("v20.11.1")), Some((20, 11)));
    assert_eq!(parse_version_exec(&chars("3.10.12")), Some((3, 10)));
    assert_eq!(parse_version_exec(&chars("vv18.0")), Some((18, 0)));
    assert_eq!(parse_version_exec(&chars("20")), None);
    assert_eq!(parse_version_exec(&chars("x.1")), None);
    assert_eq!(parse_version_exec(&chars("1.-2")), None);
    assert_eq!(parse_u32_exec(&chars("+7")), Some(7));
    assert_eq!(parse_u32_exec(&chars("4294967295")), Some(4294967295));
    assert_eq!(parse_u32_exec(&chars("4294967296")), None);
    assert_eq!(parse_u32_exec(&chars("")), None);
    assert_eq!(parse_u32_exec(&chars("+")), None);
}

#[test]
fn version_comparison() {
    assert!(compare_versions_min_major((10, 2), (9, 0)));
    assert!(!compare_versions_min_major((10, 0), (9, 1)));
    assert!(compare_versions_min_major((9, 0), (9, 0)));
}

#[test]
fn nvm_listing_and_newest_node() {
    let ls = "       v18.20.4 *\n->     v20.11.1 *\n->     v20.10.0\n       v20.9.0\n\x1b[0;32m  v21.1.0\x1b[0m\nsystem extra words here\n";
    // a line of three fields is skipped
    assert_eq!(nvm_ls_versions(ls), vec!["v18.20.4", "v20.10.0", "v20.9.0", "v21.1.0"]);
    assert_eq!(get_newest_valid_node_version(ls, None, None), Some("v21.1.0".to_string()));
    assert_eq!(get_newest_valid_node_version(ls, Some(18), Some(21)), Some("v21.1.0".to_string()));
    assert_eq!(get_newest_valid_node_version(ls, Some(22), None), None);
    assert_eq!(get_newest_valid_node_version("  v22.3.0\n", None, None), Some("v22.3.0".to_string()));
    assert_eq!(get_newest_valid_node_version(ls, Some(21), None), Some("v21.1.0".to_string()));
    assert_eq!(get_newest_valid_node_version("", None, None), None);
}

#[test]
fn newest_candidate_keeps_first_of_equals() {
    let items = vec![
        ("a".to_string(), Some((3, 11))),
        ("b".to_string(), Some((3, 11))),
        ("c".to_string(), Some((3, 9))),
        ("d".to_string(), None),
    ];
    assert_eq!(select_newest(&items, 3, 10), Some("a".to_string()));
    assert_eq!(select_newest(&items, 2, 0), Some("a".to_string()));
    assert_eq!(select_newest(&items, 3, 12), None);
    assert_eq!(select_newest(&items, 0, 0), Some("a".to_string()));
}

#[test]
fn python_selection() {
    let found = vec![
        ("/usr/bin/python3.9".to_string(), "Python 3.9.1\n".to_string()),
        ("/usr/bin/python3.12".to_string(), "Python 3.12.0\n".to_string()),
        ("/usr/bin/python3.11".to_string(), "Python 3.11.4\n".to_string()),
        ("/usr/bin/python3-broken".to_string(), String::new()),
    ];
    assert_eq!(get_python_version(&found, None, None), Some("/usr/bin/python3.12".to_string()));
    assert_eq!(get_python_version(&found, Some(3), Some(13)), None);
    let newer = vec![
        ("/usr/bin/python3.11".to_string(), "Python 3.11.4\n".to_string()),
        ("/usr/bin/python4".to_string(), "Python 4.0.1\n".to_string()),
    ];
    assert_eq!(get_python_version(&newer, None, None), Some("/usr/bin/python4".to_string()));
    assert_eq!(get_python_version(&newer, Some(4), Some(1)), None);
}

#[test]
fn npm_version_check() {
    assert!(is_npm_version_correct("Now using node v20.11.1\n10.2.4\n\n", (9, 0)));
    assert!(!is_npm_version_correct("8.19.2\n", (9, 0)));
    assert!(!is_npm_version_correct("", (9, 0)));
}

#[test]
fn missing_dependency_decisions() {
    assert!(check_rust_toolchains_targets("installed targets:\nwasm32-wasip1\nx86_64\n").is_empty());
    assert_eq!(check_rust_toolchains_targets("x86_64-unknown-linux-gnu\n"), vec![Dependency::RustWasm32Wasi]);
    assert_eq!(
        check_rust_deps(false, vec![], true),
        vec![Dependency::Rust, Dependency::RustWasm32Wasi, Dependency::WasmTools]
    );
    assert_eq!(check_rust_deps(true, vec![Dependency::RustWasm32Wasi], false), vec![Dependency::RustWasm32Wasi, Dependency::WasmTools]);
    assert_eq!(check_js_deps(false, false, true), vec![Dependency::Nvm, Dependency::Node, Dependency::Npm]);
    assert_eq!(check_js_deps(true, true, false), vec![Dependency::Npm]);
    assert!(check_js_deps(true, true, true).is_empty());
    assert_eq!(check_foundry_deps(false), vec![Dependency::Foundry]);
    assert!(check_foundry_deps(true).is_empty());
    assert_eq!(
        collect_missing_deps(vec![Dependency::Rust], vec![Dependency::Npm], vec![Dependency::Docker], vec![Dependency::Foundry], true, false, false),
        vec![Dependency::Rust, Dependency::Docker, Dependency::Foundry]
    );
}

#[test]
fn install_prompt_and_answer() {
    assert_eq!(
        install_prompt(&vec![Dependency::Docker]),
        "kit requires this missing dependency: docker. Install? [Y/n]: "
    );
    assert_eq!(
        install_prompt(&vec![Dependency::Nvm, Dependency::Rust]),
        "kit requires these missing dependencies: nvm v0.39.7, rust. Install? [Y/n]: "
    );
    assert!(accepts_install("Y\n"));
    assert!(accepts_install(" yes "));
    assert!(accepts_install("\n"));
    assert!(!accepts_install("no"));
    assert!(!accepts_install("yep"));
}

#[test]
fn install_command_texts() {
    assert_eq!(cargo_command("install wasm-tools", "+stable"), "cargo +stable --color=always install wasm-tools");
    assert_eq!(cargo_command("build --color=always", ""), "cargo  build --color=always");
    assert_eq!(
        install_commands(Dependency::Nvm, ""),
        vec!["curl -o- https://raw.githubusercontent.com/nvm-sh/nvm/v0.39.7/install.sh | bash"]
    );
    assert_eq!(install_commands(Dependency::Node, ""), vec!["source ~/.nvm/nvm.sh && nvm install 20.0"]);
    assert_eq!(
        install_commands(Dependency::RustWasm32Wasi, "+nightly"),
        vec!["rustup +nightly target add wasm32-wasip1"]
    );
    assert_eq!(install_commands(Dependency::Foundry, "").len(), 2);
    assert!(install_commands(Dependency::Docker, "").is_empty());
}
