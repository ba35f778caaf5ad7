use kit::chain::{
    active_config, anvil_args, anvil_ready, code_placement, deployment_bytecode,
    encode_constructor_args, encode_function_call, has_code, load_creation_bytecode,
    load_deployed_bytecode, nonce_param, normalize_slot, preregistered, resolve_address,
    storage_writes, tba_of_zero_calldata, transaction_data, transaction_target, ArgError,
    ChainConfig, CodeSource, ConstructorArg, ContractAddresses, ContractConfig, ContractMap,
    SetupCalldata, StorageValue, TransactionConfig, TxDataError,
};
use kit::chain::{
    deploy_step, start_step, DeployAction, DeployEvent, DeployPhase, DeployState, StartAction, StartEvent,
    StartState,
};

fn contract(name: Option<&str>, address: Option<&str>) -> ContractConfig {
    ContractConfig {
        name: name.map(|s| s.to_string()),
        contract_json_path: None,
        address: address.map(|s| s.to_string()),
        bytecode: None,
        deployed_bytecode_path: None,
        constructor_args: vec![],
        storage: vec![],
    }
}

fn arg(t: &str, v: &str) -> ConstructorArg {
    ConstructorArg { arg_type: t.to_string(), value: v.to_string() }
}

fn deployed(pairs: &[(&str, &str)]) -> ContractMap {
    let mut m = ContractMap::new();
    for (k, v) in pairs {
        m.insert(k.to_string(), v.to_string());
    }
    m
}

const ZEROS_64: &str = "0000000000000000000000000000000000000000000000000000000000000000";

#[test]
fn contract_map_reads_back_writes() {
    let mut m = deployed(&[("a", "0x1"), ("b", "0x2")]);
    m.insert("a".to_string(), "0x3".to_string());
    assert_eq!(m.get("a"), Some("0x3".to_string()));
    assert_eq!(m.get("b"), Some("0x2".to_string()));
    assert_eq!(m.get("c"), None);
    assert_eq!(m.entries().len(), 2);
}

#[test]
fn contract_map_extend_prefers_new_entries() {
    let mut m = deployed(&[("a", "0x1"), ("b", "0x2")]);
    let n = deployed(&[("b", "0x9"), ("c", "0x3")]);
    m.extend(&n);
    assert_eq!(m.get("a"), Some("0x1".to_string()));
    assert_eq!(m.get("b"), Some("0x9".to_string()));
    assert_eq!(m.get("c"), Some("0x3".to_string()));
}

#[test]
fn normalize_slot_forms() {
    assert_eq!(normalize_slot("0x1"), format!("0x{}1", &ZEROS_64[..63]));
    assert_eq!(normalize_slot("0x0x2"), format!("0x{}2", &ZEROS_64[..63]));
    assert_eq!(normalize_slot("255"), format!("0x{}ff", &ZEROS_64[..62]));
    assert_eq!(normalize_slot("abc"), format!("0x{}abc", &ZEROS_64[..61]));
    let long = "1".repeat(70);
    assert_eq!(normalize_slot(&format!("0x{long}")), format!("0x{long}"));
}

#[test]
fn storage_value_resolution() {
    let d = deployed(&[("token", "0xabc")]);
    assert_eq!(StorageValue::Number(10).resolve(&d), Ok("10".to_string()));
    assert_eq!(StorageValue::String("#token".to_string()).resolve(&d), Ok("0xabc".to_string()));
    assert_eq!(StorageValue::String("plain".to_string()).resolve(&d), Ok("plain".to_string()));
    assert_eq!(
        StorageValue::String("#nope".to_string()).resolve(&d),
        Err("Reference to unknown contract: #nope".to_string())
    );
    assert_eq!(
        StorageValue::Number(16).to_hex_string(&d),
        Ok(format!("0x{}10", &ZEROS_64[..62]))
    );
    assert_eq!(
        StorageValue::String("#token".to_string()).to_hex_string(&d),
        Ok(format!("0x{}abc", &ZEROS_64[..61]))
    );
}

#[test]
fn constructor_arg_resolution() {
    let d = deployed(&[("token", "0xabc")]);
    assert_eq!(arg("address", "#token").resolve_value(&d), Ok("0xabc".to_string()));
    assert_eq!(
        arg("address", "#gone").resolve_value(&d),
        Err("Reference to unknown contract in constructor: #gone".to_string())
    );
}

#[test]
fn address_lookup_takes_first_named_contract() {
    let config = ChainConfig {
        contracts: vec![contract(Some("x"), None), contract(Some("x"), Some("0x2")), contract(Some("y"), Some("0x3"))],
        transactions: vec![],
    };
    assert_eq!(config.get_address_by_name("x"), None);
    assert_eq!(config.get_address_by_name("y"), Some("0x3".to_string()));
    assert_eq!(config.get_address_by_name("z"), None);
}

#[test]
fn encode_uint_and_bool_args() {
    let d = ContractMap::new();
    let r = encode_constructor_args(&vec![arg("uint256", "1"), arg("bool", "true")], &d).ok().unwrap();
    assert_eq!(r, format!("0x{}1{}1", &ZEROS_64[..63], &ZEROS_64[..63]));
    let r = encode_constructor_args(&vec![arg("uint", "0xff")], &d).ok().unwrap();
    assert_eq!(r, format!("0x{}ff", &ZEROS_64[..62]));
    assert_eq!(encode_constructor_args(&vec![], &d).ok().unwrap(), "0x");
}

#[test]
fn encode_address_string_and_bytes_args() {
    let d = deployed(&[("t", "0x00000000000000000000000000000000000000aa")]);
    let r = encode_constructor_args(&vec![arg("address", "#t")], &d).ok().unwrap();
    assert_eq!(r, format!("0x{}aa", &ZEROS_64[..62]));
    let r = encode_constructor_args(&vec![arg("string", "hi")], &d).ok().unwrap();
    assert_eq!(
        r,
        format!("0x{}20{}02{}", &ZEROS_64[..62], &ZEROS_64[..62], format!("6869{}", &ZEROS_64[..60]))
    );
    let r = encode_constructor_args(&vec![arg("bytes", "0xbeef")], &d).ok().unwrap();
    assert_eq!(
        r,
        format!("0x{}20{}02{}", &ZEROS_64[..62], &ZEROS_64[..62], format!("beef{}", &ZEROS_64[..60]))
    );
}

#[test]
fn encode_arg_errors() {
    let d = ContractMap::new();
    match encode_constructor_args(&vec![arg("bool", "yes")], &d) {
        Err(e) => assert_eq!(e.message(), "Invalid bool value 'yes': provided string was not `true` or `false`"),
        Ok(_) => panic!(),
    }
    match encode_constructor_args(&vec![arg("int8", "1")], &d) {
        Err(e) => assert_eq!(e.message(), "Unsupported constructor arg type: int8"),
        Ok(_) => panic!(),
    }
    match encode_constructor_args(&vec![arg("uint", "#missing")], &d) {
        Err(e) => assert_eq!(e.message(), "Reference to unknown contract in constructor: #missing"),
        Ok(_) => panic!(),
    }
    match encode_constructor_args(&vec![arg("bytes", "0xabc")], &d) {
        Err(ArgError::InvalidBytes { value, .. }) => assert_eq!(value, "0xabc"),
        _ => panic!(),
    }
    match encode_constructor_args(&vec![arg("address", "not-an-address")], &d) {
        Err(e) => {
            assert!(matches!(e, ArgError::InvalidAddress { .. }));
            assert!(e.message().starts_with("Invalid address 'not-an-address': "));
        }
        Ok(_) => panic!(),
    }
    let r = encode_constructor_args(&vec![arg("address", "0X00000000000000000000000000000000000000AB")], &d).ok().unwrap();
    assert_eq!(r, format!("0x{}ab", &ZEROS_64[..62]));
    let r = encode_constructor_args(&vec![arg("address", "00000000000000000000000000000000000000ab")], &d).ok().unwrap();
    assert_eq!(r, format!("0x{}ab", &ZEROS_64[..62]));
    assert!(matches!(
        encode_constructor_args(&vec![arg("address", "0x000000000000000000000000000000000000000a")], &d),
        Ok(_)
    ));
    assert!(matches!(
        encode_constructor_args(&vec![arg("address", "0x00000000000000000000000000000000000000a")], &d),
        Err(ArgError::InvalidAddress { .. })
    ));
    match encode_constructor_args(&vec![arg("uint256", "12x")], &d) {
        Err(e) => assert!(matches!(e, ArgError::InvalidNumber { .. })),
        Ok(_) => panic!(),
    }
}

#[test]
fn function_call_starts_with_selector() {
    let d = ContractMap::new();
    // keccak256("transfer(address,uint256)") starts with a9059cbb
    let r = encode_function_call("transfer(address,uint256)", &vec![], &d).ok().unwrap();
    assert_eq!(r, "0xa9059cbb");
    let r = encode_function_call(
        "transfer(address,uint256)",
        &vec![arg("address", "0x00000000000000000000000000000000000000aa"), arg("uint256", "2")],
        &d,
    )
    .ok()
    .unwrap();
    assert_eq!(r, format!("0xa9059cbb{}aa{}2", &ZEROS_64[..62], &ZEROS_64[..63]));
    assert_eq!(tba_of_zero_calldata(), format!("0x27244d1e{}", ZEROS_64));
    // keccak256("symbol()") starts with 95d89b41
    assert_eq!(encode_function_call("symbol()", &vec![], &d).ok().unwrap(), "0x95d89b41");
}

#[test]
fn addresses_from_config() {
    let config = ChainConfig {
        contracts: vec![
            contract(Some("hypermap-impl"), Some("0xi")),
            contract(Some("hyperaccount"), Some("0xa")),
            contract(Some("erc6551registry"), Some("0xe")),
            contract(Some("multicall"), Some("0xm")),
            contract(Some("create2"), Some("0xc")),
        ],
        transactions: vec![],
    };
    let d = deployed(&[("hypermap-proxy", "0xp")]);
    let reply = format!("0x{}", "0".repeat(24) + "1111111111111111111111111111111111111111");
    let a = ContractAddresses::from_config(&config, &d, &reply).ok().unwrap();
    assert_eq!(a.hypermap_proxy, "0xp");
    assert_eq!(a.create2, "0xc");
    assert_eq!(a.zeroth_tba, "0x1111111111111111111111111111111111111111");
    assert_eq!(a.dot_os_tba, "0x9b3853358ede717fc7D4806cF75d7A4d4517A9C9");
    let a = ContractAddresses::from_config(&config, &d, "0x").ok().unwrap();
    assert_eq!(a.zeroth_tba, "0x809A598d9883f2Fb6B77382eBfC9473Fd6A857c9");
    let calldata = SetupCalldata {
        deploy_hyperaccount_minter: "0x01".to_string(),
        deploy_permissioned_minter: "0x02".to_string(),
        deploy_commit_minter: "0x03".to_string(),
        mint_os: "0x04".to_string(),
    };
    let txs = a.get_transactions(&calldata);
    assert_eq!(txs.len(), 5);
    assert_eq!(txs[0], ("0xp".to_string(), "0xc4d66de8000000000000000000000000f39fd6e51aad88f6f4ce6ab8827279cfffb92266".to_string()));
    assert_eq!(txs[4], (a.zeroth_tba.clone(), "0x04".to_string()));
}

#[test]
fn missing_address_is_an_error() {
    let config = ChainConfig { contracts: vec![], transactions: vec![] };
    let d = deployed(&[("hypermap-proxy", "0xp")]);
    match ContractAddresses::from_config(&config, &d, "0x") {
        Err(e) => assert_eq!(e, "Missing 'hypermap-impl' in config and deployed contracts"),
        Ok(_) => panic!(),
    }
    assert_eq!(
        resolve_address(&config, &ContractMap::new(), "hypermap-proxy"),
        Err("Missing 'hypermap-proxy' in config and deployed contracts".to_string())
    );
}

#[test]
fn bytecode_artifacts() {
    assert_eq!(load_deployed_bytecode(r#"{"deployedBytecode":{"object":"0x60"}}"#), "0x60");
    assert_eq!(load_deployed_bytecode(r#"{"deployedBytecode":"0x61"}"#), "0x61");
    assert_eq!(load_deployed_bytecode("  0x62\n"), "0x62");
    assert_eq!(load_creation_bytecode("a.json", r#"{"bytecode":{"object":"0x70"}}"#), Ok("0x70".to_string()));
    assert_eq!(
        load_creation_bytecode("a.json", "   "),
        Err("Could not find creation bytecode in a.json".to_string())
    );
}

#[test]
fn deployment_and_transactions() {
    let d = deployed(&[("t", "0xabc")]);
    assert_eq!(deployment_bytecode("0x6080".to_string(), &vec![], &d).ok().unwrap(), "0x6080");
    let r = deployment_bytecode("0x6080".to_string(), &vec![arg("uint", "1")], &d).ok().unwrap();
    assert_eq!(r, format!("0x6080{}1", &ZEROS_64[..63]));
    assert_eq!(transaction_target(&"#t".to_string(), &d), Ok("0xabc".to_string()));
    assert_eq!(
        transaction_target(&"#u".to_string(), &d),
        Err("Reference to unknown contract in transaction target: #u".to_string())
    );
    let tx = TransactionConfig { name: None, target: "0x1".to_string(), function_signature: None, args: vec![], data: None };
    match transaction_data(&tx, &d) {
        Err(e) => {
            assert!(matches!(e, TxDataError::NoData(_)));
            assert_eq!(e.message(), "Transaction 'unnamed' must have either 'data' or 'function_signature'");
        }
        Ok(_) => panic!(),
    }
    let tx = TransactionConfig { data: Some("0xdead".to_string()), ..tx };
    assert_eq!(transaction_data(&tx, &d).ok().unwrap(), "0xdead");
}

#[test]
fn configured_code_and_storage() {
    let mut c = contract(Some("x"), Some("0x1"));
    c.bytecode = Some("0x60".to_string());
    match code_placement(&c) {
        Some((a, CodeSource::Inline(b))) => assert_eq!((a.as_str(), b.as_str()), ("0x1", "0x60")),
        _ => panic!(),
    }
    c.contract_json_path = Some("x.json".to_string());
    assert!(code_placement(&c).is_none());
    let pre = preregistered(&ChainConfig { contracts: vec![contract(Some("x"), Some("0x1")), contract(None, Some("0x2"))], transactions: vec![] });
    assert_eq!(pre.get("x"), Some("0x1".to_string()));
    assert_eq!(pre.entries().len(), 1);
    let d = deployed(&[("t", "0xabc")]);
    let w = storage_writes(&vec![("1".to_string(), StorageValue::String("#t".to_string()))], &d).ok().unwrap();
    assert_eq!(w, vec![(format!("0x{}1", &ZEROS_64[..63]), format!("0x{}abc", &ZEROS_64[..61]))]);
    assert_eq!(
        storage_writes(&vec![("1".to_string(), StorageValue::String("#u".to_string()))], &d),
        Err("Reference to unknown contract: #u".to_string())
    );
}

#[test]
fn chain_small_decisions() {
    let none: Option<ChainConfig> = None;
    match active_config(&none, &none) {
        Err(e) => assert_eq!(e, "No config file found. Please provide ./Contracts.toml or specify a custom config path"),
        Ok(_) => panic!(),
    }
    assert_eq!(anvil_args(8545, true), vec!["--port", "8545", "--tracing"]);
    assert_eq!(anvil_args(1, false), vec!["--port", "1"]);
    assert!(anvil_ready(&Some("0x1a".to_string())));
    assert!(!anvil_ready(&Some("1a".to_string())));
    assert!(!has_code(&Some("0x".to_string())));
    assert!(!has_code(&None));
    assert!(has_code(&Some("0x60".to_string())));
    assert_eq!(nonce_param(255), "0xff");
    assert_eq!(nonce_param(0), "0x0");
}

#[test]
fn chain_start_steps() {
    let (s, a) = start_step(StartState::Begin, StartEvent::ConfigsRead { has_default: false, has_custom: false });
    assert!(matches!(s, StartState::Finished) && matches!(a, StartAction::FailNoConfig));
    let (s, a) = start_step(StartState::Begin, StartEvent::ConfigsRead { has_default: true, has_custom: false });
    assert!(matches!(s, StartState::Probing) && matches!(a, StartAction::Probe));
    // an anvil already running: set up, nothing handed back
    let (s, a) = start_step(s, StartEvent::Probed { running: true });
    assert!(matches!(s, StartState::Deploying { spawned: false }) && matches!(a, StartAction::Deploy));
    let (s, a) = start_step(s, StartEvent::Deployed { ok: true });
    assert!(matches!(s, StartState::Loading { spawned: false }) && matches!(a, StartAction::LoadAddresses));
    let (s, a) = start_step(s, StartEvent::AddressesLoaded { ok: true });
    assert!(matches!(a, StartAction::CheckTba));
    let (_, a) = start_step(s, StartEvent::TbaChecked { ok: true, has_code: true });
    assert!(matches!(a, StartAction::Done { with_child: false }));
    // a started anvil
    let (s, a) = start_step(StartState::Probing, StartEvent::Probed { running: false });
    assert!(matches!(s, StartState::Starting) && matches!(a, StartAction::SpawnAnvil));
    let (s, a) = start_step(s, StartEvent::AnvilReady { ok: true });
    assert!(matches!(s, StartState::Deploying { spawned: true }) && matches!(a, StartAction::Deploy));
    let (_, a) = start_step(s, StartEvent::Deployed { ok: false });
    assert!(matches!(a, StartAction::KillAndFail));
    let (_, a) = start_step(StartState::Loading { spawned: true }, StartEvent::AddressesLoaded { ok: false });
    assert!(matches!(a, StartAction::Fail));
    let (_, a) = start_step(StartState::Checking { spawned: true }, StartEvent::TbaChecked { ok: false, has_code: false });
    assert!(matches!(a, StartAction::Fail));
    let (s, a) = start_step(StartState::Checking { spawned: true }, StartEvent::TbaChecked { ok: true, has_code: false });
    assert!(matches!(a, StartAction::Configure));
    let (_, a) = start_step(StartState::Configuring { spawned: true }, StartEvent::Configured { ok: false });
    assert!(matches!(a, StartAction::KillAndFail));
    let (s, a) = start_step(s, StartEvent::Configured { ok: true });
    assert!(matches!(s, StartState::Verifying) && matches!(a, StartAction::Verify));
    let (_, a) = start_step(StartState::Verifying, StartEvent::Verified { ok: false });
    assert!(matches!(a, StartAction::KillAndFail));
    let (_, a) = start_step(s, StartEvent::Verified { ok: true });
    assert!(matches!(a, StartAction::Done { with_child: true }));
    let (_, a) = start_step(StartState::Configuring { spawned: false }, StartEvent::Configured { ok: false });
    assert!(matches!(a, StartAction::Fail));
    let (_, a) = start_step(StartState::Finished, StartEvent::Verified { ok: true });
    assert!(matches!(a, StartAction::Ignore));
}

#[test]
fn deployment_steps() {
    let with_artifact = |name: Option<&str>| ContractConfig { contract_json_path: Some("a.json".to_string()), ..contract(name, None) };
    let cs = vec![contract(Some("pre"), Some("0x01")), with_artifact(Some("a")), with_artifact(None), with_artifact(Some("c"))];
    let idle = DeployState { phase: DeployPhase::Idle, index: 0, nonce: 0, polls: 0 };
    let (s, a) = deploy_step(&cs, idle, DeployEvent::Started { nonce: 7 });
    assert!(matches!(a, DeployAction::Send { index: 1, nonce: 7 }));
    let (s, a) = deploy_step(&cs, s, DeployEvent::Sent { ok: true });
    assert!(matches!(a, DeployAction::Poll));
    let (s, a) = deploy_step(&cs, s, DeployEvent::Polled { found: true });
    assert!(matches!(a, DeployAction::Record { index: 1 }));
    let (s, a) = deploy_step(&cs, s, DeployEvent::Recorded);
    assert!(matches!(a, DeployAction::Send { index: 2, nonce: 8 }));
    // a rejected transaction still uses its nonce
    let (s, a) = deploy_step(&cs, s, DeployEvent::Sent { ok: false });
    assert!(matches!(a, DeployAction::Send { index: 3, nonce: 9 }));
    let (mut s, a) = deploy_step(&cs, s, DeployEvent::Sent { ok: true });
    assert!(matches!(a, DeployAction::Poll));
    // the receipt is asked for ten times, then the contract is left
    for _ in 0..9 {
        let (next, a) = deploy_step(&cs, s, DeployEvent::Polled { found: false });
        assert!(matches!(a, DeployAction::Poll));
        s = next;
    }
    let (s, a) = deploy_step(&cs, s, DeployEvent::Polled { found: false });
    assert!(matches!(a, DeployAction::Finished));
    assert!(matches!(s.phase, DeployPhase::Done));
    // an unnamed contract's address is not recorded
    let at2 = DeployState { phase: DeployPhase::Polling, index: 2, nonce: 8, polls: 0 };
    let (_, a) = deploy_step(&cs, at2, DeployEvent::Polled { found: true });
    assert!(matches!(a, DeployAction::Send { index: 3, nonce: 9 }));
}
