use kit::caller_utils::{create_typescript_caller_utils, try_create_typescript_caller_utils, CallerUtilsError, WitSource};

fn source(stem: &str, display: &str, content: &str) -> WitSource {
    WitSource { stem: stem.to_string(), display: display.to_string(), content: content.to_string() }
}

#[test]
fn test_enum_generation() {
    let wit_content = r#"
interface test {
    enum test-enum {
        option-one,
        option-two,
        option-three
    }

    record test-data {
        value: test-enum
    }

    // Function signature for: test-func (http)
    // HTTP: POST /api/test-func
    record test-func-signature-http {
        target: string,
        request: test-data,
        returning: result<string, string>
    }
}
"#;
    let sources = vec![source("test", "api/test.wit", wit_content)];
    let result = create_typescript_caller_utils(&sources);
    assert!(result.is_ok(), "Failed to generate TypeScript");
    let ts_content = result.ok().unwrap().expect("a file is generated");

    assert!(ts_content.contains("export enum TestEnum"), "Enum not found in generated TypeScript");
    assert!(ts_content.contains("OptionOne = \"option-one\""), "Enum case OptionOne not found");
    assert!(ts_content.contains("OptionTwo = \"option-two\""), "Enum case OptionTwo not found");
    assert!(ts_content.contains("OptionThree = \"option-three\""), "Enum case OptionThree not found");
    assert!(ts_content.contains("export interface TestData"), "Interface not found");
    assert!(ts_content.contains("value: TestEnum"), "Enum reference in interface not found");
}

#[test]
fn caller_utils_full_namespace_text() {
    let wit = "interface demo {\n    record item {\n        name: string,\n        count: u32\n    }\n\n    // HTTP: GET /api/items\n    record get-items-signature-http {\n        target: string,\n        filter: option<string>,\n        returning: result<list<item>, string>\n    }\n}\n";
    let sources = vec![source("demo", "api/demo.wit", wit)];
    let ts = create_typescript_caller_utils(&sources).ok().unwrap().unwrap();
    assert!(ts.starts_with("// Define a custom error type for API errors\n"));
    assert!(ts.contains("\n// ============= Demo Hyperapp =============\nexport namespace Demo {\n"));
    assert!(ts.contains("  export interface Item {\n    name: string;\n    count: number;\n  }\n\n"));
    assert!(ts.contains("  export interface GetItemsRequestWrapper {\n    GetItems: string | null\n  }\n\n"));
    assert!(ts.contains("  export type GetItemsResponse = { Ok: Item[] } | { Err: string };\n\n"));
    assert!(ts.contains("  export async function get_items(filter: string | null): Promise<Item[]> {\n"));
    assert!(ts.contains("    return await apiRequest<GetItemsRequestWrapper, Item[]>('/api/items', 'GET', data);\n"));
    assert!(ts.ends_with("}\n\n"));
}

#[test]
fn caller_utils_without_http_endpoints_writes_nothing() {
    let wit = "interface demo {\n    record ping-signature-remote {\n        target: address,\n        returning: string\n    }\n}\n";
    let sources = vec![source("demo", "api/demo.wit", wit)];
    let r = create_typescript_caller_utils(&sources);
    assert!(matches!(r, Ok(None)));
}

#[test]
fn caller_utils_skips_world_files() {
    let world = "world demo-sys-v0 {\n    import demo;\n    include process-v1;\n}";
    let sources = vec![source("demo-sys-v0", "api/demo-sys-v0.wit", world)];
    assert!(matches!(create_typescript_caller_utils(&sources), Ok(None)));
}

#[test]
fn caller_utils_reserved_suffix_is_an_error() {
    let wit = "interface demo {\n    record get-request {\n        id: u64\n    }\n}\n";
    let sources = vec![source("demo", "api/demo.wit", wit)];
    match create_typescript_caller_utils(&sources) {
        Err(e) => {
            assert!(matches!(e, CallerUtilsError::ReservedSuffix { .. }));
            assert_eq!(
                e.message(),
                "Type 'get-request' in api/demo.wit has a reserved suffix (Request/Response). These suffixes are reserved for generated wrapper types. Please rename the type in the WIT file."
            );
        }
        _ => panic!("expected a reserved suffix error"),
    }
}

#[test]
fn caller_utils_reserved_wrapper_suffix_is_an_error() {
    let wit = "interface demo {\n    variant thing-response-wrapper {\n        a\n    }\n}\n";
    let sources = vec![source("demo", "api/demo.wit", wit)];
    match create_typescript_caller_utils(&sources) {
        Err(e) => assert!(matches!(e, CallerUtilsError::ReservedWrapperSuffix { .. })),
        _ => panic!("expected a reserved wrapper suffix error"),
    }
}

#[test]
fn caller_utils_groups_types_files_with_their_app() {
    let api = "interface spider {\n    // HTTP: POST /api/crawl\n    record crawl-signature-http {\n        target: string,\n        url: string,\n        returning: bool\n    }\n}\n";
    let types = "interface types-spider {\n    record page {\n        url: string\n    }\n}\n";
    let sources = vec![
        source("spider-sys-v0", "api/spider-sys-v0.wit", api),
        source("types-spider-sys-v0", "api/types-spider-sys-v0.wit", types),
    ];
    let ts = create_typescript_caller_utils(&sources).ok().unwrap().unwrap();
    assert_eq!(ts.matches("export namespace Spider {").count(), 1);
    assert!(ts.contains("export interface Page"));
}

#[test]
fn caller_utils_reports_panicking_input() {
    let wit = "interface demo {\n    variant v {\n        a) x (,\n    }\n}\n";
    let sources = vec![source("demo", "api/demo.wit", wit)];
    assert!(try_create_typescript_caller_utils(&sources).is_none());
}
