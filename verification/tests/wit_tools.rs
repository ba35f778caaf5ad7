use kit::naming::{is_wit_keyword, strip_wit_escape, to_kebab_case, to_pascal_case, to_snake_case, to_wit_ident};
use kit::rust_model::{FnInput, GenericArg, ImplMember, NamedField, TypeSegment, RustAttr, RustFields, RustItem, RustMethod, RustType};
use kit::sorting::sort_strings;
use kit::ts_types::{extract_result_ok_type, ts_convertible, wit_type_to_typescript};
use kit::wit_gen::{
    collect_type_definitions_from_source, extract_http_info, extract_wit_world, generate_signature_struct,
    process_rust_project, process_rust_sources, ProjectError, TypeDefs,
};
use kit::wit_types::{
    check_and_strip_leading_underscore, is_wit_primitive_or_builtin, remove_state_suffix, rust_type_to_wit,
    validate_name, TypeError,
};
use kit::wit_world::{generate_wit_file, import_statement, plan_world_files, read_world_file};

fn c(s: &str) -> Vec<char> {
    s.chars().collect()
}

fn s(v: &[char]) -> String {
    v.iter().collect()
}

fn path_ty(ident: &str, args: Option<Vec<RustType>>) -> RustType {
    RustType::Path {
        last: Some(TypeSegment {
            ident: ident.to_string(),
            args: args.map(|v| v.into_iter().map(|ty| GenericArg::Type { ty }).collect()),
        }),
        debug: format!("Path({ident})"),
    }
}

fn attr(ident: &str, debug: &str) -> RustAttr {
    RustAttr { ident: Some(ident.to_string()), debug: debug.to_string() }
}

fn typed(name: &str, ty: RustType) -> FnInput {
    FnInput::Typed { ident: Some(name.to_string()), ty }
}

#[test]
fn naming_conventions() {
    assert_eq!(to_snake_case("%my-func-name"), "my_func_name");
    assert_eq!(to_pascal_case("get-x-value"), "GetXValue");
    assert_eq!(to_pascal_case("%list--items"), "ListItems");
    assert_eq!(to_kebab_case("MyHTMLParser"), "my-html-parser");
    assert_eq!(to_kebab_case("snake_case_name"), "snake-case-name");
    assert_eq!(to_kebab_case("simple"), "simple");
    assert!(is_wit_keyword(&c("record")));
    assert!(!is_wit_keyword(&c("recorder")));
    assert_eq!(s(&to_wit_ident(&c("list"))), "%list");
    assert_eq!(s(&to_wit_ident(&c("items"))), "items");
    assert_eq!(s(&strip_wit_escape(&c("%enum"))), "enum");
}

#[test]
fn name_rules() {
    assert!(validate_name(&c("Item"), "Type").is_ok());
    match validate_name(&c("Item2"), "Type") {
        Err(e) => assert_eq!(e.message(), "Error: Type name 'Item2' contains numbers, which is not allowed"),
        Ok(_) => panic!(),
    }
    match validate_name(&c("UpStream"), "Field") {
        Err(e) => assert_eq!(e.message(), "Error: Field name 'UpStream' contains 'stream', which is not allowed"),
        Ok(_) => panic!(),
    }
    assert_eq!(s(&check_and_strip_leading_underscore(c("_unused"))), "unused");
    assert_eq!(s(&check_and_strip_leading_underscore(c("used"))), "used");
    assert_eq!(s(&remove_state_suffix(&c("MyAppState"))), "MyApp");
    assert_eq!(s(&remove_state_suffix(&c("State"))), "");
    assert!(is_wit_primitive_or_builtin(&c("list<foo>")));
    assert!(is_wit_primitive_or_builtin(&c("address")));
    assert!(!is_wit_primitive_or_builtin(&c("my-type")));
}

#[test]
fn rust_types_in_wit() {
    let mut used: Vec<Vec<char>> = vec![];
    let t = path_ty("Vec", Some(vec![path_ty("Option", Some(vec![path_ty("MyItem", None)]))]));
    assert_eq!(s(&rust_type_to_wit(&t, &mut used).ok().unwrap()), "list<option<my-item>>");
    assert_eq!(used.iter().map(|u| s(u)).collect::<Vec<_>>(), vec!["my-item"]);
    let r = path_ty("Result", Some(vec![RustType::Tuple { elems: vec![] }, path_ty("String", None)]));
    assert_eq!(s(&rust_type_to_wit(&r, &mut used).ok().unwrap()), "result<_, string>");
    let r = path_ty("Result", Some(vec![path_ty("u64", None), RustType::Tuple { elems: vec![] }]));
    assert_eq!(s(&rust_type_to_wit(&r, &mut used).ok().unwrap()), "result<u64>");
    let tup = RustType::Tuple { elems: vec![path_ty("i32", None), path_ty("bool", None)] };
    assert_eq!(s(&rust_type_to_wit(&tup, &mut used).ok().unwrap()), "tuple<s32, bool>");
    let bad = path_ty("Result", Some(vec![path_ty("u8", None)]));
    match rust_type_to_wit(&bad, &mut used) {
        Err(e) => assert_eq!(e.message(), "Result requires exactly two type arguments (e.g., Result<T, E>), found 1"),
        Ok(_) => panic!(),
    }
    match rust_type_to_wit(&path_ty("Vec", None), &mut used) {
        Err(e) => {
            assert!(matches!(e, TypeError::VecArgs));
            assert_eq!(e.message(), "Failed to parse Vec inner type!");
        }
        Ok(_) => panic!(),
    }
    match rust_type_to_wit(&RustType::Unsupported { debug: "Slice".to_string() }, &mut used) {
        Err(e) => assert_eq!(e.message(), "Failed to parse type: Slice"),
        Ok(_) => panic!(),
    }
}

#[test]
fn typescript_types() {
    for (wit, ts) in [
        ("u32", "number"),
        ("list<u8>", "number[]"),
        ("list<my-item>", "MyItem[]"),
        ("option<string>", "string | null"),
        ("result<string, my-error>", "{ Ok: string } | { Err: MyError }"),
        ("tuple<u8, bool>", "[number, boolean]"),
        ("_", "void"),
        ("address", "string"),
    ] {
        assert!(ts_convertible(&c(wit)), "{wit}");
        assert_eq!(s(&wit_type_to_typescript(&c(wit))), ts);
    }
    assert_eq!(extract_result_ok_type(&c("result<list<u64>, string>")).map(|v| s(&v)), Some("number[]".to_string()));
    assert_eq!(extract_result_ok_type(&c("string")), None);
}

#[test]
fn hyperprocess_attributes() {
    let attrs = vec![
        attr("derive", "Attribute { derive }"),
        attr("hyperprocess", "Attribute { ... Ident(wit_world) ... Lit { lit: \"my-world-v0\" } }"),
    ];
    assert_eq!(extract_wit_world(&attrs).map(|v| s(&v)), Some("my-world-v0".to_string()));
    assert_eq!(extract_wit_world(&vec![attr("hyperprocess", "no world here")]), None);
    assert_eq!(extract_http_info(&vec![attr("remote", "")]), None);
}

#[test]
fn signature_records() {
    let method = RustMethod {
        ident: "get_item".to_string(),
        attrs: vec![attr("remote", "")],
        inputs: vec![FnInput::Receiver, typed("_item_id", path_ty("u64", None))],
        output: Some(path_ty("ItemRecord", None)),
    };
    let mut used: Vec<Vec<char>> = vec![];
    let r = generate_signature_struct(&c("get-item"), "remote", &method, &mut used).ok().unwrap();
    assert_eq!(
        s(&r),
        "    // Function signature for: get-item (remote)\n    record get-item-signature-remote {\n        target: address,\n        item-id: u64,\n        returning: item-record\n    }"
    );
    let http = RustMethod { attrs: vec![attr("http", "")], ..method };
    let r = generate_signature_struct(&c("get-item"), "http", &http, &mut used).ok().unwrap();
    assert!(s(&r).starts_with("    // Function signature for: get-item (http)\n    // HTTP: POST /api/get-item\n    record get-item-signature-http {\n        target: string,"));
    let unit = RustMethod { ident: "ping".to_string(), attrs: vec![attr("local", "")], inputs: vec![FnInput::Receiver], output: Some(RustType::Tuple { elems: vec![] }) };
    match generate_signature_struct(&c("ping"), "local", &unit, &mut used) {
        Err(e) => {
            assert!(matches!(e, ProjectError::UnitReturn { .. }));
            assert_eq!(
                e.message("p"),
                "Function 'ping' returns '()', which is not directly supported in WIT signatures. Consider returning a Result<(), YourErrorType> or another meaningful type."
            );
        }
        Ok(_) => panic!(),
    }
}

fn lib_items(methods: Vec<RustMethod>) -> Vec<RustItem> {
    vec![RustItem::Impl {
        attrs: vec![attr("hyperprocess", "Attribute { wit_world = Lit { lit: \"todo-world-v0\" } }")],
        self_ty: path_ty("TodoAppState", None),
        self_debug: "TodoAppState".to_string(),
        members: methods.into_iter().map(|method| ImplMember::Method { method }).collect(),
    }]
}

fn item_struct() -> RustItem {
    RustItem::Struct {
        ident: "TodoItem".to_string(),
        fields: RustFields::Named {
            fields: vec![
                NamedField { ident: Some("text".to_string()), ty: path_ty("String", None) },
                NamedField { ident: Some("done".to_string()), ty: path_ty("bool", None) },
            ],
        },
    }
}

#[test]
fn rust_project_to_wit_interface() {
    let methods = vec![
        RustMethod { ident: "init".to_string(), attrs: vec![attr("init", "")], inputs: vec![FnInput::Receiver], output: None },
        RustMethod {
            ident: "get_items".to_string(),
            attrs: vec![attr("remote", "")],
            inputs: vec![FnInput::Receiver],
            output: Some(path_ty("Vec", Some(vec![path_ty("TodoItem", None)]))),
        },
    ];
    let files = vec![vec![item_struct()]];
    let out = process_rust_project(&lib_items(methods), &files).ok().unwrap().unwrap();
    assert_eq!(s(&out.interface), "todo-app");
    assert_eq!(s(&out.world), "todo-world-v0");
    let content = s(&out.content.unwrap());
    assert!(content.starts_with("interface todo-app {\nuse standard.{address};\n\n"), "{content}");
    assert!(content.contains("record todo-item {\n        text: string,\n        done: bool\n    }"), "{content}");
    assert!(content.contains("    record get-items-signature-remote {\n        target: address,\n        returning: list<todo-item>\n    }"), "{content}");
    assert!(content.ends_with("}\n"));
}

#[test]
fn definitions_come_before_uses() {
    let methods = vec![RustMethod {
        ident: "get_list".to_string(),
        attrs: vec![attr("remote", "")],
        inputs: vec![FnInput::Receiver],
        output: Some(path_ty("TodoList", None)),
    }];
    let list = RustItem::Struct {
        ident: "TodoList".to_string(),
        fields: RustFields::Named {
            fields: vec![NamedField {
                ident: Some("items".to_string()),
                ty: path_ty("Vec", Some(vec![path_ty("TodoItem", None)])),
            }],
        },
    };
    let files = vec![vec![list, item_struct()]];
    let out = process_rust_project(&lib_items(methods), &files).ok().unwrap().unwrap();
    let content = s(&out.content.unwrap());
    let item_at = content.find("record todo-item {").unwrap();
    let list_at = content.find("record todo-list {").unwrap();
    assert!(item_at < list_at, "{content}");
}

#[test]
fn rust_project_errors() {
    let bad = vec![RustMethod { ident: "helper".to_string(), attrs: vec![], inputs: vec![FnInput::Receiver], output: None }];
    match process_rust_project(&lib_items(bad), &vec![]) {
        Err(e) => assert!(e.message("p").starts_with("Method 'helper' in the #[hyperprocess] impl block is missing a required attribute")),
        Ok(_) => panic!(),
    }
    let undefined = vec![RustMethod {
        ident: "get".to_string(),
        attrs: vec![attr("local", "")],
        inputs: vec![FnInput::Receiver],
        output: Some(path_ty("Missing", None)),
    }];
    match process_rust_project(&lib_items(undefined), &vec![]) {
        Err(e) => assert!(e.message("proj").contains("in project 'proj'") && e.message("proj").contains("[\"missing\"]")),
        Ok(_) => panic!(),
    }
    assert!(matches!(process_rust_project(&vec![RustItem::Other], &vec![]), Ok(None)));
}

#[test]
fn world_files() {
    let (name, imports, includes) = read_world_file(&c("world my-app-v0 {\n    import foo;\n    include process-v1;\n}\n"));
    assert_eq!(name.map(|v| s(&v)), Some("my-app-v0".to_string()));
    assert_eq!(imports.iter().map(|v| s(v)).collect::<Vec<_>>(), vec!["import foo;"]);
    assert_eq!(includes.iter().map(|v| s(v)).collect::<Vec<_>>(), vec!["include process-v1;"]);
    let mut inc: Vec<Vec<char>> = vec![];
    let text = generate_wit_file(&c("my-app-v0"), &vec![c("    import bar;")], &vec![c("import foo;")], &mut inc);
    assert_eq!(s(&text), "world my-app-v0 {\n    import foo;\n    import bar;\n    include process-v1;\n}");
    let mut inc: Vec<Vec<char>> = vec![];
    let text = generate_wit_file(&c("types-my-app-v0"), &vec![], &vec![], &mut inc);
    assert_eq!(s(&text), "world types-my-app-v0 {\n\n    include lib;\n}");
    assert_eq!(s(&import_statement(&c("list"))), "    import %list;");
    let plan = plan_world_files(&vec![], &vec![c("    import a;")], &vec![c("w-v0")]).ok().unwrap();
    assert!(plan.rewrites.is_empty());
    assert_eq!(plan.creates.iter().map(|p| s(&p.0)).collect::<Vec<_>>(), vec!["w-v0", "types-w-v0"]);
    let plan = plan_world_files(&vec![c("world old-v0 {\n}\n")], &vec![c("    import a;")], &vec![]).ok().unwrap();
    match plan_world_files(&vec![c("world w {\n}\n")], &vec![c("    import a;")], &vec![]) {
        Err(name) => assert_eq!(s(&name), "w"),
        Ok(_) => panic!(),
    }
    assert_eq!(plan.creates.iter().map(|p| s(&p.0)).collect::<Vec<_>>(), vec!["async-app-template-dot-os-v0"]);
}

#[test]
fn sorted_names() {
    let mut v = vec![c("b"), c("a"), c("ab"), c("B")];
    v = sort_strings(&v);
    assert_eq!(v.iter().map(|x| s(x)).collect::<Vec<_>>(), vec!["B", "a", "ab", "b"]);
}

use kit::wit_parse::{parse_wit_content, read_wit, wit_content_parses};

#[test]
fn wit_file_reading() {
    let wit = "interface shop {\n    type price = u64;\n\n    record %item {\n        name: string,\n        cost: price\n    }\n\n    enum color {\n        dark-red,\n        blue\n    }\n\n    variant event {\n        opened(string),\n        closed\n    }\n\n    // HTTP: post /api/buy\n    record buy-signature-http {\n        target: string,\n        item: item,\n        returning: result<u64, string>\n    }\n}\n";
    assert!(wit_content_parses(wit));
    let t = parse_wit_content(wit);
    assert_eq!(t.aliases.iter().map(|(a, b)| (s(a), s(b))).collect::<Vec<_>>(), vec![("price".to_string(), "u64".to_string())]);
    assert_eq!(t.records.len(), 1);
    assert_eq!(s(&t.records[0].name), "item");
    assert_eq!(t.records[0].fields.iter().map(|f| (s(&f.name), s(&f.wit_type))).collect::<Vec<_>>(), vec![("name".to_string(), "string".to_string()), ("cost".to_string(), "price".to_string())]);
    assert_eq!(t.enums.len(), 1);
    assert_eq!(t.enums[0].cases.iter().map(|c| s(c)).collect::<Vec<_>>(), vec!["dark-red", "blue"]);
    assert_eq!(t.variants.len(), 1);
    assert_eq!(t.variants[0].cases.iter().map(|c| (s(&c.name), c.data_type.as_ref().map(|d| s(d)))).collect::<Vec<_>>(), vec![("opened".to_string(), Some("string".to_string())), ("closed".to_string(), None)]);
    assert_eq!(t.signatures.len(), 1);
    let sig = &t.signatures[0];
    assert_eq!((s(&sig.function_name), s(&sig.attr_type)), ("buy".to_string(), "http".to_string()));
    assert_eq!(sig.http_method.as_ref().map(|m| s(m)), Some("POST".to_string()));
    assert_eq!(sig.http_path.as_ref().map(|m| s(m)), Some("/api/buy".to_string()));
    assert_eq!(sig.fields.len(), 3);
    assert!(read_wit(&c(wit)).is_some());
}

use kit::ts_emit::{generate_typescript_enum, generate_typescript_function, generate_typescript_interface, generate_typescript_variant, parse_inline_record_fields};
use kit::wit_parse::{SignatureField, SignatureStruct, WitEnum, WitRecord, WitVariant, WitVariantCase};

fn field(name: &str, t: &str) -> SignatureField {
    SignatureField { name: c(name), wit_type: c(t) }
}

#[test]
fn typescript_declarations() {
    let rec = WitRecord { name: c("user-info"), fields: vec![field("user-name", "string"), field("tags", "list<string>")] };
    assert_eq!(s(&generate_typescript_interface(&rec)), "export interface UserInfo {\n  user_name: string;\n  tags: string[];\n}");
    let en = WitEnum { name: c("mode"), cases: vec![c("fast-mode"), c("slow")] };
    assert_eq!(s(&generate_typescript_enum(&en)), "export enum Mode {\n  FastMode = \"fast-mode\",\n  Slow = \"slow\",\n}");
    let plain = WitVariant { name: c("state"), cases: vec![WitVariantCase { name: c("on"), data_type: None }, WitVariantCase { name: c("off"), data_type: None }] };
    assert_eq!(s(&generate_typescript_variant(&plain)), "export type State = \"On\" | \"Off\";");
    let tagged = WitVariant {
        name: c("shape"),
        cases: vec![
            WitVariantCase { name: c("circle"), data_type: Some(c("u32")) },
            WitVariantCase { name: c("point"), data_type: None },
        ],
    };
    assert_eq!(s(&generate_typescript_variant(&tagged)), "export type Shape = { Circle: number } | { Point: null };");
    assert_eq!(s(&parse_inline_record_fields(&c("{ x: u32, %type: string }"))), "{ x: number, type: string }");
}

#[test]
fn typescript_functions() {
    let sig = SignatureStruct {
        function_name: c("get-user"),
        attr_type: c("http"),
        fields: vec![field("target", "string"), field("user-id", "u64"), field("returning", "result<user-info, string>")],
        http_method: Some(c("GET")),
        http_path: Some(c("/api/user")),
    };
    let (request, response, function) = generate_typescript_function(&sig);
    assert_eq!(s(&request), "export interface GetUserRequestWrapper {\n  GetUser: number\n}");
    assert_eq!(s(&response), "export type GetUserResponse = { Ok: UserInfo } | { Err: string };");
    assert_eq!(
        s(&function),
        "/**\n * get_user\n * @param user_id: number * @returns Promise with result\n * @throws ApiError if the request fails\n */\nexport async function get_user(user_id: number): Promise<UserInfo> {\n  const data: GetUserRequestWrapper = {\n    GetUser: user_id,\n  };\n\n  return await apiRequest<GetUserRequestWrapper, UserInfo>('/api/user', 'GET', data);\n}"
    );
    let remote = SignatureStruct { attr_type: c("remote"), ..sig };
    let (a, b, f) = generate_typescript_function(&remote);
    assert!(a.is_empty() && b.is_empty() && f.is_empty());
}

const TODO_LIB: &str = r#"
use hyperware_process_lib::hyperprocess;

#[derive(Default)]
pub struct TodoAppState {
    items: Vec<TodoItem>,
}

#[hyperprocess(name = "Todo", wit_world = "todo-world-v0")]
impl TodoAppState {
    #[init]
    async fn initialize(&mut self) {}

    #[remote]
    fn get_items(&self) -> Vec<TodoItem> {
        self.items.clone()
    }
}
"#;

const TODO_TYPES: &str = r#"
pub struct TodoItem {
    pub text: String,
    pub done: bool,
}
"#;

#[test]
fn rust_sources_to_wit_interface() {
    let files = vec![TODO_LIB.to_string(), TODO_TYPES.to_string(), "fn broken(".to_string()];
    let out = process_rust_sources(TODO_LIB, &files).ok().unwrap().unwrap();
    assert_eq!(s(&out.interface), "todo-app");
    assert_eq!(s(&out.world), "todo-world-v0");
    let content = s(&out.content.unwrap());
    assert!(content.contains("record todo-item {\n        text: string,\n        done: bool\n    }"), "{content}");
    assert!(content.contains("    record get-items-signature-remote {\n        target: address,\n        returning: list<todo-item>\n    }"), "{content}");
}

#[test]
fn unparsable_lib_source() {
    match process_rust_sources("impl {", &vec![]) {
        Err(e) => {
            assert!(matches!(e, ProjectError::LibUnparsable));
            assert_eq!(e.message("proj"), "Failed to parse lib.rs for project: proj");
        }
        Ok(_) => panic!(),
    }
}

#[test]
fn type_definitions_from_source() {
    let mut defs = TypeDefs::new();
    assert!(!collect_type_definitions_from_source("struct {", &mut defs));
    assert!(collect_type_definitions_from_source(TODO_TYPES, &mut defs));
    let mut again = TypeDefs::new();
    assert!(collect_type_definitions_from_source("pub enum Mode { Fast, Slow(u8) }", &mut again));
}

#[test]
fn field_names_round_trip() {
    for f in ["node_id", "type", "items", "use_count"] {
        let kebab = to_kebab_case(f);
        let ident: String = to_wit_ident(&c(&kebab)).into_iter().collect();
        assert_eq!(to_snake_case(&ident), f);
    }
    assert_eq!(s(&to_wit_ident(&c(&to_kebab_case("type")))), "%type");
}

#[test]
fn unit_return_records_only_parameter_types() {
    let method = RustMethod {
        ident: "ping".to_string(),
        attrs: vec![attr("local", "")],
        inputs: vec![FnInput::Receiver, typed("item", path_ty("TodoItem", None))],
        output: Some(RustType::Tuple { elems: vec![] }),
    };
    let mut used: Vec<Vec<char>> = vec![];
    assert!(generate_signature_struct(&c("ping"), "local", &method, &mut used).is_err());
    assert_eq!(used.iter().map(|u| s(u)).collect::<Vec<_>>(), vec!["todo-item".to_string()]);
    let mut used2: Vec<Vec<char>> = vec![];
    let bad = RustType::Path {
        last: Some(TypeSegment {
            ident: "Result".to_string(),
            args: Some(vec![
                GenericArg::Type { ty: path_ty("TodoItem", None) },
                GenericArg::Type { ty: RustType::Unsupported { debug: "fn()".to_string() } },
            ]),
        }),
        debug: "Result<TodoItem, fn()>".to_string(),
    };
    assert!(rust_type_to_wit(&bad, &mut used2).is_err());
    assert_eq!(used2.iter().map(|u| s(u)).collect::<Vec<_>>(), vec!["todo-item".to_string()]);
    let twice = RustType::Tuple { elems: vec![path_ty("TodoItem", None), path_ty("TodoItem", None)] };
    let mut used3: Vec<Vec<char>> = vec![];
    assert_eq!(s(&rust_type_to_wit(&twice, &mut used3).ok().unwrap()), "tuple<todo-item, todo-item>");
    assert_eq!(used3.len(), 1);
}
