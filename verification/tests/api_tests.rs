use proxmox_api::dispatch;
use proxmox_api::extract_arguments;
use proxmox_api::handle_enum;
use proxmox_api::handle_method;
use proxmox_api::ApiConfig;
use proxmox_api::ApiHandler;
use proxmox_api::ApiMethod;
use proxmox_api::Arg;
use proxmox_api::DeclValue;
use proxmox_api::DispatchError;
use proxmox_api::EnumDecl;
use proxmox_api::FnDecl;
use proxmox_api::HttpMethod;
use proxmox_api::Identifier;
use proxmox_api::NewOrder;
use proxmox_api::Order;
use proxmox_api::OrderData;
use proxmox_api::ParamDecl;
use proxmox_api::ParamTy;
use proxmox_api::PathTy;
use proxmox_api::RenameRule;
use proxmox_api::Request;
use proxmox_api::Route;
use proxmox_api::Router;
use proxmox_api::RpcEnvironment;
use proxmox_api::RpcEnvironmentType;
use proxmox_api::SchemaRegistry;
use proxmox_api::SpecError;
use proxmox_api::Status;
use proxmox_api::Value;
use proxmox_api::VariantDecl;

fn entry(key: &str, value: DeclValue) -> (String, DeclValue) {
    (key.to_string(), value)
}

fn plain_path(segments: &[&str]) -> ParamTy {
    ParamTy::Path(PathTy {
        qualified: false,
        segments: segments.iter().map(|s| s.to_string()).collect(),
    })
}

fn api_method_ty() -> ParamTy {
    ParamTy::Ref(Box::new(plain_path(&["ApiMethod"])))
}

fn rpc_env_ty() -> ParamTy {
    ParamTy::Ref(Box::new(ParamTy::TraitObject(vec![PathTy {
        qualified: false,
        segments: vec!["RpcEnvironment".to_string()],
    }])))
}

fn param(name: &str, ty: ParamTy) -> ParamDecl {
    ParamDecl {
        name: name.to_string(),
        ty,
    }
}

fn username_attribs(optional: bool) -> Vec<(String, DeclValue)> {
    let mut prop = vec![
        entry("type", DeclValue::Str("String".to_string())),
        entry("max_length", DeclValue::Int(3)),
    ];
    if optional {
        prop.push(entry("optional", DeclValue::Bool(true)));
    }
    vec![entry(
        "input",
        DeclValue::Mapping(vec![
            entry("type", DeclValue::Str("Object".to_string())),
            entry(
                "properties",
                DeclValue::Mapping(vec![entry("username", DeclValue::Mapping(prop))]),
            ),
        ]),
    )]
}

fn handler_decl(params: Vec<ParamDecl>) -> FnDecl {
    FnDecl {
        name: "f".to_string(),
        is_async: false,
        takes_self: false,
        params,
        doc_lines: vec!["Handle a request.".to_string()],
    }
}

fn compile_username_method(optional: bool, with_extra: bool) -> ApiMethod {
    let mut reg = SchemaRegistry::new();
    reg.publish();
    let mut params = vec![param("username", plain_path(&["String"]))];
    if with_extra {
        params.push(param("method", api_method_ty()));
        params.push(param("env", rpc_env_ty()));
        params.push(param("extra", plain_path(&["Value"])));
    }
    handle_method(&username_attribs(optional), &handler_decl(params), &reg).expect("compile")
}

fn bag(entries: Vec<(&str, Value)>) -> Value {
    Value::Object(
        entries
            .into_iter()
            .map(|(k, v)| (k.to_string(), v))
            .collect(),
    )
}

#[test]
fn conforming_bag_binds_named_and_catch_all() {
    let method = compile_username_method(false, true);
    let args = extract_arguments(
        &method,
        bag(vec![
            ("username", Value::Str("x".to_string())),
            ("other", Value::Int(1)),
        ]),
    )
    .expect("extraction");
    assert_eq!(args.len(), 4);
    assert_eq!(args[0], Arg::Bound(Value::Str("x".to_string())));
    assert_eq!(args[1], Arg::Method);
    assert_eq!(args[2], Arg::Environment);
    assert_eq!(
        args[3],
        Arg::Bound(Value::Object(vec![("other".to_string(), Value::Int(1))]))
    );
}

#[test]
fn missing_required_key_names_it() {
    let method = compile_username_method(false, true);
    assert_eq!(
        extract_arguments(&method, bag(vec![("other", Value::Int(1))])),
        Err(DispatchError::MissingParameter("username".to_string()))
    );
}

#[test]
fn missing_optional_key_binds_absent() {
    let method = compile_username_method(true, false);
    let args = extract_arguments(&method, bag(vec![])).expect("extraction");
    assert_eq!(args, vec![Arg::Absent]);
}

#[test]
fn overlong_value_is_a_validation_failure() {
    let method = compile_username_method(false, false);
    let ok = extract_arguments(&method, bag(vec![("username", Value::Str("bob".to_string()))]))
        .expect("extraction");
    assert_eq!(ok, vec![Arg::Bound(Value::Str("bob".to_string()))]);
    assert_eq!(
        extract_arguments(
            &method,
            bag(vec![("username", Value::Str("robert".to_string()))])
        ),
        Err(DispatchError::InvalidParameter("username".to_string()))
    );
}

#[test]
fn non_object_bag_is_rejected() {
    let method = compile_username_method(false, false);
    assert_eq!(
        extract_arguments(&method, Value::Str("not a bag".to_string())),
        Err(DispatchError::NonObject)
    );
}

struct EchoHandler;

impl ApiHandler for EchoHandler {
    fn call(
        &self,
        args: Vec<Arg>,
        _method: &ApiMethod,
        _env: &mut RpcEnvironment,
    ) -> Result<Value, String> {
        match args.into_iter().next() {
            Some(Arg::Bound(v)) => Ok(v),
            _ => Err("no bound argument".to_string()),
        }
    }
}

struct FailingHandler;

impl ApiHandler for FailingHandler {
    fn call(
        &self,
        _args: Vec<Arg>,
        _method: &ApiMethod,
        _env: &mut RpcEnvironment,
    ) -> Result<Value, String> {
        Err("handler exploded".to_string())
    }
}

fn fresh_env() -> RpcEnvironment {
    RpcEnvironment {
        env_type: RpcEnvironmentType::Public,
        result_attributes: Vec::new(),
    }
}

#[test]
fn dispatch_without_return_schema_discards_output() {
    let method = compile_username_method(false, false);
    let mut env = fresh_env();
    let result = dispatch(
        &method,
        &EchoHandler,
        bag(vec![("username", Value::Str("bob".to_string()))]),
        &mut env,
    );
    assert_eq!(result, Ok(Value::Null));
}

#[test]
fn dispatch_passes_handler_errors_through() {
    let method = compile_username_method(false, false);
    let mut env = fresh_env();
    let result = dispatch(
        &method,
        &FailingHandler,
        bag(vec![("username", Value::Str("bob".to_string()))]),
        &mut env,
    );
    assert_eq!(
        result,
        Err(DispatchError::Handler("handler exploded".to_string()))
    );
}

#[test]
fn two_environment_parameters_are_rejected() {
    let mut reg = SchemaRegistry::new();
    reg.publish();
    let func = handler_decl(vec![
        param("username", plain_path(&["String"])),
        param("env", rpc_env_ty()),
        param("env2", rpc_env_ty()),
    ]);
    assert_eq!(
        handle_method(&username_attribs(false), &func, &reg),
        Err(SpecError::MultipleRpcEnvParams("env2".to_string()))
    );
}

#[test]
fn two_method_or_value_parameters_are_rejected() {
    let mut reg = SchemaRegistry::new();
    reg.publish();
    let func = handler_decl(vec![
        param("m1", api_method_ty()),
        param("m2", api_method_ty()),
    ]);
    assert_eq!(
        handle_method(&username_attribs(false), &func, &reg),
        Err(SpecError::MultipleApiMethodParams("m2".to_string()))
    );
    let func = handler_decl(vec![
        param("v1", plain_path(&["serde_json", "Value"])),
        param("v2", plain_path(&["Value"])),
    ]);
    assert_eq!(
        handle_method(&username_attribs(false), &func, &reg),
        Err(SpecError::MultipleValueParams("v2".to_string()))
    );
}

#[test]
fn unexpected_receiver_and_async_are_rejected() {
    let mut reg = SchemaRegistry::new();
    reg.publish();
    let mut func = handler_decl(vec![param("mystery", plain_path(&["Instant"]))]);
    assert_eq!(
        handle_method(&username_attribs(false), &func, &reg),
        Err(SpecError::UnexpectedParameter("mystery".to_string()))
    );
    func = handler_decl(vec![]);
    func.is_async = true;
    assert_eq!(
        handle_method(&username_attribs(false), &func, &reg),
        Err(SpecError::AsyncHandler)
    );
    func = handler_decl(vec![]);
    func.takes_self = true;
    assert_eq!(
        handle_method(&username_attribs(false), &func, &reg),
        Err(SpecError::ReceiverParameter)
    );
}

#[test]
fn missing_input_section_is_rejected() {
    let mut reg = SchemaRegistry::new();
    reg.publish();
    let attribs = vec![entry("protected", DeclValue::Bool(true))];
    assert_eq!(
        handle_method(&attribs, &handler_decl(vec![]), &reg),
        Err(SpecError::MissingInput)
    );
}

#[test]
fn protected_flag_is_compiled() {
    let mut reg = SchemaRegistry::new();
    reg.publish();
    let mut attribs = username_attribs(false);
    attribs.push(entry("protected", DeclValue::Bool(true)));
    let method = handle_method(
        &attribs,
        &handler_decl(vec![param("username", plain_path(&["String"]))]),
        &reg,
    )
    .expect("compile");
    assert!(method.protected);
    let method = compile_username_method(false, false);
    assert!(!method.protected);
}

#[test]
fn method_description_is_derived_from_documentation() {
    let mut reg = SchemaRegistry::new();
    reg.publish();
    let func = FnDecl {
        name: "f".to_string(),
        is_async: false,
        takes_self: false,
        params: vec![param("username", plain_path(&["String"]))],
        doc_lines: vec![" Create a ticket. ".to_string()],
    };
    let method = handle_method(&username_attribs(false), &func, &reg).expect("compile");
    assert_eq!(
        method.input_schema.description,
        Some("Create a ticket.".to_string())
    );
}

fn variant(ident: &str, doc: &str, is_default: bool) -> VariantDecl {
    VariantDecl {
        ident: ident.to_string(),
        doc: doc.to_string(),
        rename: None,
        is_default,
        has_fields: false,
    }
}

fn enum_decl(variants: Vec<VariantDecl>, derives_default: bool) -> EnumDecl {
    EnumDecl {
        name: "E".to_string(),
        doc: "An enumeration.".to_string(),
        rename_all: Some(RenameRule::LowerCase),
        derives_default,
        variants,
    }
}

#[test]
fn enum_schema_preserves_declaration_order_and_default() {
    let decl = enum_decl(
        vec![variant("A", "first", false), variant("B", "second", true)],
        true,
    );
    let (schema, warnings) = handle_enum(&Vec::new(), &decl).expect("derive");
    assert!(warnings.is_empty());
    let pairs: Vec<(&str, &str)> = schema
        .values
        .iter()
        .map(|e| (e.value.as_str(), e.description.as_str()))
        .collect();
    assert_eq!(pairs, vec![("a", "first"), ("b", "second")]);
    assert_eq!(schema.default, Some("b".to_string()));
}

#[test]
fn two_default_markers_are_rejected_naming_both() {
    let decl = enum_decl(
        vec![variant("A", "first", true), variant("B", "second", true)],
        true,
    );
    assert_eq!(
        handle_enum(&Vec::new(), &decl),
        Err(SpecError::MultipleDefaults("A".to_string(), "B".to_string()))
    );
}

#[test]
fn default_marker_beside_default_key_is_rejected() {
    let decl = enum_decl(vec![variant("A", "first", true)], true);
    let attribs = vec![entry("default", DeclValue::Str("a".to_string()))];
    assert_eq!(
        handle_enum(&attribs, &decl),
        Err(SpecError::DefaultMarkerWithKey("A".to_string()))
    );
}

#[test]
fn non_unit_variant_is_rejected() {
    let mut v = variant("A", "first", false);
    v.has_fields = true;
    let decl = enum_decl(vec![v], false);
    assert_eq!(
        handle_enum(&Vec::new(), &decl),
        Err(SpecError::NonUnitVariant("A".to_string()))
    );
}

#[test]
fn format_key_on_an_enum_is_rejected() {
    let decl = enum_decl(vec![variant("A", "first", false)], false);
    let attribs = vec![entry("format", DeclValue::Str("custom".to_string()))];
    assert_eq!(
        handle_enum(&attribs, &decl),
        Err(SpecError::UnknownKey("format".to_string()))
    );
}

#[test]
fn missing_variant_documentation_draws_a_warning() {
    let decl = enum_decl(vec![variant("A", "", false)], false);
    let (schema, warnings) = handle_enum(&Vec::new(), &decl).expect("derive");
    assert_eq!(schema.values[0].description, "<missing description>");
    assert_eq!(warnings, vec!["A".to_string()]);
}

#[test]
fn order_data_collects_domains() {
    let data = OrderData::new()
        .domain("example.com".to_string())
        .domain("www.example.com".to_string());
    assert_eq!(data.identifiers.len(), 2);
    assert_eq!(
        data.identifiers[0],
        Identifier::Dns("example.com".to_string())
    );
    assert!(data.status.is_new());
}

#[test]
fn order_authorizations_by_index() {
    let mut data = OrderData::new();
    data.authorizations.push("https://auth/0".to_string());
    let order = Order {
        location: "https://orders/1".to_string(),
        data,
    };
    assert_eq!(order.authorization_len(), 1);
    assert_eq!(order.authorization(0).map(|s| s.as_str()), Some("https://auth/0"));
    assert!(order.authorization(1).is_none());
}

#[test]
fn status_helpers() {
    assert!(Status::Pending.is_pending());
    assert!(!Status::Valid.is_pending());
    assert!(Status::Valid.is_valid());
    assert_eq!(Status::default(), Status::New);
    let order = NewOrder::new(Request {
        url: "https://acme/new-order".to_string(),
        method: "POST".to_string(),
        content_type: "application/jose+json".to_string(),
        body: "{}".to_string(),
        expected: 201,
    });
    assert!(order.request.is_some());
}

fn empty_router() -> Router {
    Router { routes: Vec::new() }
}

#[test]
fn config_alias_resolution() {
    let mut config = ApiConfig::new(
        "/base".to_string(),
        empty_router(),
        RpcEnvironmentType::Public,
    );
    config.add_alias("css".to_string(), "styles".to_string());

    let components = vec!["css".to_string(), "app.css".to_string()];
    assert_eq!(config.find_alias(&components), "/base/styles/app.css");

    let components = vec!["js".to_string(), "app.js".to_string()];
    assert_eq!(config.find_alias(&components), "/base/js/app.js");

    assert_eq!(config.find_alias(&Vec::new()), "/base");

    config.add_alias("css".to_string(), "newstyles".to_string());
    let components = vec!["css".to_string()];
    assert_eq!(config.find_alias(&components), "/base/newstyles");

    assert_eq!(config.env_type(), RpcEnvironmentType::Public);
}

#[test]
fn config_method_lookup() {
    let method = compile_username_method(false, false);
    let router = Router {
        routes: vec![Route {
            method: HttpMethod::Post,
            path: vec!["access".to_string(), "ticket".to_string()],
            api: method,
        }],
    };
    let config = ApiConfig::new("/base".to_string(), router, RpcEnvironmentType::Privileged);
    let path = vec!["access".to_string(), "ticket".to_string()];
    assert!(config.find_method(&path, HttpMethod::Post).is_some());
    assert!(config.find_method(&path, HttpMethod::Get).is_none());
    let other = vec!["access".to_string()];
    assert!(config.find_method(&other, HttpMethod::Post).is_none());
}

#[test]
fn nodename_has_no_dot() {
    if let Some(name) = proxmox_api::nodename() {
        assert!(!name.contains('.'));
    }
    assert_eq!(proxmox_api::short_hostname("host.example.com"), "host");
    assert_eq!(proxmox_api::short_hostname("plain"), "plain");
}

#[test]
fn rename_rules() {
    assert_eq!(
        proxmox_api::apply_rename(RenameRule::KebabCase, &"S3Refresh".to_string()),
        "s3-refresh"
    );
    assert_eq!(
        proxmox_api::apply_rename(RenameRule::SnakeCase, &"ReadOnly".to_string()),
        "read_only"
    );
    assert_eq!(
        proxmox_api::apply_rename(RenameRule::LowerCase, &"Offline".to_string()),
        "offline"
    );
}

struct TicketHandler;

impl ApiHandler for TicketHandler {
    fn call(
        &self,
        _args: Vec<Arg>,
        _method: &ApiMethod,
        _env: &mut RpcEnvironment,
    ) -> Result<Value, String> {
        Ok(Value::Str("ticket-123".to_string()))
    }
}

#[test]
fn dispatch_with_return_schema_keeps_output() {
    let mut reg = SchemaRegistry::new();
    reg.publish();
    let mut attribs = username_attribs(false);
    attribs.push(entry(
        "returns",
        DeclValue::Mapping(vec![
            entry("type", DeclValue::Str("String".to_string())),
            entry("description", DeclValue::Str("the ticket".to_string())),
        ]),
    ));
    let method = handle_method(
        &attribs,
        &handler_decl(vec![param("username", plain_path(&["String"]))]),
        &reg,
    )
    .expect("compile");
    assert!(method.return_schema.is_some());
    let mut env = fresh_env();
    let result = dispatch(
        &method,
        &TicketHandler,
        bag(vec![("username", Value::Str("bob".to_string()))]),
        &mut env,
    );
    assert_eq!(result, Ok(Value::Str("ticket-123".to_string())));
}

#[test]
fn return_description_is_derived_from_documentation() {
    let mut reg = SchemaRegistry::new();
    reg.publish();
    let mut attribs = username_attribs(false);
    attribs.push(entry(
        "returns",
        DeclValue::Mapping(vec![entry("type", DeclValue::Str("String".to_string()))]),
    ));
    let func = FnDecl {
        name: "f".to_string(),
        is_async: false,
        takes_self: false,
        params: vec![param("username", plain_path(&["String"]))],
        doc_lines: vec![
            "Create a ticket.".to_string(),
            "Returns: the signed ticket".to_string(),
        ],
    };
    let method = handle_method(&attribs, &func, &reg).expect("compile");
    match method.return_schema.expect("return schema") {
        proxmox_api::Schema::String(ss) => {
            assert_eq!(ss.description, Some("the signed ticket".to_string()));
        },
        other => panic!("expected a string schema, got {:?}", other),
    }
}
