use proxmox_api::maintenance_message_schema;
use proxmox_api::maintenance_mode_schema;
use proxmox_api::maintenance_type_schema;
use proxmox_api::parse_schema;
use proxmox_api::split_doc_comment;
use proxmox_api::trim;
use proxmox_api::validate;
use proxmox_api::DeclValue;
use proxmox_api::EnumEntry;
use proxmox_api::EnumSchema;
use proxmox_api::MaintenanceError;
use proxmox_api::MaintenanceMode;
use proxmox_api::MaintenanceType;
use proxmox_api::Operation;
use proxmox_api::Schema;
use proxmox_api::SchemaRegistry;
use proxmox_api::SpecError;
use proxmox_api::Value;

fn published_registry() -> SchemaRegistry {
    let mut reg = SchemaRegistry::new();
    reg.publish();
    reg
}

fn entry(key: &str, value: DeclValue) -> (String, DeclValue) {
    (key.to_string(), value)
}

fn username_object_decl(max_length: i64) -> Vec<(String, DeclValue)> {
    vec![
        entry("type", DeclValue::Str("Object".to_string())),
        entry(
            "properties",
            DeclValue::Mapping(vec![entry(
                "username",
                DeclValue::Mapping(vec![
                    entry("type", DeclValue::Str("String".to_string())),
                    entry("max_length", DeclValue::Int(max_length)),
                ]),
            )]),
        ),
    ]
}

#[test]
fn string_length_bounds_are_validated() {
    let reg = published_registry();
    let schema = parse_schema(&username_object_decl(3), false, &reg).expect("schema");
    let ok_bag = Value::Object(vec![("username".to_string(), Value::Str("bob".to_string()))]);
    let long_bag = Value::Object(vec![(
        "username".to_string(),
        Value::Str("robert".to_string()),
    )]);
    assert!(validate(&schema, &ok_bag));
    assert!(!validate(&schema, &long_bag));
}

#[test]
fn unknown_key_is_rejected_naming_it() {
    let reg = published_registry();
    let decl = vec![
        entry("type", DeclValue::Str("String".to_string())),
        entry("formt", DeclValue::Str("whatever".to_string())),
    ];
    assert_eq!(
        parse_schema(&decl, false, &reg),
        Err(SpecError::UnknownKey("formt".to_string()))
    );
}

#[test]
fn nested_unknown_key_is_rejected() {
    let reg = published_registry();
    let decl = vec![entry(
        "properties",
        DeclValue::Mapping(vec![entry(
            "username",
            DeclValue::Mapping(vec![entry("max_legnth", DeclValue::Int(3))]),
        )]),
    )];
    assert_eq!(
        parse_schema(&decl, false, &reg),
        Err(SpecError::UnknownKey("max_legnth".to_string()))
    );
}

#[test]
fn schema_reference_resolves_from_registry() {
    let mut reg = SchemaRegistry::new();
    let message = maintenance_message_schema();
    reg.register("MaintenanceMessage".to_string(), message)
        .expect("register");
    reg.publish();
    let decl = vec![entry(
        "schema",
        DeclValue::SchemaRef("MaintenanceMessage".to_string()),
    )];
    let schema = parse_schema(&decl, false, &reg).expect("schema");
    match schema {
        Schema::String(ss) => assert_eq!(ss.max_length, Some(64)),
        other => panic!("expected a string schema, got {:?}", other),
    }
}

#[test]
fn unknown_schema_reference_is_rejected() {
    let reg = published_registry();
    let decl = vec![entry("schema", DeclValue::SchemaRef("Missing".to_string()))];
    assert_eq!(
        parse_schema(&decl, false, &reg),
        Err(SpecError::UnknownSchemaRef("Missing".to_string()))
    );
}

#[test]
fn duplicate_registration_is_rejected() {
    let mut reg = SchemaRegistry::new();
    reg.register("M".to_string(), maintenance_message_schema())
        .expect("first registration");
    assert_eq!(
        reg.register("M".to_string(), maintenance_message_schema()),
        Err(SpecError::DuplicateSchemaName("M".to_string()))
    );
}

#[test]
fn enum_default_must_name_a_value() {
    let schema = EnumSchema::new(
        "modes".to_string(),
        vec![
            EnumEntry {
                value: "on".to_string(),
                description: "enabled".to_string(),
            },
            EnumEntry {
                value: "off".to_string(),
                description: "disabled".to_string(),
            },
        ],
    );
    assert_eq!(
        schema.set_default("midway".to_string()),
        Err(SpecError::DefaultNotInValues("midway".to_string()))
    );
}

#[test]
fn enum_default_must_be_unambiguous() {
    let schema = EnumSchema::new(
        "modes".to_string(),
        vec![
            EnumEntry {
                value: "on".to_string(),
                description: "enabled".to_string(),
            },
            EnumEntry {
                value: "on".to_string(),
                description: "also enabled".to_string(),
            },
        ],
    );
    assert_eq!(
        schema.set_default("on".to_string()),
        Err(SpecError::DuplicateDefaultValue("on".to_string()))
    );
}

#[test]
fn enum_text_conversion_round_trips() {
    let (schema, warnings) = maintenance_type_schema().expect("derived schema");
    assert!(warnings.is_empty());
    let names: Vec<&str> = (0..5).map(|i| schema.encode_index(i).as_str()).collect();
    assert_eq!(
        names,
        vec!["read-only", "offline", "delete", "unmount", "s3-refresh"]
    );
    for i in 0..5 {
        let name = schema.encode_index(i).clone();
        assert_eq!(schema.decode_name(&name), Some(i));
    }
    assert_eq!(schema.decode_name(&"off".to_string()), None);
}

#[test]
fn maintenance_mode_schema_shape() {
    let (ty, _) = maintenance_type_schema().expect("derived schema");
    let schema = maintenance_mode_schema(Schema::Enum(ty));
    match schema {
        Schema::Object(os) => {
            assert_eq!(os.default_key, Some("type".to_string()));
            assert_eq!(os.properties.len(), 2);
            assert_eq!(os.properties[0].name, "type");
            assert!(!os.properties[0].optional);
            assert_eq!(os.properties[1].name, "message");
            assert!(os.properties[1].optional);
        },
        other => panic!("expected an object schema, got {:?}", other),
    }
}

#[test]
fn maintenance_check_refuses_by_mode() {
    let deleting = MaintenanceMode {
        ty: MaintenanceType::Delete,
        message: None,
    };
    assert_eq!(
        deleting.check(Some(Operation::Lookup)),
        Err(MaintenanceError::DatastoreDeleted)
    );

    let read_only = MaintenanceMode {
        ty: MaintenanceType::ReadOnly,
        message: Some("why%20not".to_string()),
    };
    assert_eq!(read_only.check(Some(Operation::Lookup)), Ok(()));
    assert_eq!(read_only.check(Some(Operation::Read)), Ok(()));
    assert_eq!(
        read_only.check(Some(Operation::Write)),
        Err(MaintenanceError::ReadOnly("why not".to_string()))
    );

    let offline = MaintenanceMode {
        ty: MaintenanceType::Offline,
        message: None,
    };
    assert_eq!(
        offline.check(None),
        Err(MaintenanceError::Offline(String::new()))
    );
    assert_eq!(offline.check(Some(Operation::Lookup)), Ok(()));

    let unmounting = MaintenanceMode {
        ty: MaintenanceType::Unmount,
        message: None,
    };
    assert_eq!(unmounting.check(None), Err(MaintenanceError::Unmounting));
}

#[test]
fn clear_from_cache_by_type() {
    for (ty, expected) in [
        (MaintenanceType::ReadOnly, false),
        (MaintenanceType::Offline, true),
        (MaintenanceType::Delete, true),
        (MaintenanceType::Unmount, true),
        (MaintenanceType::S3Refresh, false),
    ] {
        let mode = MaintenanceMode { ty, message: None };
        assert_eq!(mode.clear_from_cache(), expected);
    }
}

#[test]
fn doc_comment_splits_once_on_marker() {
    let lines = vec![
        "Create or verify authentication ticket.".to_string(),
        "".to_string(),
        "Returns: a ticket".to_string(),
        "with details".to_string(),
    ];
    let parts = split_doc_comment(&lines).expect("split");
    assert_eq!(parts.description, "Create or verify authentication ticket.");
    assert_eq!(parts.returns_description.as_deref(), Some("a ticket\nwith details"));

    let no_marker = vec!["  Just a description.  ".to_string()];
    let parts = split_doc_comment(&no_marker).expect("split");
    assert_eq!(parts.description, "Just a description.");
    assert_eq!(parts.returns_description, None);
}

#[test]
fn multiple_returns_markers_are_rejected() {
    let lines = vec![
        "Description".to_string(),
        "Returns: one".to_string(),
        "Returns: two".to_string(),
    ];
    assert_eq!(
        split_doc_comment(&lines),
        Err(SpecError::MultipleReturnsSections)
    );
}

#[test]
fn trim_strips_both_ends() {
    assert_eq!(trim("  \t hello world \n"), "hello world");
    assert_eq!(trim(""), "");
    assert_eq!(trim(" \t\n"), "");
    assert_eq!(trim("x"), "x");
}

#[test]
fn validate_covers_all_variants() {
    let reg = published_registry();
    let int_decl = vec![
        entry("type", DeclValue::Str("Integer".to_string())),
        entry("minimum", DeclValue::Int(1)),
        entry("maximum", DeclValue::Int(10)),
    ];
    let int_schema = parse_schema(&int_decl, false, &reg).expect("schema");
    assert!(validate(&int_schema, &Value::Int(5)));
    assert!(!validate(&int_schema, &Value::Int(0)));
    assert!(!validate(&int_schema, &Value::Str("5".to_string())));

    let bool_decl = vec![entry("type", DeclValue::Str("Boolean".to_string()))];
    let bool_schema = parse_schema(&bool_decl, false, &reg).expect("schema");
    assert!(validate(&bool_schema, &Value::Bool(true)));
    assert!(!validate(&bool_schema, &Value::Null));
}

#[test]
fn default_key_admits_a_bare_scalar() {
    let (ty, _) = maintenance_type_schema().expect("derived schema");
    let schema = maintenance_mode_schema(Schema::Enum(ty));
    match &schema {
        Schema::Object(os) => {
            let coerced = proxmox_api::apply_default_key(os, Value::Str("offline".to_string()))
                .expect("coerced");
            assert_eq!(
                coerced,
                Value::Object(vec![(
                    "type".to_string(),
                    Value::Str("offline".to_string())
                )])
            );
            assert!(validate(&schema, &coerced));

            let plain = ObjectBare::default();
            let refused = proxmox_api::apply_default_key(&plain.0, Value::Str("x".to_string()));
            assert!(refused.is_err());
        },
        other => panic!("expected an object schema, got {:?}", other),
    }
}

struct ObjectBare(proxmox_api::ObjectSchema);

impl Default for ObjectBare {
    fn default() -> Self {
        ObjectBare(proxmox_api::ObjectSchema::new("bare".to_string(), Vec::new()))
    }
}
