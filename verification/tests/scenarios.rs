use roblox_std::api::{
    ApiClass, ApiDataType, ApiDump, ApiEnum, ApiEnumItem, ApiMember, ApiPropertySecurity,
    ApiValueType,
};
use roblox_std::generate::RobloxGenerator;
use roblox_std::standard_library::{
    Argument, ArgumentType, Deprecated, Field, FieldKind, FunctionBehavior, Observes,
    PropertyWritability, Required, StandardLibrary,
};
use roblox_std::table::Table;

fn strings(values: &[&str]) -> Vec<String> {
    values.iter().map(|value| value.to_string()).collect()
}

fn class(name: &str, superclass: &str, tags: &[&str], members: Vec<ApiMember>) -> ApiClass {
    ApiClass {
        name: name.to_string(),
        superclass: superclass.to_string(),
        tags: strings(tags),
        members,
    }
}

fn property(name: &str, tags: &[&str], value_type: ApiValueType) -> ApiMember {
    ApiMember::Property {
        name: name.to_string(),
        tags: Some(strings(tags)),
        security: ApiPropertySecurity::default(),
        value_type,
    }
}

fn dump(classes: Vec<ApiClass>) -> ApiDump {
    ApiDump { classes, enums: Vec::new() }
}

fn generator() -> RobloxGenerator {
    RobloxGenerator::new(StandardLibrary::new(), false)
}

fn constant_argument(values: &[&str]) -> Vec<Argument> {
    vec![Argument {
        required: Required::Required(None),
        argument_type: ArgumentType::Constant(strings(values)),
        observes: Observes::ReadWrite,
        deprecated: None,
    }]
}

#[test]
fn creatable_filter() {
    let api = dump(vec![
        class("Part", "<<<ROOT>>>", &[], vec![]),
        class("Terrain", "<<<ROOT>>>", &["NotCreatable"], vec![]),
    ]);
    let mut generator = generator();
    generator.write_instance_new(&api);
    assert_eq!(
        generator.std.globals.get("Instance.new"),
        Some(&Field {
            field_kind: FieldKind::Function(FunctionBehavior {
                arguments: constant_argument(&["Part"]),
                method: false,
                must_use: true,
            }),
            deprecated: None,
        })
    );
}

#[test]
fn service_filter() {
    let api = dump(vec![
        class("Workspace", "<<<ROOT>>>", &["Service"], vec![]),
        class("Part", "<<<ROOT>>>", &[], vec![]),
    ]);
    let mut generator = generator();
    let mut data_model: Table<Field> = Table::new();
    data_model.insert(
        "GetService".to_string(),
        Field {
            field_kind: FieldKind::Any,
            deprecated: Some(Deprecated { message: "old".to_string(), replace: vec![] }),
        },
    );
    generator.std.structs.insert("DataModel".to_string(), data_model);
    assert_eq!(generator.write_get_service(&api), Ok(()));
    let data_model = generator.std.structs.get("DataModel").unwrap();
    assert_eq!(data_model.len(), 1);
    assert_eq!(
        data_model.get("GetService"),
        Some(&Field {
            field_kind: FieldKind::Function(FunctionBehavior {
                arguments: constant_argument(&["Workspace"]),
                method: true,
                must_use: true,
            }),
            deprecated: None,
        })
    );
}

#[test]
fn deprecated_property() {
    let api = dump(vec![class(
        "Foo",
        "<<<ROOT>>>",
        &[],
        vec![property("Bar", &["Deprecated"], ApiValueType::Other)],
    )]);
    let mut generator = generator();
    assert_eq!(generator.write_class_struct(&api, "Foo"), Ok(()));
    let field = generator.std.structs.get("Foo").unwrap().get("Bar").unwrap();
    let notice = field.deprecated.as_ref().unwrap();
    assert_eq!(notice.message, "this property is deprecated.");
    assert_eq!(notice.replace, Vec::<String>::new());
    assert_eq!(field.field_kind, FieldKind::Property(PropertyWritability::OverrideFields));
}

#[test]
fn read_only_property() {
    let api = dump(vec![class(
        "Foo",
        "<<<ROOT>>>",
        &[],
        vec![property("Bar", &["ReadOnly"], ApiValueType::Other)],
    )]);
    let mut generator = generator();
    assert_eq!(generator.write_class_struct(&api, "Foo"), Ok(()));
    assert_eq!(
        generator.std.structs.get("Foo").unwrap().get("Bar"),
        Some(&Field {
            field_kind: FieldKind::Property(PropertyWritability::ReadOnly),
            deprecated: None,
        })
    );
}

#[test]
fn inherited_property() {
    let api = dump(vec![
        class("Parent", "<<<ROOT>>>", &[], vec![property("P", &[], ApiValueType::Other)]),
        class("Child", "Parent", &[], vec![]),
    ]);
    let mut generator = generator();
    assert_eq!(generator.write_class_struct(&api, "Child"), Ok(()));
    let child = generator.std.structs.get("Child").unwrap();
    assert_eq!(
        child.get("P"),
        Some(&Field {
            field_kind: FieldKind::Property(PropertyWritability::OverrideFields),
            deprecated: None,
        })
    );
    assert_eq!(child.len(), 2);
    assert!(!generator.std.structs.contains_key("Parent"));

    let mut parent = RobloxGenerator::new(StandardLibrary::new(), false);
    assert_eq!(parent.write_class_struct(&api, "Parent"), Ok(()));
    assert_eq!(parent.std.structs.get("Parent").unwrap().get("P"), child.get("P"));
}

#[test]
fn data_type_with_custom_methods() {
    let api = dump(vec![class(
        "Foo",
        "<<<ROOT>>>",
        &[],
        vec![
            property(
                "Position",
                &["ReadOnly"],
                ApiValueType::DataType { value: ApiDataType::Other("Vector3".to_string()) },
            ),
            property(
                "Image",
                &["ReadOnly"],
                ApiValueType::DataType { value: ApiDataType::Content },
            ),
        ],
    )]);
    assert!(ApiDataType::Other("Vector3".to_string()).has_custom_methods());
    assert!(!ApiDataType::Content.has_custom_methods());
    let mut generator = generator();
    assert_eq!(generator.write_class_struct(&api, "Foo"), Ok(()));
    let foo = generator.std.structs.get("Foo").unwrap();
    assert_eq!(foo.get("Position"), Some(&Field { field_kind: FieldKind::Any, deprecated: None }));
    assert_eq!(
        foo.get("Image"),
        Some(&Field {
            field_kind: FieldKind::Property(PropertyWritability::ReadOnly),
            deprecated: None,
        })
    );
}

#[test]
fn enum_globals() {
    let api = ApiDump {
        classes: Vec::new(),
        enums: vec![ApiEnum {
            name: "Style".to_string(),
            items: vec![
                ApiEnumItem { name: "A".to_string() },
                ApiEnumItem { name: "B".to_string() },
            ],
        }],
    };
    let mut generator = generator();
    generator.write_enums(&api);
    let globals = &generator.std.globals;
    assert_eq!(globals.len(), 3);
    assert_eq!(
        globals.get("Enum.Style.GetEnumItems"),
        Some(&Field {
            field_kind: FieldKind::Function(FunctionBehavior {
                arguments: vec![],
                method: true,
                must_use: true,
            }),
            deprecated: None,
        })
    );
    let item = Field { field_kind: FieldKind::Struct("EnumItem".to_string()), deprecated: None };
    assert_eq!(globals.get("Enum.Style.A"), Some(&item));
    assert_eq!(globals.get("Enum.Style.B"), Some(&item));
}
