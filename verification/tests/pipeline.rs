use roblox_std::api::{
    ApiClass, ApiDump, ApiEnum, ApiEnumItem, ApiMember, ApiPropertySecurity, ApiValueType,
};
use roblox_std::classes::class_entry;
use roblox_std::error::GenerateError;
use roblox_std::generate::RobloxGenerator;
use roblox_std::globals::{class_names_by_tag, constant_function_field};
use roblox_std::pipeline::{append_document, header_bytes};
use roblox_std::standard_library::{
    Argument, ArgumentType, Field, FieldKind, FunctionBehavior, Observes, PropertyWritability,
    Required, RobloxClass, StandardLibrary,
};
use roblox_std::table::Table;

fn words(values: &[&str]) -> Vec<String> {
    values.iter().map(|value| value.to_string()).collect()
}

fn tagged_class(name: &str, superclass: &str, tags: &[&str], members: Vec<ApiMember>) -> ApiClass {
    ApiClass {
        name: name.to_string(),
        superclass: superclass.to_string(),
        tags: words(tags),
        members,
    }
}

fn event(name: &str) -> ApiMember {
    ApiMember::Event { name: name.to_string(), tags: None }
}

fn function(name: &str) -> ApiMember {
    ApiMember::Function { name: name.to_string(), tags: None, parameters: vec![] }
}

fn value_property(name: &str) -> ApiMember {
    ApiMember::Property {
        name: name.to_string(),
        tags: None,
        security: ApiPropertySecurity::default(),
        value_type: ApiValueType::Other,
    }
}

fn small_dump() -> ApiDump {
    ApiDump {
        classes: vec![
            tagged_class(
                "Instance",
                "<<<ROOT>>>",
                &["NotCreatable"],
                vec![value_property("Name"), event("Changed")],
            ),
            tagged_class(
                "DataModel",
                "Instance",
                &["NotCreatable", "Service"],
                vec![
                    function("GetService"),
                    ApiMember::Property {
                        name: "Workspace".to_string(),
                        tags: Some(words(&["ReadOnly"])),
                        security: ApiPropertySecurity::default(),
                        value_type: ApiValueType::Class { name: "Workspace".to_string() },
                    },
                ],
            ),
            tagged_class("Plugin", "Instance", &["NotCreatable"], vec![function("Activate")]),
            tagged_class("Script", "Instance", &[], vec![value_property("Source")]),
            tagged_class("Workspace", "Instance", &["Service"], vec![value_property("Gravity")]),
            tagged_class("Part", "Instance", &[], vec![value_property("Size")]),
        ],
        enums: vec![ApiEnum {
            name: "Material".to_string(),
            items: vec![ApiEnumItem { name: "Wood".to_string() }],
        }],
    }
}

fn base() -> StandardLibrary {
    let mut std = StandardLibrary::new();
    std.base = Some("luau".to_string());
    std.name = Some("roblox".to_string());
    std.globals.insert(
        "shared".to_string(),
        Field { field_kind: FieldKind::Any, deprecated: None },
    );
    let mut instance: Table<Field> = Table::new();
    instance.insert(
        "ClassName".to_string(),
        Field { field_kind: FieldKind::Property(PropertyWritability::ReadOnly), deprecated: None },
    );
    std.structs.insert("Instance".to_string(), instance);
    std
}

fn one_of(values: &[&str], method: bool) -> Field {
    Field {
        field_kind: FieldKind::Function(FunctionBehavior {
            arguments: vec![Argument {
                required: Required::Required(None),
                argument_type: ArgumentType::Constant(words(values)),
                observes: Observes::ReadWrite,
                deprecated: None,
            }],
            method,
            must_use: true,
        }),
        deprecated: None,
    }
}

fn struct_field(name: &str) -> Field {
    Field { field_kind: FieldKind::Struct(name.to_string()), deprecated: None }
}

#[test]
fn generation_fills_every_part() {
    let api = small_dump();
    let std = RobloxGenerator::new(base(), true)
        .start_generation(&api, 1_700_000_000, "0.26.1")
        .unwrap();

    assert_eq!(std.base, Some("luau".to_string()));
    assert_eq!(std.name, Some("roblox".to_string()));
    assert_eq!(std.last_updated, Some(1_700_000_000));
    assert_eq!(std.last_selene_version, Some("0.26.1".to_string()));

    assert_eq!(std.globals.len(), 8);
    assert_eq!(std.globals.get("shared"), Some(&Field { field_kind: FieldKind::Any, deprecated: None }));
    assert_eq!(std.globals.get("game"), Some(&struct_field("DataModel")));
    assert_eq!(std.globals.get("plugin"), Some(&struct_field("Plugin")));
    assert_eq!(std.globals.get("script"), Some(&struct_field("Script")));
    assert_eq!(std.globals.get("workspace"), Some(&struct_field("Workspace")));
    assert_eq!(std.globals.get("Enum.Material.Wood"), Some(&struct_field("EnumItem")));
    assert!(std.globals.contains_key("Enum.Material.GetEnumItems"));
    assert_eq!(std.globals.get("Instance.new"), Some(&one_of(&["Script", "Workspace", "Part"], false)));

    assert_eq!(std.structs.len(), 5);
    assert_eq!(std.structs.get("Instance").unwrap().len(), 1);
    assert!(!std.structs.contains_key("Part"));
    let data_model = std.structs.get("DataModel").unwrap();
    assert_eq!(data_model.len(), 5);
    assert_eq!(data_model.get("GetService"), Some(&one_of(&["DataModel", "Workspace"], true)));
    assert_eq!(data_model.get("Workspace"), Some(&struct_field("Workspace")));
    assert_eq!(data_model.get("Changed"), Some(&struct_field("Event")));
    assert_eq!(data_model.get("*"), Some(&struct_field("Instance")));
    assert!(data_model.contains_key("Name"));
    assert_eq!(std.structs.get("Workspace").unwrap().len(), 4);

    assert_eq!(std.roblox_classes.len(), 6);
    assert_eq!(
        std.roblox_classes.get("DataModel"),
        Some(&RobloxClass {
            superclass: "Instance".to_string(),
            events: vec![],
            properties: words(&["Workspace"]),
        })
    );
    assert_eq!(
        std.roblox_classes.get("Instance"),
        Some(&RobloxClass {
            superclass: "<<<ROOT>>>".to_string(),
            events: words(&["Changed"]),
            properties: words(&["Name"]),
        })
    );
}

fn contents(std: &StandardLibrary) -> Vec<(String, String, Field)> {
    let mut all = Vec::new();
    for i in 0..std.globals.len() {
        all.push((String::new(), std.globals.key_at(i).clone(), std.globals.value_at(i).clone()));
    }
    for i in 0..std.structs.len() {
        let members = std.structs.value_at(i);
        for j in 0..members.len() {
            all.push((
                std.structs.key_at(i).clone(),
                members.key_at(j).clone(),
                members.value_at(j).clone(),
            ));
        }
    }
    all.sort_by(|a, b| (&a.0, &a.1).cmp(&(&b.0, &b.1)));
    all
}

#[test]
fn same_dump_gives_same_descriptor() {
    let api = small_dump();
    let first = RobloxGenerator::new(base(), false).start_generation(&api, 1, "v").unwrap();
    let second = RobloxGenerator::new(base(), false).start_generation(&api, 2, "v").unwrap();
    assert_eq!(contents(&first), contents(&second));
    assert_eq!(first.roblox_classes.len(), second.roblox_classes.len());
    for i in 0..first.roblox_classes.len() {
        let name = first.roblox_classes.key_at(i);
        assert_eq!(second.roblox_classes.get(name), Some(first.roblox_classes.value_at(i)));
    }
    assert_eq!(first.last_updated, Some(1));
    assert_eq!(second.last_updated, Some(2));
}

#[test]
fn generation_needs_the_four_classes() {
    let mut api = small_dump();
    api.classes.remove(2);
    assert_eq!(
        RobloxGenerator::new(base(), false).start_generation(&api, 0, "v").err(),
        Some(GenerateError::MissingClass("Plugin".to_string()))
    );
    api.classes.remove(1);
    assert_eq!(
        RobloxGenerator::new(base(), false).start_generation(&api, 0, "v").err(),
        Some(GenerateError::MissingClass("DataModel".to_string()))
    );
}

#[test]
fn generation_needs_get_service() {
    let mut api = small_dump();
    api.classes[1].members.remove(0);
    assert_eq!(
        RobloxGenerator::new(base(), false).start_generation(&api, 0, "v").err(),
        Some(GenerateError::MissingGetService)
    );
}

#[test]
fn strict_generation_stops_at_unknown_member() {
    let mut api = small_dump();
    api.classes[4].members.push(ApiMember::Unknown);
    assert_eq!(
        RobloxGenerator::new(base(), true).start_generation(&api, 0, "v").err(),
        Some(GenerateError::UnknownMember("Workspace".to_string()))
    );
    let lenient = RobloxGenerator::new(base(), false).start_generation(&api, 0, "v").unwrap();
    assert_eq!(lenient.structs.get("Workspace").unwrap().len(), 4);
}

#[test]
fn unknown_member_of_a_class_that_is_not_walked_is_no_fault() {
    let mut api = small_dump();
    api.classes[5].members.push(ApiMember::Unknown);
    assert!(RobloxGenerator::new(base(), true).start_generation(&api, 0, "v").is_ok());
}

#[test]
fn generate_stamps_and_frames() {
    let api = small_dump();
    let (bytes, std) = RobloxGenerator::generate(base(), &api, true, "0.26.1").unwrap();
    let line = String::from_utf8(bytes).unwrap();
    assert!(line.starts_with("# This file was @generated by generate-roblox-std at "));
    assert!(line.ends_with('\n'));
    assert_eq!(line.matches('\n').count(), 1);
    assert!(line.len() > "# This file was @generated by generate-roblox-std at \n".len());
    assert!(std.last_updated.unwrap() > 1_600_000_000);
    assert_eq!(std.last_selene_version, Some("0.26.1".to_string()));
    assert_eq!(std.globals.get("game"), Some(&struct_field("DataModel")));
}

#[test]
fn generate_reports_faults() {
    let api = ApiDump { classes: vec![], enums: vec![] };
    assert_eq!(
        RobloxGenerator::generate(StandardLibrary::new(), &api, false, "v").err(),
        Some(GenerateError::MissingClass("DataModel".to_string()))
    );
}

#[test]
fn header_names_the_time() {
    assert_eq!(
        header_bytes("2023-01-02 03:04:05 +00:00"),
        b"# This file was @generated by generate-roblox-std at 2023-01-02 03:04:05 +00:00\n"
            .to_vec()
    );
    assert_eq!(
        header_bytes(""),
        b"# This file was @generated by generate-roblox-std at \n".to_vec()
    );
}

#[test]
fn document_follows_the_header() {
    let mut bytes = header_bytes("now");
    append_document(&mut bytes, "base: luau\nglobals: {}\n");
    assert_eq!(
        String::from_utf8(bytes).unwrap(),
        "# This file was @generated by generate-roblox-std at now\nbase: luau\nglobals: {}\n"
    );
    let mut empty = Vec::new();
    append_document(&mut empty, "é");
    assert_eq!(empty, vec![0xc3, 0xa9]);
}

#[test]
fn names_by_tag_keep_order_and_repeats() {
    let classes = vec![
        tagged_class("B", "<<<ROOT>>>", &["Service"], vec![]),
        tagged_class("A", "<<<ROOT>>>", &[], vec![]),
        tagged_class("B", "<<<ROOT>>>", &["Other", "Service"], vec![]),
    ];
    assert_eq!(class_names_by_tag(&classes, "Service", true), words(&["B", "B"]));
    assert_eq!(class_names_by_tag(&classes, "Service", false), words(&["A"]));
    assert_eq!(class_names_by_tag(&classes, "NotCreatable", false), words(&["B", "A", "B"]));
    assert_eq!(class_names_by_tag(&classes, "NotCreatable", true), Vec::<String>::new());
    assert_eq!(class_names_by_tag(&Vec::new(), "Service", true), Vec::<String>::new());
}

#[test]
fn constant_function_has_one_required_argument() {
    assert_eq!(constant_function_field(words(&["a", "b"]), true), one_of(&["a", "b"], true));
    assert_eq!(constant_function_field(vec![], false), one_of(&[], false));
}

#[test]
fn get_service_needs_data_model() {
    let api = small_dump();
    let mut generator = RobloxGenerator::new(StandardLibrary::new(), false);
    assert_eq!(generator.write_get_service(&api), Err(GenerateError::MissingDataModel));
    assert_eq!(generator.std.structs.len(), 0);
}

#[test]
fn get_service_needs_the_member() {
    let api = small_dump();
    let mut generator = RobloxGenerator::new(StandardLibrary::new(), false);
    let mut data_model: Table<Field> = Table::new();
    data_model.insert("Name".to_string(), struct_field("x"));
    generator.std.structs.insert("DataModel".to_string(), data_model);
    assert_eq!(generator.write_get_service(&api), Err(GenerateError::MissingGetService));
    assert_eq!(generator.std.structs.len(), 1);
    let kept = generator.std.structs.get("DataModel").unwrap();
    assert_eq!(kept.len(), 1);
    assert_eq!(kept.get("Name"), Some(&struct_field("x")));
}

#[test]
fn class_index_lists_events_and_properties_in_order() {
    let class = tagged_class(
        "Foo",
        "Bar",
        &[],
        vec![
            value_property("Zeta"),
            event("Touched"),
            function("Destroy"),
            ApiMember::Callback { name: "OnInvoke".to_string(), tags: None },
            ApiMember::Unknown,
            ApiMember::Property {
                name: "Hidden".to_string(),
                tags: None,
                security: ApiPropertySecurity { read: Some("RobloxSecurity".to_string()), write: None },
                value_type: ApiValueType::Other,
            },
            event("Changed"),
            value_property("Alpha"),
        ],
    );
    assert_eq!(
        class_entry(&class),
        RobloxClass {
            superclass: "Bar".to_string(),
            events: words(&["Touched", "Changed"]),
            properties: words(&["Zeta", "Hidden", "Alpha"]),
        }
    );
}

#[test]
fn class_index_has_every_class() {
    let api = ApiDump {
        classes: vec![
            tagged_class("A", "<<<ROOT>>>", &[], vec![event("First")]),
            tagged_class("B", "A", &[], vec![]),
            tagged_class("A", "B", &[], vec![event("Second")]),
        ],
        enums: vec![],
    };
    let mut generator = RobloxGenerator::new(StandardLibrary::new(), true);
    generator.std.roblox_classes.insert(
        "Old".to_string(),
        RobloxClass { superclass: "A".to_string(), events: vec![], properties: vec![] },
    );
    generator.write_roblox_classes(&api);
    let index = &generator.std.roblox_classes;
    assert_eq!(index.len(), 3);
    assert!(index.contains_key("Old"));
    assert_eq!(
        index.get("A"),
        Some(&RobloxClass {
            superclass: "B".to_string(),
            events: words(&["Second"]),
            properties: vec![],
        })
    );
    assert_eq!(
        index.get("B"),
        Some(&RobloxClass { superclass: "A".to_string(), events: vec![], properties: vec![] })
    );
}

#[test]
fn enum_item_called_like_the_method_replaces_it() {
    let api = ApiDump {
        classes: vec![],
        enums: vec![
            ApiEnum {
                name: "E".to_string(),
                items: vec![ApiEnumItem { name: "GetEnumItems".to_string() }],
            },
            ApiEnum { name: "Empty".to_string(), items: vec![] },
        ],
    };
    let mut generator = RobloxGenerator::new(StandardLibrary::new(), false);
    generator.write_enums(&api);
    assert_eq!(generator.std.globals.len(), 2);
    assert_eq!(generator.std.globals.get("Enum.E.GetEnumItems"), Some(&struct_field("EnumItem")));
    assert!(generator.std.globals.contains_key("Enum.Empty.GetEnumItems"));
}

#[test]
fn instance_new_replaces_an_earlier_entry() {
    let api = ApiDump { classes: vec![], enums: vec![] };
    let mut generator = RobloxGenerator::new(StandardLibrary::new(), false);
    generator.std.globals.insert("Instance.new".to_string(), struct_field("x"));
    generator.write_instance_new(&api);
    assert_eq!(generator.std.globals.len(), 1);
    assert_eq!(generator.std.globals.get("Instance.new"), Some(&one_of(&[], false)));
}
