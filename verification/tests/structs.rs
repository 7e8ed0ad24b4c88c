use roblox_std::api::{
    ApiClass, ApiDump, ApiMember, ApiParameter, ApiPropertySecurity, ApiValueType,
};
use roblox_std::classify::classify_member;
use roblox_std::error::GenerateError;
use roblox_std::generate::RobloxGenerator;
use roblox_std::standard_library::{
    Argument, ArgumentType, Deprecated, Field, FieldKind, FunctionBehavior, Observes,
    PropertyWritability, Required, StandardLibrary,
};
use roblox_std::table::Table;

fn texts(values: &[&str]) -> Vec<String> {
    values.iter().map(|value| value.to_string()).collect()
}

fn api_class(name: &str, superclass: &str, members: Vec<ApiMember>) -> ApiClass {
    ApiClass {
        name: name.to_string(),
        superclass: superclass.to_string(),
        tags: Vec::new(),
        members,
    }
}

fn plain_property(name: &str, tags: &[&str]) -> ApiMember {
    ApiMember::Property {
        name: name.to_string(),
        tags: Some(texts(tags)),
        security: ApiPropertySecurity::default(),
        value_type: ApiValueType::Other,
    }
}

fn class_property(name: &str, class: &str) -> ApiMember {
    ApiMember::Property {
        name: name.to_string(),
        tags: None,
        security: ApiPropertySecurity::default(),
        value_type: ApiValueType::Class { name: class.to_string() },
    }
}

fn api_of(classes: Vec<ApiClass>) -> ApiDump {
    ApiDump { classes, enums: Vec::new() }
}

fn lenient() -> RobloxGenerator {
    RobloxGenerator::new(StandardLibrary::new(), false)
}

fn strict() -> RobloxGenerator {
    RobloxGenerator::new(StandardLibrary::new(), true)
}

fn of_kind(kind: FieldKind) -> Field {
    Field { field_kind: kind, deprecated: None }
}

fn instance() -> Field {
    of_kind(FieldKind::Struct("Instance".to_string()))
}

fn notice() -> Option<Deprecated> {
    Some(Deprecated { message: "this property is deprecated.".to_string(), replace: vec![] })
}

#[test]
fn callback_becomes_property() {
    let member = ApiMember::Callback { name: "OnInvoke".to_string(), tags: None };
    assert_eq!(
        classify_member(&member),
        Some((
            "OnInvoke".to_string(),
            of_kind(FieldKind::Property(PropertyWritability::OverrideFields))
        ))
    );
}

#[test]
fn deprecated_callback_carries_notice() {
    let member = ApiMember::Callback {
        name: "OnInvoke".to_string(),
        tags: Some(texts(&["ReadOnly", "Deprecated"])),
    };
    assert_eq!(
        classify_member(&member),
        Some((
            "OnInvoke".to_string(),
            Field {
                field_kind: FieldKind::Property(PropertyWritability::OverrideFields),
                deprecated: notice(),
            }
        ))
    );
}

#[test]
fn event_becomes_event_struct() {
    let member = ApiMember::Event { name: "Changed".to_string(), tags: Some(vec![]) };
    assert_eq!(
        classify_member(&member),
        Some(("Changed".to_string(), of_kind(FieldKind::Struct("Event".to_string()))))
    );
}

#[test]
fn function_has_one_argument_per_parameter() {
    let parameter = |name: &str| ApiParameter {
        name: name.to_string(),
        parameter_type: ApiValueType::Other,
    };
    let member = ApiMember::Function {
        name: "Move".to_string(),
        tags: Some(texts(&["Deprecated"])),
        parameters: vec![parameter("x"), parameter("y")],
    };
    let free = Argument {
        required: Required::NotRequired,
        argument_type: ArgumentType::Any,
        observes: Observes::ReadWrite,
        deprecated: None,
    };
    assert_eq!(
        classify_member(&member),
        Some((
            "Move".to_string(),
            Field {
                field_kind: FieldKind::Function(FunctionBehavior {
                    arguments: vec![free.clone(), free],
                    method: true,
                    must_use: false,
                }),
                deprecated: notice(),
            }
        ))
    );
}

#[test]
fn function_without_parameters_has_no_arguments() {
    let member =
        ApiMember::Function { name: "Destroy".to_string(), tags: None, parameters: vec![] };
    assert_eq!(
        classify_member(&member),
        Some((
            "Destroy".to_string(),
            of_kind(FieldKind::Function(FunctionBehavior {
                arguments: vec![],
                method: true,
                must_use: false,
            }))
        ))
    );
}

#[test]
fn restricted_property_is_left_out() {
    let read_restricted = ApiMember::Property {
        name: "Secret".to_string(),
        tags: Some(texts(&["Deprecated"])),
        security: ApiPropertySecurity { read: Some("RobloxSecurity".to_string()), write: None },
        value_type: ApiValueType::Other,
    };
    let write_restricted = ApiMember::Property {
        name: "Locked".to_string(),
        tags: None,
        security: ApiPropertySecurity { read: None, write: Some("PluginSecurity".to_string()) },
        value_type: ApiValueType::Class { name: "Part".to_string() },
    };
    assert_eq!(classify_member(&read_restricted), None);
    assert_eq!(classify_member(&write_restricted), None);

    let api = api_of(vec![api_class(
        "Foo",
        "<<<ROOT>>>",
        vec![read_restricted, write_restricted, plain_property("Open", &[])],
    )]);
    let mut generator = lenient();
    assert_eq!(generator.write_class_struct(&api, "Foo"), Ok(()));
    let foo = generator.std.structs.get("Foo").unwrap();
    assert_eq!(foo.len(), 2);
    assert!(!foo.contains_key("Secret"));
    assert!(!foo.contains_key("Locked"));
    assert!(foo.contains_key("Open"));
    assert!(!generator.std.structs.contains_key("Part"));
}

#[test]
fn unknown_member_has_no_field() {
    assert_eq!(classify_member(&ApiMember::Unknown), None);
}

#[test]
fn property_without_tags_is_writable_and_current() {
    let member = ApiMember::Property {
        name: "Name".to_string(),
        tags: None,
        security: ApiPropertySecurity::default(),
        value_type: ApiValueType::Other,
    };
    assert_eq!(
        classify_member(&member),
        Some((
            "Name".to_string(),
            of_kind(FieldKind::Property(PropertyWritability::OverrideFields))
        ))
    );
}

#[test]
fn class_property_becomes_struct_even_if_read_only() {
    let member = ApiMember::Property {
        name: "Parent".to_string(),
        tags: Some(texts(&["ReadOnly"])),
        security: ApiPropertySecurity::default(),
        value_type: ApiValueType::Class { name: "Instance".to_string() },
    };
    assert_eq!(
        classify_member(&member),
        Some(("Parent".to_string(), of_kind(FieldKind::Struct("Instance".to_string()))))
    );
}

#[test]
fn every_struct_has_the_wildcard() {
    let api = api_of(vec![
        api_class("Part", "<<<ROOT>>>", vec![class_property("Mesh", "Mesh")]),
        api_class("Mesh", "<<<ROOT>>>", vec![]),
    ]);
    let mut generator = lenient();
    assert_eq!(generator.write_class_struct(&api, "Part"), Ok(()));
    assert_eq!(generator.std.structs.len(), 2);
    assert_eq!(generator.std.structs.get("Part").unwrap().get("*"), Some(&instance()));
    assert_eq!(generator.std.structs.get("Mesh").unwrap().get("*"), Some(&instance()));
    assert_eq!(generator.std.structs.get("Mesh").unwrap().len(), 1);
}

#[test]
fn member_called_like_the_wildcard_replaces_it() {
    let api = api_of(vec![api_class("Odd", "<<<ROOT>>>", vec![plain_property("*", &[])])]);
    let mut generator = lenient();
    assert_eq!(generator.write_class_struct(&api, "Odd"), Ok(()));
    let odd = generator.std.structs.get("Odd").unwrap();
    assert_eq!(odd.len(), 1);
    assert_eq!(
        odd.get("*"),
        Some(&of_kind(FieldKind::Property(PropertyWritability::OverrideFields)))
    );
}

#[test]
fn child_member_hides_parent_member() {
    let api = api_of(vec![
        api_class(
            "Parent",
            "<<<ROOT>>>",
            vec![plain_property("Size", &["ReadOnly"]), plain_property("Name", &[])],
        ),
        api_class("Child", "Parent", vec![plain_property("Size", &["Deprecated"])]),
    ]);
    let mut generator = lenient();
    assert_eq!(generator.write_class_struct(&api, "Child"), Ok(()));
    let child = generator.std.structs.get("Child").unwrap();
    assert_eq!(child.len(), 3);
    assert_eq!(
        child.get("Size"),
        Some(&Field {
            field_kind: FieldKind::Property(PropertyWritability::OverrideFields),
            deprecated: notice(),
        })
    );
    assert_eq!(
        child.get("Name"),
        Some(&of_kind(FieldKind::Property(PropertyWritability::OverrideFields)))
    );
}

#[test]
fn members_of_every_ancestor_are_inherited() {
    let api = api_of(vec![
        api_class("A", "<<<ROOT>>>", vec![plain_property("a", &[]), plain_property("x", &[])]),
        api_class("B", "A", vec![plain_property("b", &[]), plain_property("x", &["ReadOnly"])]),
        api_class("C", "B", vec![plain_property("c", &[])]),
    ]);
    let mut generator = lenient();
    assert_eq!(generator.write_class_struct(&api, "C"), Ok(()));
    let c = generator.std.structs.get("C").unwrap();
    assert_eq!(c.len(), 5);
    for name in ["a", "b", "c"] {
        assert_eq!(
            c.get(name),
            Some(&of_kind(FieldKind::Property(PropertyWritability::OverrideFields)))
        );
    }
    assert_eq!(c.get("x"), Some(&of_kind(FieldKind::Property(PropertyWritability::ReadOnly))));
    assert_eq!(generator.std.structs.len(), 1);
}

#[test]
fn later_member_of_a_name_is_kept() {
    let api = api_of(vec![api_class(
        "Foo",
        "<<<ROOT>>>",
        vec![
            plain_property("Bar", &["ReadOnly"]),
            ApiMember::Event { name: "Bar".to_string(), tags: None },
        ],
    )]);
    let mut generator = lenient();
    assert_eq!(generator.write_class_struct(&api, "Foo"), Ok(()));
    assert_eq!(
        generator.std.structs.get("Foo").unwrap().get("Bar"),
        Some(&of_kind(FieldKind::Struct("Event".to_string())))
    );
}

#[test]
fn self_reference_is_made_once() {
    let api = api_of(vec![api_class(
        "Node",
        "<<<ROOT>>>",
        vec![class_property("Next", "Node"), plain_property("Value", &[])],
    )]);
    let mut generator = lenient();
    assert_eq!(generator.write_class_struct(&api, "Node"), Ok(()));
    assert_eq!(generator.std.structs.len(), 1);
    let node = generator.std.structs.get("Node").unwrap();
    assert_eq!(node.len(), 3);
    assert_eq!(node.get("Next"), Some(&of_kind(FieldKind::Struct("Node".to_string()))));
    assert_eq!(
        node.get("Value"),
        Some(&of_kind(FieldKind::Property(PropertyWritability::OverrideFields)))
    );
    assert_eq!(node.get("*"), Some(&instance()));
}

#[test]
fn classes_that_need_each_other_are_both_made() {
    let api = api_of(vec![
        api_class("Left", "<<<ROOT>>>", vec![class_property("Other", "Right")]),
        api_class("Right", "<<<ROOT>>>", vec![class_property("Other", "Left")]),
        api_class("Alone", "<<<ROOT>>>", vec![]),
    ]);
    let mut generator = lenient();
    assert_eq!(generator.write_class_struct(&api, "Left"), Ok(()));
    assert_eq!(generator.std.structs.len(), 2);
    assert_eq!(
        generator.std.structs.get("Left").unwrap().get("Other"),
        Some(&of_kind(FieldKind::Struct("Right".to_string())))
    );
    assert_eq!(
        generator.std.structs.get("Right").unwrap().get("Other"),
        Some(&of_kind(FieldKind::Struct("Left".to_string())))
    );
    assert!(!generator.std.structs.contains_key("Alone"));
}

#[test]
fn struct_needed_by_a_superclass_is_made() {
    let api = api_of(vec![
        api_class("Base", "<<<ROOT>>>", vec![class_property("Owner", "Player")]),
        api_class("Derived", "Base", vec![]),
        api_class("Player", "<<<ROOT>>>", vec![]),
    ]);
    let mut generator = lenient();
    assert_eq!(generator.write_class_struct(&api, "Derived"), Ok(()));
    assert!(generator.std.structs.contains_key("Derived"));
    assert!(generator.std.structs.contains_key("Player"));
    assert!(!generator.std.structs.contains_key("Base"));
    assert_eq!(
        generator.std.structs.get("Derived").unwrap().get("Owner"),
        Some(&of_kind(FieldKind::Struct("Player".to_string())))
    );
}

#[test]
fn existing_struct_is_left_alone() {
    let api = api_of(vec![
        api_class("Part", "<<<ROOT>>>", vec![class_property("Parent", "Instance")]),
        api_class("Instance", "<<<ROOT>>>", vec![plain_property("Name", &[])]),
    ]);
    let mut generator = lenient();
    let mut handwritten: Table<Field> = Table::new();
    handwritten.insert("ClassName".to_string(), of_kind(FieldKind::Any));
    generator.std.structs.insert("Instance".to_string(), handwritten);
    assert_eq!(generator.write_class_struct(&api, "Part"), Ok(()));
    assert_eq!(generator.write_class_struct(&api, "Instance"), Ok(()));
    let kept = generator.std.structs.get("Instance").unwrap();
    assert_eq!(kept.len(), 1);
    assert_eq!(kept.get("ClassName"), Some(&of_kind(FieldKind::Any)));
    assert_eq!(generator.std.structs.len(), 2);
}

#[test]
fn asking_twice_changes_nothing() {
    let api = api_of(vec![api_class("Foo", "<<<ROOT>>>", vec![plain_property("Bar", &[])])]);
    let mut generator = lenient();
    assert_eq!(generator.write_class_struct(&api, "Foo"), Ok(()));
    assert_eq!(generator.write_class_struct(&api, "Foo"), Ok(()));
    assert_eq!(generator.std.structs.len(), 1);
    assert_eq!(generator.std.structs.get("Foo").unwrap().len(), 2);
}

#[test]
fn missing_class_is_an_error() {
    let api = api_of(vec![api_class("Foo", "<<<ROOT>>>", vec![])]);
    let mut generator = lenient();
    assert_eq!(
        generator.write_class_struct(&api, "Bar"),
        Err(GenerateError::MissingClass("Bar".to_string()))
    );
}

#[test]
fn missing_superclass_is_an_error() {
    let api = api_of(vec![api_class("Foo", "Gone", vec![])]);
    let mut generator = lenient();
    assert_eq!(
        generator.write_class_struct(&api, "Foo"),
        Err(GenerateError::MissingClass("Gone".to_string()))
    );
}

#[test]
fn missing_needed_class_is_an_error() {
    let api = api_of(vec![api_class("Foo", "<<<ROOT>>>", vec![class_property("Bar", "Gone")])]);
    let mut generator = lenient();
    assert_eq!(
        generator.write_class_struct(&api, "Foo"),
        Err(GenerateError::MissingClass("Gone".to_string()))
    );
}

#[test]
fn superclass_cycle_is_an_error() {
    let api = api_of(vec![api_class("A", "B", vec![]), api_class("B", "A", vec![])]);
    let mut generator = lenient();
    assert_eq!(generator.write_class_struct(&api, "A"), Err(GenerateError::SuperclassCycle));
}

#[test]
fn class_that_is_its_own_superclass_is_an_error() {
    let api = api_of(vec![api_class("A", "A", vec![plain_property("x", &[])])]);
    let mut generator = lenient();
    assert_eq!(generator.write_class_struct(&api, "A"), Err(GenerateError::SuperclassCycle));
}

#[test]
fn longest_chain_without_cycle_is_walked() {
    let api = api_of(vec![
        api_class("D", "C", vec![plain_property("d", &[])]),
        api_class("C", "B", vec![plain_property("c", &[])]),
        api_class("B", "A", vec![plain_property("b", &[])]),
        api_class("A", "<<<ROOT>>>", vec![plain_property("a", &[])]),
    ]);
    let mut generator = lenient();
    assert_eq!(generator.write_class_struct(&api, "D"), Ok(()));
    assert_eq!(generator.std.structs.get("D").unwrap().len(), 5);
}

#[test]
fn unknown_member_stops_a_strict_generation() {
    let api = api_of(vec![api_class(
        "Foo",
        "<<<ROOT>>>",
        vec![plain_property("Bar", &[]), ApiMember::Unknown],
    )]);
    let mut generator = strict();
    let error = generator.write_class_struct(&api, "Foo").unwrap_err();
    assert_eq!(error, GenerateError::UnknownMember("Foo".to_string()));
    assert_eq!(error.message(), "unknown property found in Roblox API dump for Foo");
    assert!(error.message().contains("Foo"));
}

#[test]
fn unknown_member_of_a_superclass_names_the_superclass() {
    let api = api_of(vec![
        api_class("Child", "Parent", vec![]),
        api_class("Parent", "<<<ROOT>>>", vec![ApiMember::Unknown]),
    ]);
    let mut generator = strict();
    assert_eq!(
        generator.write_class_struct(&api, "Child"),
        Err(GenerateError::UnknownMember("Parent".to_string()))
    );
}

#[test]
fn unknown_member_is_passed_over_otherwise() {
    let api = api_of(vec![api_class(
        "Foo",
        "<<<ROOT>>>",
        vec![ApiMember::Unknown, plain_property("Bar", &[]), ApiMember::Unknown],
    )]);
    let mut generator = lenient();
    assert_eq!(generator.write_class_struct(&api, "Foo"), Ok(()));
    let foo = generator.std.structs.get("Foo").unwrap();
    assert_eq!(foo.len(), 2);
    assert!(foo.contains_key("Bar"));
    assert!(foo.contains_key("*"));
}

#[test]
fn first_class_of_a_name_is_the_one_described() {
    let api = api_of(vec![
        api_class("Foo", "<<<ROOT>>>", vec![plain_property("First", &[])]),
        api_class("Foo", "<<<ROOT>>>", vec![plain_property("Second", &[])]),
    ]);
    assert_eq!(api.find_class("Foo"), Some(0));
    assert_eq!(api.find_class("Bar"), None);
    let mut generator = lenient();
    assert_eq!(generator.write_class_struct(&api, "Foo"), Ok(()));
    let foo = generator.std.structs.get("Foo").unwrap();
    assert!(foo.contains_key("First"));
    assert!(!foo.contains_key("Second"));
}

#[test]
fn write_class_binds_the_global() {
    let api = api_of(vec![api_class("Workspace", "<<<ROOT>>>", vec![])]);
    let mut generator = lenient();
    assert_eq!(generator.write_class(&api, "workspace", "Workspace"), Ok(()));
    assert_eq!(
        generator.std.globals.get("workspace"),
        Some(&of_kind(FieldKind::Struct("Workspace".to_string())))
    );
    assert_eq!(generator.std.globals.len(), 1);
    assert!(generator.std.structs.contains_key("Workspace"));
}

#[test]
fn write_class_binds_nothing_on_error() {
    let api = api_of(vec![]);
    let mut generator = lenient();
    assert_eq!(
        generator.write_class(&api, "workspace", "Workspace"),
        Err(GenerateError::MissingClass("Workspace".to_string()))
    );
    assert_eq!(generator.std.globals.len(), 0);
}
