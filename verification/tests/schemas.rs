use pbuild::document::{decode, Node};
use pbuild::schema::{
    find_type, Dep, Dependencies, DependencyOp, FieldKey, FieldSpec, FieldsError, PropSpec,
    Properties, Spec, SpecError, TypeIndex, TypeKey, TypeSpec,
};
use pbuild::ordered::OrderedMap;
use pbuild::sections::Error;
use pbuild::value::{Type, Value};

const SCHEMA: &str = r#"
[spec]
name = "main"

[spec.types]
target = { key = "target", single = true }
feat = "feature"

[target.linux]
description = "Linux"

[target.windows]
description = "Windows"
dependencies = ["feature:logging"]

[feat.logging]
description = "Logging"
dependencies = ["target:linux OR target:windows", "feature:metrics"]

[feat.logging.properties]
level = { type = "u8", default = 1 }
sink = { type = "string" }

[feat.metrics]
description = "Metrics"
properties = {}
"#;

fn fields_error(text: &str) -> FieldsError {
    match Spec::parse_str(text) {
        Err(Error::Fields(error)) => error,
        other => panic!("expected a failure of the fields, got {:?}", other),
    }
}

fn spec_error(text: &str) -> SpecError {
    match Spec::parse_str(text) {
        Err(Error::Spec(error)) => error,
        other => panic!("expected a failure of the spec section, got {:?}", other),
    }
}

fn types() -> OrderedMap<TypeSpec> {
    Spec::parse_str(SCHEMA).unwrap().types
}

#[test]
fn schema_is_read_in_document_order() {
    let spec = Spec::parse_str(SCHEMA).unwrap();
    assert_eq!(spec.name, "main");
    assert_eq!(spec.types.keys(), vec!["target", "feat"]);
    assert_eq!(spec.fields.keys(), vec!["target", "feat"]);
    let target = spec.types.get("target").unwrap();
    assert_eq!(target.key.as_str(), "target");
    assert!(target.is_single);
    let feat = spec.types.get("feat").unwrap();
    assert_eq!(feat.key.as_str(), "feature");
    assert!(!feat.is_single);
    assert_eq!(spec.fields.get("target").unwrap().keys(), vec!["linux", "windows"]);
    assert_eq!(spec.fields.get("feat").unwrap().keys(), vec!["logging", "metrics"]);
}

#[test]
fn field_is_read_with_properties_and_dependencies() {
    let spec = Spec::parse_str(SCHEMA).unwrap();
    let logging = spec.fields.get("feat").unwrap().get("logging").unwrap();
    assert_eq!(logging.description, "Logging");
    assert_eq!(logging.properties.0.keys(), vec!["level", "sink"]);
    let level = logging.properties.0.get("level").unwrap();
    assert_eq!(level.ty, Type::U8);
    assert_eq!(level.default, Some(Value::U8(1)));
    let sink = logging.properties.0.get("sink").unwrap();
    assert_eq!(sink.ty, Type::String);
    assert_eq!(sink.default, None);
    match logging.dependencies.op() {
        DependencyOp::And(ops) => {
            assert_eq!(ops.len(), 2);
            match &ops[0] {
                DependencyOp::Or(deps) => {
                    assert_eq!(deps.len(), 2);
                    assert_eq!(deps[0].ty().as_str(), "target");
                    assert_eq!(deps[0].name(), "linux");
                    assert_eq!(deps[1].ty().as_str(), "target");
                    assert_eq!(deps[1].name(), "windows");
                }
                other => panic!("expected a disjunction, got {:?}", other),
            }
            match &ops[1] {
                DependencyOp::Dep(dep) => {
                    assert_eq!(dep.ty().as_str(), "feature");
                    assert_eq!(dep.name(), "metrics");
                }
                other => panic!("expected one reference, got {:?}", other),
            }
        }
        other => panic!("expected a conjunction, got {:?}", other),
    }
    let metrics = spec.fields.get("feat").unwrap().get("metrics").unwrap();
    assert!(metrics.properties.0.is_empty());
    assert!(matches!(metrics.dependencies.op(), DependencyOp::And(ops) if ops.is_empty()));
}

#[test]
fn empty_dependencies_and_properties() {
    assert!(matches!(Dependencies::empty().op(), DependencyOp::And(ops) if ops.is_empty()));
    assert!(Properties::empty().0.is_empty());
}

#[test]
fn spec_section_is_required() {
    assert!(matches!(spec_error("[target]\n"), SpecError::SpecMissing));
    assert!(matches!(spec_error("spec = 1\n"), SpecError::SpecMissing));
    assert!(matches!(spec_error(""), SpecError::SpecMissing));
}

#[test]
fn spec_name_is_required_and_a_string() {
    assert!(matches!(
        spec_error("[spec]\ntypes = {}\n"),
        SpecError::MissingField("name")
    ));
    assert!(matches!(
        spec_error("[spec]\nname = 1\ntypes = {}\n"),
        SpecError::InvalidFieldType("name", "string")
    ));
}

#[test]
fn spec_types_is_required_and_a_table() {
    assert!(matches!(
        spec_error("[spec]\nname = \"x\"\n"),
        SpecError::MissingField("types")
    ));
    assert!(matches!(
        spec_error("[spec]\nname = \"x\"\ntypes = 3\n"),
        SpecError::InvalidFieldType("types", "map<string, string>")
    ));
}

#[test]
fn type_entry_is_a_string_or_a_table_with_key() {
    match spec_error("[spec]\nname = \"x\"\n[spec.types]\na = \"a\"\nb = 3\nc = true\n") {
        SpecError::InvalidTypeValue(key) => assert_eq!(key, "b"),
        other => panic!("unexpected {:?}", other),
    }
    match spec_error("[spec]\nname = \"x\"\n[spec.types]\na = { single = true }\n") {
        SpecError::InvalidTypeValue(key) => assert_eq!(key, "a"),
        other => panic!("unexpected {:?}", other),
    }
    match spec_error("[spec]\nname = \"x\"\n[spec.types]\na = { key = 1 }\n") {
        SpecError::InvalidTypeValue(key) => assert_eq!(key, "a"),
        other => panic!("unexpected {:?}", other),
    }
}

#[test]
fn single_is_marked_by_presence() {
    let spec = Spec::parse_str(
        "[spec]\nname = \"x\"\n[spec.types]\na = { key = \"a\", single = false }\nb = { key = \"b\" }\n[a]\n[b]\n",
    )
    .unwrap();
    assert!(spec.types.get("a").unwrap().is_single);
    assert!(!spec.types.get("b").unwrap().is_single);
}

#[test]
fn matching_sections_are_accepted() {
    let spec =
        Spec::parse_str("[spec]\nname = \"x\"\n[spec.types]\na = \"a\"\nb = \"b\"\n[b]\n[a]\n")
            .unwrap();
    assert_eq!(spec.fields.keys(), vec!["a", "b"]);
}

#[test]
fn undeclared_sections_are_all_named() {
    match fields_error(
        "[spec]\nname = \"x\"\n[spec.types]\na = \"a\"\n[zed]\n[a]\n[extra]\n",
    ) {
        FieldsError::ExcessKeys(names) => assert_eq!(names, "zed, extra"),
        other => panic!("unexpected {:?}", other),
    }
}

#[test]
fn missing_sections_are_all_named() {
    match fields_error(
        "[spec]\nname = \"x\"\n[spec.types]\na = \"a\"\nb = \"b\"\nc = \"c\"\n[b]\n",
    ) {
        FieldsError::MissingKeys(names) => assert_eq!(names, "a, c"),
        other => panic!("unexpected {:?}", other),
    }
}

#[test]
fn undeclared_and_missing_sections_give_one_failure() {
    match fields_error("[spec]\nname = \"x\"\n[spec.types]\na = \"a\"\nb = \"b\"\n[a]\n[c]\n") {
        FieldsError::MismatchedKeys { excess, missing } => {
            assert_eq!(excess, "c");
            assert_eq!(missing, "b");
        }
        other => panic!("unexpected {:?}", other),
    }
}

#[test]
fn section_must_be_a_table_of_tables() {
    match fields_error("a = 1\n[spec]\nname = \"x\"\n[spec.types]\na = \"a\"\n") {
        FieldsError::SectionMissing(path) => assert_eq!(path, "a"),
        other => panic!("unexpected {:?}", other),
    }
    match fields_error("[spec]\nname = \"x\"\n[spec.types]\na = \"a\"\n[a]\nf = 1\n") {
        FieldsError::SectionMissing(path) => assert_eq!(path, "a.f"),
        other => panic!("unexpected {:?}", other),
    }
}

const HEAD: &str = "[spec]\nname = \"x\"\n[spec.types]\na = \"a\"\n";

#[test]
fn description_is_required_and_a_string() {
    match fields_error(&format!("{}[a.f]\n", HEAD)) {
        FieldsError::MissingField(section, "description") => assert_eq!(section, "a.f"),
        other => panic!("unexpected {:?}", other),
    }
    match fields_error(&format!("{}[a.f]\ndescription = 1\n", HEAD)) {
        FieldsError::InvalidFieldType { field, key: "description", ty: "string" } => {
            assert_eq!(field, "a.f")
        }
        other => panic!("unexpected {:?}", other),
    }
}

#[test]
fn dependencies_must_be_an_array_of_strings() {
    for bad in ["dependencies = 1", "dependencies = [1]", "dependencies = [\"a:x\", 2]"] {
        match fields_error(&format!("{}[a.f]\ndescription = \"d\"\n{}\n", HEAD, bad)) {
            FieldsError::InvalidFieldType { field, key: "dependencies", ty: "array<string>" } => {
                assert_eq!(field, "a.f")
            }
            other => panic!("unexpected {:?}", other),
        }
    }
}

#[test]
fn malformed_dependency_fails() {
    for bad in ["nocolon", "a:b:c", "unknown:x", "a:x OR b", "a:x OR unknown:y", " a:x"] {
        match fields_error(&format!(
            "{}[a.f]\ndescription = \"d\"\ndependencies = [\"a:ok\", \"{}\"]\n",
            HEAD, bad
        )) {
            FieldsError::InvalidDependency { field, entry } => {
                assert_eq!(field, "a.f");
                assert_eq!(entry, bad);
            }
            other => panic!("unexpected {:?}", other),
        }
    }
}

#[test]
fn properties_must_be_a_table() {
    match fields_error(&format!("{}[a.f]\ndescription = \"d\"\nproperties = 1\n", HEAD)) {
        FieldsError::InvalidFieldType { field, key: "properties", ty: "table" } => {
            assert_eq!(field, "a.f")
        }
        other => panic!("unexpected {:?}", other),
    }
}

#[test]
fn property_type_is_required_and_names_a_kind() {
    match fields_error(&format!(
        "{}[a.f]\ndescription = \"d\"\n[a.f.properties]\np = {{ default = 1 }}\n",
        HEAD
    )) {
        FieldsError::MissingField(path, "type") => assert_eq!(path, "a.f.properties.p"),
        other => panic!("unexpected {:?}", other),
    }
    match fields_error(&format!(
        "{}[a.f]\ndescription = \"d\"\n[a.f.properties]\np = 1\n",
        HEAD
    )) {
        FieldsError::MissingField(path, "type") => assert_eq!(path, "a.f.properties.p"),
        other => panic!("unexpected {:?}", other),
    }
    for bad in ["type = 1", "type = \"float\""] {
        match fields_error(&format!(
            "{}[a.f]\ndescription = \"d\"\n[a.f.properties]\np = {{ {} }}\n",
            HEAD, bad
        )) {
            FieldsError::InvalidFieldType { field, key: "type", ty: "Type (string)" } => {
                assert_eq!(field, "a.f.properties.p")
            }
            other => panic!("unexpected {:?}", other),
        }
    }
}

#[test]
fn default_must_coerce_to_the_type() {
    match fields_error(&format!(
        "{}[a.f]\ndescription = \"d\"\n[a.f.properties]\nok = {{ type = \"u8\", default = 255 }}\np = {{ type = \"u8\", default = 300 }}\n",
        HEAD
    )) {
        FieldsError::InvalidFieldType { field, key: "default", ty: "u8" } => {
            assert_eq!(field, "a.f.properties.p")
        }
        other => panic!("unexpected {:?}", other),
    }
    match fields_error(&format!(
        "{}[a.f]\ndescription = \"d\"\n[a.f.properties]\np = {{ type = \"bool\", default = \"yes\" }}\n",
        HEAD
    )) {
        FieldsError::InvalidFieldType { field, key: "default", ty: "bool" } => {
            assert_eq!(field, "a.f.properties.p")
        }
        other => panic!("unexpected {:?}", other),
    }
}

#[test]
fn malformed_toml_is_reported() {
    assert!(matches!(Spec::parse_str("[spec"), Err(Error::InvalidToml(_))));
}

#[test]
fn parse_takes_a_document() {
    let doc = decode(SCHEMA).unwrap();
    let spec = Spec::parse(&doc).unwrap();
    assert_eq!(spec.name, "main");
    assert!(matches!(
        Spec::parse(&Node::Integer(1)),
        Err(Error::Spec(SpecError::SpecMissing))
    ));
}

#[test]
fn parse_spec_gives_name_and_types() {
    let doc = decode(SCHEMA).unwrap();
    let (name, types) = Spec::parse_spec(&doc).unwrap();
    assert_eq!(name, "main");
    assert_eq!(types.keys(), vec!["target", "feat"]);
    let fields = Spec::parse_fields(doc.as_table().unwrap(), &types).unwrap();
    assert_eq!(fields.keys(), vec!["target", "feat"]);
}

#[test]
fn find_type_by_outside_name() {
    let types = types();
    let (index, type_spec) = find_type(&types, "feature").unwrap();
    assert_eq!(index, "feat");
    assert_eq!(type_spec.key.as_str(), "feature");
    assert!(find_type(&types, "feat").is_none());
}

#[test]
fn dep_is_category_colon_field() {
    let types = types();
    let dep = Dep::parse("feature:anything", &types).unwrap();
    assert_eq!(dep.ty().as_str(), "feature");
    assert_eq!(dep.name(), "anything");
    let dep = Dep::parse("target:", &types).unwrap();
    assert_eq!(dep.name(), "");
    assert!(Dep::parse("feat:logging", &types).is_none());
    assert!(Dep::parse("feature", &types).is_none());
    assert!(Dep::parse("feature:a:b", &types).is_none());
    assert!(Dep::parse("", &types).is_none());
}

#[test]
fn condition_is_one_reference_or_a_disjunction() {
    let types = types();
    assert!(matches!(
        DependencyOp::parse("target:linux", &types),
        Some(DependencyOp::Dep(_))
    ));
    match DependencyOp::parse("  target:linux   OR feature:x OR target:y ", &types) {
        Some(DependencyOp::Or(deps)) => {
            assert_eq!(deps.len(), 3);
            assert_eq!(deps[0].name(), "linux");
            assert_eq!(deps[1].ty().as_str(), "feature");
            assert_eq!(deps[2].name(), "y");
        }
        other => panic!("unexpected {:?}", other),
    }
    assert!(DependencyOp::parse(" target:linux", &types).is_none());
    assert!(DependencyOp::parse("target:linux OR", &types).is_none());
}

#[test]
fn dependencies_of_lines() {
    let types = types();
    let deps = Dependencies::parse("a.f", &types, &vec!["target:x", "feature:y OR target:z"])
        .unwrap();
    assert!(matches!(deps.op(), DependencyOp::And(ops) if ops.len() == 2));
    match Dependencies::parse("a.f", &types, &vec!["target:x", "bad"]) {
        Err(FieldsError::InvalidDependency { field, entry }) => {
            assert_eq!(field, "a.f");
            assert_eq!(entry, "bad");
        }
        other => panic!("unexpected {:?}", other),
    }
}

#[test]
fn prop_spec_of_a_node() {
    let node = decode("type = \"i16\"\ndefault = -5\n").unwrap();
    let prop = PropSpec::parse("a.f.properties.p", &node).unwrap();
    assert_eq!(prop.ty, Type::I16);
    assert_eq!(prop.default, Some(Value::I16(-5)));
}

#[test]
fn field_spec_of_a_table() {
    let types = types();
    let node = decode("description = \"d\"\n").unwrap();
    let field = FieldSpec::parse("a.f".to_string(), &types, node.as_table().unwrap()).unwrap();
    assert_eq!(field.description, "d");
    assert!(field.properties.0.is_empty());
}

#[test]
fn type_spec_of_a_node() {
    let plain = TypeSpec::parse(&Node::String("k".to_string())).unwrap();
    assert_eq!(plain.key.as_str(), "k");
    assert!(!plain.is_single);
    assert!(TypeSpec::parse(&Node::Integer(1)).is_none());
}

#[test]
fn typed_lookups() {
    let spec = Spec::parse_str(SCHEMA).unwrap();
    let feat = TypeIndex::new("feat".to_string());
    assert_eq!(spec.type_spec(&feat).unwrap().key.as_str(), "feature");
    assert!(spec.type_spec(&TypeIndex::new("feature".to_string())).is_none());
    let (index, type_spec) = spec.find_type(&TypeKey::new("feature".to_string())).unwrap();
    assert_eq!(index.as_str(), "feat");
    assert!(!type_spec.is_single);
    assert!(spec.find_type(&TypeKey::new("feat".to_string())).is_none());
    let logging = spec.field(&feat, &FieldKey::new("logging".to_string())).unwrap();
    assert_eq!(logging.description, "Logging");
    assert!(spec.field(&feat, &FieldKey::new("x".to_string())).is_none());
}

#[test]
fn schema_copy_keeps_everything() {
    let spec = Spec::parse_str(SCHEMA).unwrap();
    let copy = spec.clone();
    assert_eq!(copy.name, spec.name);
    assert_eq!(copy.types.keys(), spec.types.keys());
    assert_eq!(copy.fields.keys(), spec.fields.keys());
    let logging = copy.fields.get("feat").unwrap().get("logging").unwrap();
    assert_eq!(logging.properties.0.keys(), vec!["level", "sink"]);
    assert_eq!(logging.properties.0.get("level").unwrap().default, Some(Value::U8(1)));
    assert!(matches!(logging.dependencies.op(), DependencyOp::And(ops) if ops.len() == 2));
}
