use pbuild::ordered::OrderedMap;
use pbuild::config::{enable_field, Config};
use pbuild::profile::{lookup_field, Error, Profile};
use pbuild::schema::{FieldKey, Spec, TypeKey};
use pbuild::value::Value;

const SCHEMA: &str = r#"
[spec]
name = "main"

[spec.types]
target = { key = "target", single = true }
feat = "feature"

[target.linux]
description = "Linux"

[target.windows]
description = "Windows"

[feat.logging]
description = "Logging"

[feat.logging.properties]
level = { type = "u8", default = 1 }
sink = { type = "string" }
color = { type = "bool", default = true }

[feat.metrics]
description = "Metrics"
"#;

const HEAD: &str = "[profile]\ndescription = \"d\"\nbins = [\"app\"]\n";

fn spec() -> Spec {
    Spec::parse_str(SCHEMA).unwrap()
}

fn parse(body: &str) -> Result<Profile, Error> {
    Profile::parse_str(&spec(), &format!("{}{}", HEAD, body))
}

fn props(profile: &Profile, category: &str, field: &str) -> Vec<(String, Value)> {
    let map = profile.config().get(category).unwrap().get(field).unwrap();
    let mut out = Vec::new();
    let mut i = 0;
    while let Some((key, value)) = map.get_index(i) {
        out.push((key.clone(), value.clone()));
        i += 1;
    }
    out
}

#[test]
fn profile_section_is_read() {
    let profile = Profile::parse_str(
        &spec(),
        "[profile]\ndescription = \"Release\"\nbins = [\"a\", \"pkg/b\"]\nlibs = [\"l\"]\nfeatures = [\"f1\", \"f2\"]\n[config]\n",
    )
    .unwrap();
    assert_eq!(profile.description(), "Release");
    assert_eq!(profile.bins(), &vec!["a".to_string(), "pkg/b".to_string()]);
    assert_eq!(profile.libs(), &vec!["l".to_string()]);
    assert_eq!(profile.features(), &vec!["f1".to_string(), "f2".to_string()]);
    assert!(profile.config().is_empty());
    assert_eq!(profile.spec().name, "main");
}

#[test]
fn bins_or_libs_are_required() {
    assert!(matches!(
        Profile::parse_str(&spec(), "[profile]\ndescription = \"d\"\n[config]\n"),
        Err(Error::NoBinsOrLibs)
    ));
    assert!(matches!(
        Profile::parse_str(&spec(), "[profile]\ndescription = \"d\"\nbins = []\nlibs = []\n[config]\n"),
        Err(Error::NoBinsOrLibs)
    ));
    assert!(matches!(
        Profile::parse_str(&spec(), "[profile]\ndescription = \"d\"\nbins = \"app\"\n[config]\n"),
        Err(Error::NoBinsOrLibs)
    ));
    assert!(matches!(Profile::parse_str(&spec(), ""), Err(Error::NoBinsOrLibs)));
    assert!(Profile::parse_str(&spec(), "[profile]\ndescription = \"d\"\nlibs = [\"l\"]\n[config]\n").is_ok());
}

#[test]
fn name_lists_hold_strings() {
    match Profile::parse_str(&spec(), "[profile]\ndescription = \"d\"\nbins = [1]\n[config]\n") {
        Err(Error::InvalidShape(path)) => assert_eq!(path, "profile.bins"),
        other => panic!("unexpected {:?}", other),
    }
    match Profile::parse_str(
        &spec(),
        "[profile]\ndescription = \"d\"\nbins = [\"a\"]\nlibs = [true]\n[config]\n",
    ) {
        Err(Error::InvalidShape(path)) => assert_eq!(path, "profile.libs"),
        other => panic!("unexpected {:?}", other),
    }
    match Profile::parse_str(
        &spec(),
        "[profile]\ndescription = \"d\"\nbins = [\"a\"]\nfeatures = [[]]\n[config]\n",
    ) {
        Err(Error::InvalidShape(path)) => assert_eq!(path, "profile.features"),
        other => panic!("unexpected {:?}", other),
    }
}

#[test]
fn description_is_required() {
    match Profile::parse_str(&spec(), "[profile]\nbins = [\"a\"]\n[config]\n") {
        Err(Error::MissingField(path)) => assert_eq!(path, "profile.description"),
        other => panic!("unexpected {:?}", other),
    }
    match Profile::parse_str(&spec(), "[profile]\nbins = [\"a\"]\ndescription = 3\n[config]\n") {
        Err(Error::MissingField(path)) => assert_eq!(path, "profile.description"),
        other => panic!("unexpected {:?}", other),
    }
}

#[test]
fn config_table_is_required() {
    match Profile::parse_str(&spec(), HEAD) {
        Err(Error::MissingField(path)) => assert_eq!(path, "config"),
        other => panic!("unexpected {:?}", other),
    }
    match Profile::parse_str(&spec(), &format!("config = 1\n{}", HEAD)) {
        Err(Error::MissingField(path)) => assert_eq!(path, "config"),
        other => panic!("unexpected {:?}", other),
    }
}

#[test]
fn config_selects_a_field_by_outside_name() {
    let profile = parse("[config]\nfeature = \"metrics\"\ntarget = \"windows\"\n").unwrap();
    assert_eq!(profile.config().keys(), vec!["feature", "target"]);
    assert_eq!(profile.config().get("feature").unwrap().keys(), vec!["metrics"]);
    assert_eq!(profile.config().get("target").unwrap().keys(), vec!["windows"]);
    assert!(props(&profile, "target", "windows").is_empty());
}

#[test]
fn config_rejects_unknown_names() {
    match parse("[config]\nfeat = \"metrics\"\n") {
        Err(Error::UnknownType(name)) => assert_eq!(name, "feat"),
        other => panic!("unexpected {:?}", other),
    }
    match parse("[config]\nfeature = \"nothing\"\n") {
        Err(Error::UnknownField(path)) => assert_eq!(path, "feature.nothing"),
        other => panic!("unexpected {:?}", other),
    }
}

#[test]
fn config_rejects_other_shapes() {
    match parse("[config]\nfeature = { a = 1 }\n") {
        Err(Error::Unsupported(path)) => assert_eq!(path, "config.feature"),
        other => panic!("unexpected {:?}", other),
    }
    match parse("[config]\nfeature = 1\n") {
        Err(Error::InvalidShape(path)) => assert_eq!(path, "config.feature"),
        other => panic!("unexpected {:?}", other),
    }
}

#[test]
fn section_enables_fields_under_the_outside_name() {
    let profile = parse("[config]\n[feat]\nmetrics = true\nlogging = false\n").unwrap();
    assert_eq!(profile.config().keys(), vec!["feature"]);
    assert_eq!(profile.config().get("feature").unwrap().keys(), vec!["metrics"]);
}

#[test]
fn section_rejects_unknown_names() {
    match parse("[config]\n[feature]\nmetrics = true\n") {
        Err(Error::UnknownType(name)) => assert_eq!(name, "feature"),
        other => panic!("unexpected {:?}", other),
    }
    match parse("[config]\n[feat]\nnothing = true\n") {
        Err(Error::UnknownField(path)) => assert_eq!(path, "feat.nothing"),
        other => panic!("unexpected {:?}", other),
    }
    match parse("[config]\n[feat]\nnothing = false\n") {
        Err(Error::UnknownField(path)) => assert_eq!(path, "feat.nothing"),
        other => panic!("unexpected {:?}", other),
    }
    match parse("[config]\n[feat.nothing]\n") {
        Err(Error::UnknownField(path)) => assert_eq!(path, "feat.nothing"),
        other => panic!("unexpected {:?}", other),
    }
    match parse("[config]\n[feat.logging]\nvolume = 3\n") {
        Err(Error::UnknownProperty(path)) => assert_eq!(path, "feat.logging.volume"),
        other => panic!("unexpected {:?}", other),
    }
}

#[test]
fn section_rejects_other_shapes() {
    match Profile::parse_str(&spec(), &format!("feat = 1\n{}[config]\n", HEAD)) {
        Err(Error::InvalidShape(path)) => assert_eq!(path, "feat"),
        other => panic!("unexpected {:?}", other),
    }
    match parse("[config]\n[feat]\nmetrics = \"yes\"\n") {
        Err(Error::InvalidShape(path)) => assert_eq!(path, "feat.metrics"),
        other => panic!("unexpected {:?}", other),
    }
}

#[test]
fn table_sets_properties_and_defaults_fill_the_rest() {
    let profile = parse("[config]\n[feat.logging]\nsink = \"file\"\n").unwrap();
    assert_eq!(
        props(&profile, "feature", "logging"),
        vec![
            ("sink".to_string(), Value::String("file".to_string())),
            ("level".to_string(), Value::U8(1)),
            ("color".to_string(), Value::Bool(true)),
        ]
    );
}

#[test]
fn explicit_value_overrides_the_default() {
    let profile = parse("[config]\n[feat.logging]\ncolor = false\nlevel = 7\n").unwrap();
    assert_eq!(
        props(&profile, "feature", "logging"),
        vec![
            ("color".to_string(), Value::Bool(false)),
            ("level".to_string(), Value::U8(7)),
        ]
    );
}

#[test]
fn value_that_does_not_coerce_becomes_zero() {
    let profile =
        parse("[config]\n[feat.logging]\nlevel = 300\nsink = 5\ncolor = \"red\"\n").unwrap();
    assert_eq!(
        props(&profile, "feature", "logging"),
        vec![
            ("level".to_string(), Value::U8(0)),
            ("sink".to_string(), Value::String(String::new())),
            ("color".to_string(), Value::Bool(false)),
        ]
    );
}

#[test]
fn empty_table_enables_with_defaults() {
    let profile = parse("[config]\n[feat.logging]\n[feat.metrics]\n").unwrap();
    assert_eq!(
        props(&profile, "feature", "logging"),
        vec![
            ("level".to_string(), Value::U8(1)),
            ("color".to_string(), Value::Bool(true)),
        ]
    );
    assert!(props(&profile, "feature", "metrics").is_empty());
}

#[test]
fn selection_and_sections_share_one_configuration() {
    let profile =
        parse("[config]\nfeature = \"logging\"\n[feat]\nlogging = true\nmetrics = true\n[target]\nlinux = true\n")
            .unwrap();
    assert_eq!(profile.config().keys(), vec!["feature", "target"]);
    assert_eq!(
        profile.config().get("feature").unwrap().keys(),
        vec!["logging", "metrics"]
    );
    assert!(props(&profile, "feature", "logging").is_empty());
}

#[test]
fn table_replaces_what_selection_gave() {
    let profile = parse("[config]\nfeature = \"logging\"\n[feat.logging]\nlevel = 2\n").unwrap();
    assert_eq!(
        props(&profile, "feature", "logging"),
        vec![
            ("level".to_string(), Value::U8(2)),
            ("color".to_string(), Value::Bool(true)),
        ]
    );
}

#[test]
fn malformed_profile_toml_is_reported() {
    assert!(matches!(Profile::parse_str(&spec(), "[profile"), Err(Error::Toml(_))));
}

#[test]
fn enable_field_keeps_or_replaces() {
    let mut config: Config = OrderedMap::new();
    let mut first: OrderedMap<Value> = OrderedMap::new();
    first.insert("p".to_string(), Value::U8(1));
    enable_field(&mut config, "c", "f", first, false);
    enable_field(&mut config, "c", "g", OrderedMap::new(), false);
    enable_field(&mut config, "c", "f", OrderedMap::new(), false);
    assert_eq!(config.get("c").unwrap().keys(), vec!["f", "g"]);
    assert_eq!(config.get("c").unwrap().get("f").unwrap().len(), 1);
    enable_field(&mut config, "c", "f", OrderedMap::new(), true);
    assert_eq!(config.get("c").unwrap().keys(), vec!["f", "g"]);
    assert_eq!(config.get("c").unwrap().get("f").unwrap().len(), 0);
    enable_field(&mut config, "d", "f", OrderedMap::new(), true);
    assert_eq!(config.keys(), vec!["c", "d"]);
}

#[test]
fn lookup_field_by_section_name() {
    let spec = spec();
    assert_eq!(lookup_field(&spec, "feat", "logging").unwrap().description, "Logging");
    assert!(lookup_field(&spec, "feature", "logging").is_none());
    assert!(lookup_field(&spec, "feat", "nothing").is_none());
}

#[test]
fn enabled_by_typed_names() {
    let profile = parse("[config]\n[feat.logging]\nlevel = 4\n").unwrap();
    let props = profile
        .enabled(&TypeKey::new("feature".to_string()), &FieldKey::new("logging".to_string()))
        .unwrap();
    assert_eq!(props.get("level"), Some(&Value::U8(4)));
    assert!(profile
        .enabled(&TypeKey::new("feat".to_string()), &FieldKey::new("logging".to_string()))
        .is_none());
    assert!(profile
        .enabled(&TypeKey::new("feature".to_string()), &FieldKey::new("metrics".to_string()))
        .is_none());
}

#[test]
fn copies_equal_what_they_were_made_from() {
    let profile = parse("[config]\n[feat.logging]\nlevel = 4\n").unwrap();
    let copy = profile.clone();
    assert_eq!(copy.description(), profile.description());
    assert_eq!(copy.bins(), profile.bins());
    assert_eq!(copy.rustc_cfg_flags(), profile.rustc_cfg_flags());
    assert_eq!(copy.spec().name, profile.spec().name);
    assert_eq!(props(&copy, "feature", "logging"), props(&profile, "feature", "logging"));
}
