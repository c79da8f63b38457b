use pbuild::ordered::OrderedMap;
use pbuild::profile::Profile;
use pbuild::schema::Spec;
use pbuild::value::Value;

fn entries(map: &OrderedMap<Value>) -> Vec<(String, Value)> {
    let mut out = Vec::new();
    let mut i = 0;
    while let Some((key, value)) = map.get_index(i) {
        out.push((key.clone(), value.clone()));
        i += 1;
    }
    out
}

const TARGET_SCHEMA: &str = r#"
[spec]
name = "main"

[spec.types]
target = { key = "target", single = true }

[target.linux]
description = "Linux"
properties = {}

[target.windows]
description = "Windows"
properties = {}
"#;

const FEATURE_SCHEMA: &str = r#"
[spec]
name = "main"

[spec.types]
feature = "feature"

[feature.logging]
description = "Logging"

[feature.logging.properties]
level = { type = "u8", default = 1 }
"#;

#[test]
fn single_category_selected_by_field_boolean() {
    let spec = Spec::parse_str(TARGET_SCHEMA).unwrap();
    let profile = Profile::parse_str(
        &spec,
        r#"
[profile]
description = "A profile"
bins = ["app"]

[config]

[target]
linux = true
"#,
    )
    .unwrap();
    let flags = profile.cfg_flags_map();
    assert_eq!(
        entries(&flags),
        vec![("target".to_string(), Value::String("linux".to_string()))]
    );
    assert_eq!(
        profile.rustc_cfg_flags(),
        vec!["--cfg".to_string(), "'target=\"linux\"'".to_string()]
    );
}

#[test]
fn property_default_is_projected() {
    let spec = Spec::parse_str(FEATURE_SCHEMA).unwrap();
    let profile = Profile::parse_str(
        &spec,
        r#"
[profile]
description = "A profile"
libs = ["core"]

[config]

[feature.logging]
"#,
    )
    .unwrap();
    let flags = profile.cfg_flags_map();
    assert_eq!(flags.get("feature_logging"), Some(&Value::Bool(true)));
    assert_eq!(flags.get("feature_logging_level"), Some(&Value::U8(1)));
    assert_eq!(flags.len(), 2);
    assert_eq!(
        profile.rustc_cfg_flags(),
        vec![
            "--cfg".to_string(),
            "'feature_logging'".to_string(),
            "--cfg".to_string(),
            "'feature_logging_level=1'".to_string(),
        ]
    );
}
