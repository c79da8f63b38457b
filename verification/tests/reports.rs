use pbuild::profile::Profile;
use pbuild::report::show;
use pbuild::schema::Spec;
use pbuild::value::Value;

const SCHEMA: &str = r#"
[spec]
name = "main"

[spec.types]
target = { key = "target", single = true }
feat = "feature"

[target.linux]
description = "Linux"

[feat.logging]
description = "Logging"

[feat.logging.properties]
level = { type = "u8", default = 1 }
sink = { type = "string" }
color = { type = "bool", default = false }
"#;

#[test]
fn summary_of_a_full_profile() {
    let spec = Spec::parse_str(SCHEMA).unwrap();
    let profile = Profile::parse_str(
        &spec,
        "[profile]\ndescription = \"Development\"\nbins = [\"app\", \"pkg/tool\"]\nlibs = [\"core\"]\nfeatures = [\"f1\", \"f2\"]\n[config]\ntarget = \"linux\"\n[feat.logging]\nsink = \"file\"\n",
    )
    .unwrap();
    let expected = "Development\n\n\
Binaries:\n  app\n  pkg/tool\n\
Libraries:\n  core\n\
Features:\n  f1\n  f2\n\
\n\
target.linux: enabled\n\
feature.logging: enabled\n\
\x20 feature.logging.sink = file\n\
\x20 feature.logging.level = 1\n\
\x20 feature.logging.color = false\n\
\n\
Rust compiler flags:\n\
\x20 --cfg 'target=\"linux\"' --cfg 'feature_logging' --cfg 'feature_logging_sink=\"file\"' --cfg 'feature_logging_level=1'\n\n\
Cargo flags:\n\
\x20 --bin app --features \"f1\",\"f2\"\n\
\x20 -p pkg --bin tool --features \"f1\",\"f2\"\n\
\x20 --lib core --features \"f1\",\"f2\"\n";
    assert_eq!(profile.summary(), expected);
}

#[test]
fn summary_of_a_bare_profile() {
    let spec = Spec::parse_str(SCHEMA).unwrap();
    let profile = Profile::parse_str(
        &spec,
        "[profile]\ndescription = \"Bare\"\nlibs = [\"core\"]\n[config]\n",
    )
    .unwrap();
    assert_eq!(
        profile.summary(),
        "Bare\n\nLibraries:\n  core\n\n\nRust compiler flags:\n  \n\nCargo flags:\n  --lib core\n"
    );
}

#[test]
fn values_are_shown_by_kind() {
    assert_eq!(show(&Value::String("a \"b\"".to_string())), "a \"b\"");
    assert_eq!(show(&Value::Bool(true)), "true");
    assert_eq!(show(&Value::Bool(false)), "false");
    assert_eq!(show(&Value::U8(7)), "7");
    assert_eq!(show(&Value::U16(7)), "7");
    assert_eq!(show(&Value::U32(7)), "7");
    assert_eq!(show(&Value::U64(7)), "7");
    assert_eq!(show(&Value::I8(-7)), "-7");
    assert_eq!(show(&Value::I16(-7)), "-7");
    assert_eq!(show(&Value::I32(-7)), "-7");
    assert_eq!(show(&Value::I64(-7)), "-7");
    assert_eq!(show(&Value::Uuid(1)), "00000000-0000-0000-0000-000000000001");
}
