use pbuild::load::LoadError;
use pbuild::profile::Error as ProfileError;
use pbuild::schema::{FieldsError, SpecError};
use pbuild::sections::Error as SchemaError;

#[test]
fn spec_error_texts() {
    assert_eq!(SpecError::SpecMissing.message(), "[spec] section not found.");
    assert_eq!(
        SpecError::MissingField("name").message(),
        "[spec] is missing a `name` field."
    );
    assert_eq!(
        SpecError::InvalidFieldType("types", "map<string, string>").message(),
        "`types` field in [spec] is not of type `map<string, string>`."
    );
    assert_eq!(
        SpecError::InvalidTypeValue("b".to_string()).message(),
        "Value for key `b` in [spec.types] is not of type `string`."
    );
}

#[test]
fn fields_error_texts() {
    assert_eq!(
        FieldsError::ExcessKeys("a, b".to_string()).message(),
        "Undefined types were found: a, b"
    );
    assert_eq!(
        FieldsError::MissingKeys("c".to_string()).message(),
        "Defined types are missing sections: c"
    );
    assert_eq!(
        FieldsError::MismatchedKeys { excess: "a".to_string(), missing: "c".to_string() }
            .message(),
        "Undefined types were found: a; defined types are missing sections: c"
    );
    assert_eq!(
        FieldsError::MissingField("a.f".to_string(), "description").message(),
        "[a.f] is missing a `description` field."
    );
    assert_eq!(
        FieldsError::InvalidFieldType { field: "a.f".to_string(), key: "default", ty: "u8" }
            .message(),
        "`default` field in [a.f] is not of type `u8`."
    );
    assert_eq!(
        FieldsError::SectionMissing("a.f".to_string()).message(),
        "[a.f] section not found or wrong type."
    );
    assert_eq!(
        FieldsError::InvalidDependency { field: "a.f".to_string(), entry: "x".to_string() }
            .message(),
        "`x` in the dependencies of [a.f] is not a dependency."
    );
}

#[test]
fn schema_error_texts() {
    assert_eq!(
        SchemaError::Spec(SpecError::SpecMissing).message(),
        "Error parsing [spec] table."
    );
    assert_eq!(
        SchemaError::Fields(FieldsError::SectionMissing("a".to_string())).message(),
        "Error parsing type table."
    );
    match pbuild::schema::Spec::parse_str("[") {
        Err(error) => assert_eq!(error.message(), "Could not parse TOML."),
        Ok(_) => panic!("malformed text was read"),
    }
}

#[test]
fn profile_error_texts() {
    assert_eq!(
        ProfileError::NoBinsOrLibs.message(),
        "Either [profile.bins] or [profile.libs] must be provided."
    );
    assert_eq!(
        ProfileError::MissingField("config".to_string()).message(),
        "`config` must be provided."
    );
    assert_eq!(
        ProfileError::InvalidShape("feat.x".to_string()).message(),
        "`feat.x` has the wrong type."
    );
    assert_eq!(
        ProfileError::UnknownType("t".to_string()).message(),
        "No type `t` is defined."
    );
    assert_eq!(
        ProfileError::UnknownField("t.f".to_string()).message(),
        "No field `t.f` is defined."
    );
    assert_eq!(
        ProfileError::UnknownProperty("t.f.p".to_string()).message(),
        "No property `t.f.p` is defined."
    );
    assert_eq!(
        ProfileError::Unsupported("config.t".to_string()).message(),
        "Table values are not supported for `config.t`."
    );
}

#[test]
fn load_error_texts() {
    assert_eq!(LoadError::MissingMainSpec.message(), "No main spec found");
    assert_eq!(
        LoadError::Spec(SchemaError::Spec(SpecError::SpecMissing)).message(),
        "Spec error"
    );
    assert_eq!(
        LoadError::Profile(ProfileError::NoBinsOrLibs).message(),
        "Profile error"
    );
}
