use pbuild::load::{load_data, load_profiles, load_specs, LoadError};
use pbuild::profile::Error as ProfileError;
use pbuild::sections::Error as SchemaError;

const MAIN: &str = "[spec]\nname = \"main\"\n[spec.types]\nfeat = \"feature\"\n[feat.a]\ndescription = \"a\"\n";
const SIDE: &str = "[spec]\nname = \"side\"\n[spec.types]\n";
const DEV: &str = "[profile]\ndescription = \"dev\"\nbins = [\"app\"]\n[config]\n[feat]\na = true\n";
const REL: &str = "[profile]\ndescription = \"rel\"\nlibs = [\"core\"]\n[config]\n";

fn files(items: &[(&str, &str)]) -> Vec<(String, String)> {
    items
        .iter()
        .map(|(name, text)| (name.to_string(), text.to_string()))
        .collect()
}

#[test]
fn load_reads_specs_and_profiles() {
    let (specs, profiles) = load_data(
        &files(&[("side", SIDE), ("main", MAIN)]),
        &files(&[("rel", REL), ("dev", DEV)]),
    )
    .unwrap();
    assert_eq!(specs.len(), 2);
    assert_eq!(specs.get_index(0).unwrap().0, "side");
    assert_eq!(specs.get("main").unwrap().name, "main");
    assert_eq!(profiles.len(), 2);
    assert_eq!(profiles.get_index(0).unwrap().0, "rel");
    assert_eq!(profiles.get("dev").unwrap().description(), "dev");
    assert_eq!(
        profiles.get("dev").unwrap().rustc_cfg_flags(),
        vec!["--cfg".to_string(), "'feature_a'".to_string()]
    );
}

#[test]
fn load_needs_a_main_spec() {
    assert!(matches!(
        load_data(&files(&[("side", SIDE)]), &files(&[("dev", DEV)])),
        Err(LoadError::MissingMainSpec)
    ));
    assert!(matches!(
        load_data(&files(&[]), &files(&[])),
        Err(LoadError::MissingMainSpec)
    ));
}

#[test]
fn load_stops_at_the_first_failure() {
    assert!(matches!(
        load_data(&files(&[("main", MAIN), ("bad", "[spec")]), &files(&[("dev", "[")])),
        Err(LoadError::Spec(SchemaError::InvalidToml(_)))
    ));
    assert!(matches!(
        load_data(&files(&[("side", "x = 1")]), &files(&[])),
        Err(LoadError::Spec(SchemaError::Spec(_)))
    ));
    assert!(matches!(
        load_data(&files(&[("main", MAIN)]), &files(&[("rel", REL), ("dev", "[profile]")])),
        Err(LoadError::Profile(ProfileError::NoBinsOrLibs))
    ));
}

#[test]
fn profiles_are_read_against_main() {
    let result = load_data(
        &files(&[("main", SIDE), ("other", MAIN)]),
        &files(&[("dev", DEV)]),
    );
    match result {
        Err(LoadError::Profile(ProfileError::UnknownType(name))) => assert_eq!(name, "feat"),
        other => panic!("unexpected {:?}", other),
    }
}

#[test]
fn later_file_of_a_name_replaces_the_earlier() {
    let specs = load_specs(&files(&[("main", SIDE), ("x", SIDE), ("main", MAIN)])).unwrap();
    assert_eq!(specs.len(), 2);
    assert_eq!(specs.get_index(0).unwrap().0, "main");
    assert_eq!(specs.get("main").unwrap().types.len(), 1);
    let profiles = load_profiles(specs.get("main").unwrap(), &files(&[("p", DEV)])).unwrap();
    assert_eq!(profiles.len(), 1);
}

#[test]
fn failures_convert_upwards() {
    let schema: SchemaError = pbuild::schema::SpecError::SpecMissing.into();
    assert!(matches!(schema, SchemaError::Spec(pbuild::schema::SpecError::SpecMissing)));
    let fields: SchemaError = pbuild::schema::FieldsError::ExcessKeys("a".to_string()).into();
    assert!(matches!(fields, SchemaError::Fields(_)));
    let load: LoadError = schema.into();
    assert!(matches!(load, LoadError::Spec(_)));
    let load: LoadError = ProfileError::NoBinsOrLibs.into();
    assert!(matches!(load, LoadError::Profile(ProfileError::NoBinsOrLibs)));
}
