//! The texts in which failures are reported.

use vstd::prelude::*;
use vstd::string::StringExecFns;
use crate::load::{LoadError, LoadErrorView};
use crate::schema::{FieldsError, FieldsErrorView, SpecError, SpecErrorView};

verus! {

/// The text that reports a failure in the `spec` section.
pub open spec fn spec_error_text(error: SpecErrorView) -> Seq<char> {
    match error {
        SpecErrorView::SpecMissing => "[spec] section not found."@,
        SpecErrorView::MissingField(field) => "[spec] is missing a `"@ + field + "` field."@,
        SpecErrorView::InvalidFieldType(field, ty) => "`"@ + field
            + "` field in [spec] is not of type `"@ + ty + "`."@,
        SpecErrorView::InvalidTypeValue(key) => "Value for key `"@ + key
            + "` in [spec.types] is not of type `string`."@,
    }
}

/// The text that reports a failure in the sections of fields.
pub open spec fn fields_error_text(error: FieldsErrorView) -> Seq<char> {
    match error {
        FieldsErrorView::ExcessKeys(keys) => "Undefined types were found: "@ + keys,
        FieldsErrorView::MissingKeys(keys) => "Defined types are missing sections: "@ + keys,
        FieldsErrorView::MismatchedKeys { excess, missing } => "Undefined types were found: "@
            + excess + "; defined types are missing sections: "@ + missing,
        FieldsErrorView::MissingField(section, field) => "["@ + section + "] is missing a `"@
            + field + "` field."@,
        FieldsErrorView::InvalidFieldType { field, key, ty } => "`"@ + key + "` field in ["@
            + field + "] is not of type `"@ + ty + "`."@,
        FieldsErrorView::SectionMissing(section) => "["@ + section
            + "] section not found or wrong type."@,
        FieldsErrorView::InvalidDependency { field, entry } => "`"@ + entry
            + "` in the dependencies of ["@ + field + "] is not a dependency."@,
    }
}

/// The text that reports a failure to read a schema.
pub open spec fn schema_error_text(error: crate::sections::ErrorView) -> Seq<char> {
    match error {
        crate::sections::ErrorView::InvalidToml => "Could not parse TOML."@,
        crate::sections::ErrorView::Spec(_) => "Error parsing [spec] table."@,
        crate::sections::ErrorView::Fields(_) => "Error parsing type table."@,
    }
}

/// The text that reports a failure to read a profile.
pub open spec fn profile_error_text(error: crate::profile::ErrorView) -> Seq<char> {
    match error {
        crate::profile::ErrorView::Toml => "Error parsing TOML profile file."@,
        crate::profile::ErrorView::NoBinsOrLibs =>
            "Either [profile.bins] or [profile.libs] must be provided."@,
        crate::profile::ErrorView::MissingField(path) => "`"@ + path + "` must be provided."@,
        crate::profile::ErrorView::InvalidShape(path) => "`"@ + path + "` has the wrong type."@,
        crate::profile::ErrorView::UnknownType(name) => "No type `"@ + name + "` is defined."@,
        crate::profile::ErrorView::UnknownField(path) => "No field `"@ + path + "` is defined."@,
        crate::profile::ErrorView::UnknownProperty(path) => "No property `"@ + path
            + "` is defined."@,
        crate::profile::ErrorView::Unsupported(path) => "Table values are not supported for `"@
            + path + "`."@,
    }
}

/// The text that reports a failure to load a project.
pub open spec fn load_error_text(error: LoadErrorView) -> Seq<char> {
    match error {
        LoadErrorView::MissingMainSpec => "No main spec found"@,
        LoadErrorView::Spec(_) => "Spec error"@,
        LoadErrorView::Profile(_) => "Profile error"@,
    }
}

/// Three texts one after the other.
fn chain3(a: &str, b: &str, c: &str) -> (text: String)
    ensures
        text@ == a@ + b@ + c@,
{
    let mut text = String::from_str(a);
    text.append(b);
    text.append(c);
    text
}

/// Five texts one after the other.
fn chain5(a: &str, b: &str, c: &str, d: &str, e: &str) -> (text: String)
    ensures
        text@ == a@ + b@ + c@ + d@ + e@,
{
    let mut text = chain3(a, b, c);
    text.append(d);
    text.append(e);
    text
}

/// Seven texts one after the other.
fn chain7(a: &str, b: &str, c: &str, d: &str, e: &str, f: &str, g: &str) -> (text: String)
    ensures
        text@ == a@ + b@ + c@ + d@ + e@ + f@ + g@,
{
    let mut text = chain5(a, b, c, d, e);
    text.append(f);
    text.append(g);
    text
}

impl SpecError {
    /// The text that reports the failure.
    pub fn message(&self) -> (text: String)
        ensures
            text@ == spec_error_text(self.deep_view()),
    {
        match self {
            SpecError::SpecMissing => String::from_str("[spec] section not found."),
            SpecError::MissingField(field) => chain3("[spec] is missing a `", field, "` field."),
            SpecError::InvalidFieldType(field, ty) => chain5(
                "`",
                field,
                "` field in [spec] is not of type `",
                ty,
                "`.",
            ),
            SpecError::InvalidTypeValue(key) => chain3(
                "Value for key `",
                key.as_str(),
                "` in [spec.types] is not of type `string`.",
            ),
        }
    }
}

impl FieldsError {
    /// The text that reports the failure.
    pub fn message(&self) -> (text: String)
        ensures
            text@ == fields_error_text(self.deep_view()),
    {
        match self {
            FieldsError::ExcessKeys(keys) => crate::text::chain(
                "Undefined types were found: ",
                keys.as_str(),
            ),
            FieldsError::MissingKeys(keys) => crate::text::chain(
                "Defined types are missing sections: ",
                keys.as_str(),
            ),
            FieldsError::MismatchedKeys { excess, missing } => {
                let mut text = chain3(
                    "Undefined types were found: ",
                    excess.as_str(),
                    "; defined types are missing sections: ",
                );
                text.append(missing.as_str());
                text
            },
            FieldsError::MissingField(section, field) => chain5(
                "[",
                section.as_str(),
                "] is missing a `",
                field,
                "` field.",
            ),
            FieldsError::InvalidFieldType { field, key, ty } => chain7(
                "`",
                key,
                "` field in [",
                field.as_str(),
                "] is not of type `",
                ty,
                "`.",
            ),
            FieldsError::SectionMissing(section) => chain3(
                "[",
                section.as_str(),
                "] section not found or wrong type.",
            ),
            FieldsError::InvalidDependency { field, entry } => chain5(
                "`",
                entry.as_str(),
                "` in the dependencies of [",
                field.as_str(),
                "] is not a dependency.",
            ),
        }
    }
}

impl crate::sections::Error {
    /// The text that reports the failure.
    pub fn message(&self) -> (text: String)
        ensures
            text@ == schema_error_text(self.deep_view()),
    {
        match self {
            crate::sections::Error::InvalidToml(_) => String::from_str("Could not parse TOML."),
            crate::sections::Error::Spec(_) => String::from_str("Error parsing [spec] table."),
            crate::sections::Error::Fields(_) => String::from_str("Error parsing type table."),
        }
    }
}

impl crate::profile::Error {
    /// The text that reports the failure.
    pub fn message(&self) -> (text: String)
        ensures
            text@ == profile_error_text(self.deep_view()),
    {
        match self {
            crate::profile::Error::Toml(_) => String::from_str("Error parsing TOML profile file."),
            crate::profile::Error::NoBinsOrLibs => String::from_str(
                "Either [profile.bins] or [profile.libs] must be provided.",
            ),
            crate::profile::Error::MissingField(path) => chain3(
                "`",
                path.as_str(),
                "` must be provided.",
            ),
            crate::profile::Error::InvalidShape(path) => chain3(
                "`",
                path.as_str(),
                "` has the wrong type.",
            ),
            crate::profile::Error::UnknownType(name) => chain3(
                "No type `",
                name.as_str(),
                "` is defined.",
            ),
            crate::profile::Error::UnknownField(path) => chain3(
                "No field `",
                path.as_str(),
                "` is defined.",
            ),
            crate::profile::Error::UnknownProperty(path) => chain3(
                "No property `",
                path.as_str(),
                "` is defined.",
            ),
            crate::profile::Error::Unsupported(path) => chain3(
                "Table values are not supported for `",
                path.as_str(),
                "`.",
            ),
        }
    }
}

impl LoadError {
    /// The text that reports the failure.
    pub fn message(&self) -> (text: String)
        ensures
            text@ == load_error_text(self.deep_view()),
    {
        match self {
            LoadError::MissingMainSpec => String::from_str("No main spec found"),
            LoadError::Spec(_) => String::from_str("Spec error"),
            LoadError::Profile(_) => String::from_str("Profile error"),
        }
    }
}

} // verus!
