//! Profiles: configurations that have been checked against a schema.

use vstd::prelude::*;
use vstd::string::StringExecFns;
use toml::de::Error as TomlError;
use crate::assoc;
use crate::document::{texts_of, Node, NodeView};
use crate::ordered::OrderedMap;
use crate::replicate::Replicate;
use crate::config::{
    config_known, enable, enable_field, field_spec, fits, lemma_enable_known, parse_props,
    parse_props_of, Config, ConfigView, EnabledView,
};
use crate::schema::{find_by_key, find_type, result_model, FieldKey, FieldSpec, Spec, SpecView, TypeKey};
use crate::sections::sections_of;
use crate::text;
use crate::value::Value;

verus! {

/// A failure to read a profile.
#[derive(Debug)]
pub enum Error {
    /// The text is not well-formed TOML.
    Toml(TomlError),
    /// Neither `bins` nor `libs` names a target.
    NoBinsOrLibs,
    /// Nothing stands under the path, where something must.
    MissingField(String),
    /// What stands under the path has the wrong shape.
    InvalidShape(String),
    /// The schema has no category of this name.
    UnknownType(String),
    /// The schema has no field under this path.
    UnknownField(String),
    /// The schema has no property under this path.
    UnknownProperty(String),
    /// What stands under the path is a form that is reserved.
    Unsupported(String),
}

/// The mathematical value of an [`Error`].
pub enum ErrorView {
    Toml,
    NoBinsOrLibs,
    MissingField(Seq<char>),
    InvalidShape(Seq<char>),
    UnknownType(Seq<char>),
    UnknownField(Seq<char>),
    UnknownProperty(Seq<char>),
    Unsupported(Seq<char>),
}

impl DeepView for Error {
    type V = ErrorView;

    open spec fn deep_view(&self) -> ErrorView {
        match *self {
            Error::Toml(_) => ErrorView::Toml,
            Error::NoBinsOrLibs => ErrorView::NoBinsOrLibs,
            Error::MissingField(path) => ErrorView::MissingField(path@),
            Error::InvalidShape(path) => ErrorView::InvalidShape(path@),
            Error::UnknownType(name) => ErrorView::UnknownType(name@),
            Error::UnknownField(path) => ErrorView::UnknownField(path@),
            Error::UnknownProperty(path) => ErrorView::UnknownProperty(path@),
            Error::Unsupported(path) => ErrorView::Unsupported(path@),
        }
    }
}

/// One step of reading the section of the category with the section name
/// `index` and the outside name `category`. The entry names a field of
/// that category. `true` enables the field, keeping the properties it has;
/// `false` enables nothing; a table enables it with the values the table
/// sets and the defaults of the rest.
pub open spec fn entry_step(spec: SpecView, index: Seq<char>, category: Seq<char>) -> spec_fn(
    ConfigView,
    (Seq<char>, NodeView),
) -> Result<ConfigView, ErrorView> {
    |config: ConfigView, entry: (Seq<char>, NodeView)|
        {
            let path = index + "."@ + entry.0;
            match entry.1 {
                NodeView::Boolean(on) => match field_spec(spec, index, entry.0) {
                    None => Err(ErrorView::UnknownField(path)),
                    Some(_) => if on {
                        Ok(enable(config, category, entry.0, Seq::empty(), false))
                    } else {
                        Ok(config)
                    },
                },
                NodeView::Table(raw) => match field_spec(spec, index, entry.0) {
                    None => Err(ErrorView::UnknownField(path)),
                    Some(field) => match parse_props(path, field, raw) {
                        Err(error) => Err(error),
                        Ok(props) => Ok(enable(config, category, entry.0, props, true)),
                    },
                },
                _ => Err(ErrorView::InvalidShape(path)),
            }
        }
}

/// One step of reading the sections of a profile document. The sections
/// `profile` and `config` are passed over; every other section is named by
/// the section name of a category and must be a table of that category's
/// fields.
pub open spec fn section_step(spec: SpecView) -> spec_fn(ConfigView, (Seq<char>, NodeView))
    -> Result<ConfigView, ErrorView> {
    |config: ConfigView, entry: (Seq<char>, NodeView)|
        if entry.0 == "profile"@ || entry.0 == "config"@ {
            Ok(config)
        } else {
            match assoc::get(spec.types, entry.0) {
                None => Err(ErrorView::UnknownType(entry.0)),
                Some(type_spec) => match entry.1 {
                    NodeView::Table(fields) => assoc::try_fold(
                        fields,
                        config,
                        entry_step(spec, entry.0, type_spec.key),
                    ),
                    _ => Err(ErrorView::InvalidShape(entry.0)),
                },
            }
        }
}

/// One step of reading the `config` table. The entry is named by the
/// outside name of a category, and its value, a string, names the field of
/// that category to enable without properties.
pub open spec fn select_step(spec: SpecView) -> spec_fn(ConfigView, (Seq<char>, NodeView))
    -> Result<ConfigView, ErrorView> {
    |config: ConfigView, entry: (Seq<char>, NodeView)|
        match find_by_key(spec.types, entry.0) {
            None => Err(ErrorView::UnknownType(entry.0)),
            Some(found) => match entry.1 {
                NodeView::String(field) => match field_spec(spec, found.0, field) {
                    None => Err(ErrorView::UnknownField(entry.0 + "."@ + field)),
                    Some(_) => Ok(enable(config, entry.0, field, Seq::empty(), true)),
                },
                NodeView::Table(_) => Err(ErrorView::Unsupported("config"@ + "."@ + entry.0)),
                _ => Err(ErrorView::InvalidShape("config"@ + "."@ + entry.0)),
            },
        }
}

/// The list of names under `key` in the `profile` section of `doc`: the
/// strings of the array that stands there, and no names where no array
/// stands there.
pub open spec fn name_list(doc: NodeView, key: Seq<char>) -> Result<Seq<Seq<char>>, ErrorView> {
    match doc.get("profile"@) {
        None => Ok(Seq::empty()),
        Some(profile) => match profile.get(key) {
            Some(NodeView::Array(items)) => match texts_of(items) {
                Some(names) => Ok(names),
                None => Err(ErrorView::InvalidShape("profile"@ + "."@ + key)),
            },
            _ => Ok(Seq::empty()),
        },
    }
}

/// The description in the `profile` section of `doc`, a string.
pub open spec fn description_of(doc: NodeView) -> Option<Seq<char>> {
    match doc.get("profile"@) {
        None => None,
        Some(profile) => match profile.get("description"@) {
            Some(NodeView::String(description)) => Some(description),
            _ => None,
        },
    }
}

/// The mathematical value of a [`Profile`].
pub struct ProfileView {
    pub spec: SpecView,
    pub description: Seq<char>,
    pub bins: Seq<Seq<char>>,
    pub libs: Seq<Seq<char>>,
    pub features: Seq<Seq<char>>,
    pub config: ConfigView,
}

/// The configuration that the document `doc` states against the schema
/// `spec`: the fields that its `config` table selects, then those that
/// its other sections enable, in the order of the document.
pub open spec fn parse_config(spec: SpecView, doc: NodeView) -> Result<ConfigView, ErrorView> {
    match doc.get("config"@) {
        Some(NodeView::Table(selected)) => match assoc::try_fold(
            selected,
            Seq::empty(),
            select_step(spec),
        ) {
            Err(error) => Err(error),
            Ok(config) => assoc::try_fold(sections_of(doc), config, section_step(spec)),
        },
        _ => Err(ErrorView::MissingField("config"@)),
    }
}

/// The profile that the document `doc` states against the schema `spec`.
/// Of several failures the result is the earliest in this order: the lists
/// `bins` and `libs`, the demand that one of them names a target, the list
/// `features`, the description, the configuration.
pub open spec fn parse_profile(spec: SpecView, doc: NodeView) -> Result<ProfileView, ErrorView> {
    match name_list(doc, "bins"@) {
        Err(error) => Err(error),
        Ok(bins) => match name_list(doc, "libs"@) {
            Err(error) => Err(error),
            Ok(libs) => if bins.len() == 0 && libs.len() == 0 {
                Err(ErrorView::NoBinsOrLibs)
            } else {
                match name_list(doc, "features"@) {
                    Err(error) => Err(error),
                    Ok(features) => match description_of(doc) {
                        None => Err(
                            ErrorView::MissingField("profile"@ + "."@ + "description"@),
                        ),
                        Some(description) => match parse_config(spec, doc) {
                            Err(error) => Err(error),
                            Ok(config) => Ok(
                                ProfileView { spec, description, bins, libs, features, config },
                            ),
                        },
                    },
                }
            },
        },
    }
}

/// The profile that a TOML text states against the schema `spec`.
pub open spec fn parse_profile_text(spec: SpecView, text: Seq<char>) -> Result<
    ProfileView,
    ErrorView,
> {
    match crate::document::toml_document(text) {
        None => Err(ErrorView::Toml),
        Some(doc) => parse_profile(spec, doc),
    }
}

/// The field `field` of the category with the section name `index`.
pub fn lookup_field<'a>(spec: &'a Spec, index: &str, field: &str) -> (found: Option<&'a FieldSpec>)
    ensures
        found.deep_view() == field_spec(spec.deep_view(), index@, field@),
{
    match spec.fields.get(index) {
        Some(fields) => fields.get(field),
        None => None,
    }
}

/// An empty list of names.
fn no_names() -> (names: Vec<String>)
    ensures
        names.deep_view() == Seq::<Seq<char>>::empty(),
{
    let names: Vec<String> = Vec::new();
    assert(names.deep_view() =~= Seq::empty());
    names
}

/// Reads the names under `key` in the `profile` section of `raw`.
pub fn name_list_of(raw: &Node, key: &str) -> (result: Result<Vec<String>, Error>)
    ensures
        result_model(result) == name_list(raw.deep_view(), key@),
{
    let items = match raw.get("profile") {
        None => {
            return Ok(no_names());
        },
        Some(profile) => match profile.get(key) {
            Some(node) => match node.as_array() {
                Some(items) => items,
                None => {
                    return Ok(no_names());
                },
            },
            None => {
                return Ok(no_names());
            },
        },
    };
    match crate::document::strings_of(items) {
        None => Err(Error::InvalidShape(text::dotted("profile", key))),
        Some(texts) => {
            let mut names: Vec<String> = Vec::new();
            let mut i: usize = 0;
            while i < texts.len()
                invariant
                    i <= texts.len(),
                    names.len() == i,
                    forall|j: int| 0 <= j < i ==> names[j]@ == texts[j]@,
                decreases texts.len() - i,
            {
                names.push(String::from_str(texts[i]));
                i += 1;
            }
            assert(names.deep_view() =~= texts.deep_view());
            Ok(names)
        },
    }
}

/// Reads the entries of the section of one category into `config`.
fn read_section(
    spec: &Spec,
    index: &str,
    category: &str,
    fields: &Vec<(String, Node)>,
    start: Config,
) -> (result: Result<Config, Error>)
    requires
        assoc::get(spec.deep_view().types, index@) matches Some(type_spec) && type_spec.key
            == category@,
        config_known(spec.deep_view(), start.deep_view()),
    ensures
        result_model(result) == assoc::try_fold(
            fields.deep_view(),
            start.deep_view(),
            entry_step(spec.deep_view(), index@, category@),
        ),
        result matches Ok(after) ==> config_known(spec.deep_view(), after.deep_view()),
{
    let ghost step = entry_step(spec.deep_view(), index@, category@);
    let ghost init = start.deep_view();
    let mut config = start;
    let mut i: usize = 0;
    proof {
        assert(fields.deep_view().take(0).len() == 0);
    }
    while i < fields.len()
        invariant
            i <= fields.len(),
            init == start.deep_view(),
            step == entry_step(spec.deep_view(), index@, category@),
            assoc::get(spec.deep_view().types, index@) matches Some(type_spec) && type_spec.key
                == category@,
            assoc::try_fold(fields.deep_view().take(i as int), init, step) == Ok::<
                ConfigView,
                ErrorView,
            >(config.deep_view()),
            config_known(spec.deep_view(), config.deep_view()),
        decreases fields.len() - i,
    {
        proof {
            assoc::lemma_try_fold_step(fields.deep_view(), init, step, i as int);
            assoc::lemma_try_fold_fails(fields.deep_view(), init, step, i + 1);
            assert(fields.deep_view()[i as int] == (
                fields[i as int].0@,
                fields[i as int].1.deep_view(),
            ));
            crate::document::lemma_node_model(fields[i as int].1);
        }
        let name = fields[i].0.as_str();
        let path = text::dotted(index, name);
        let ghost before = config.deep_view();
        match &fields[i].1 {
            Node::Boolean(on) => match lookup_field(spec, index, name) {
                None => {
                    return Err(Error::UnknownField(path));
                },
                Some(field) => {
                    if *on {
                        let props: OrderedMap<Value> = OrderedMap::new();
                        proof {
                            assert(fits(
                                spec.deep_view(),
                                index@,
                                category@,
                                name@,
                                props.deep_view(),
                            ));
                            lemma_enable_known(
                                spec.deep_view(),
                                before,
                                category@,
                                name@,
                                props.deep_view(),
                                false,
                            );
                        }
                        enable_field(&mut config, category, name, props, false);
                    }
                },
            },
            Node::Table(raw) => match lookup_field(spec, index, name) {
                None => {
                    return Err(Error::UnknownField(path));
                },
                Some(field) => match parse_props_of(path.as_str(), field, raw) {
                    Err(error) => {
                        return Err(error);
                    },
                    Ok(props) => {
                        proof {
                            assert(fits(
                                spec.deep_view(),
                                index@,
                                category@,
                                name@,
                                props.deep_view(),
                            ));
                            lemma_enable_known(
                                spec.deep_view(),
                                before,
                                category@,
                                name@,
                                props.deep_view(),
                                true,
                            );
                        }
                        enable_field(&mut config, category, name, props, true);
                    },
                },
            },
            _ => {
                return Err(Error::InvalidShape(path));
            },
        }
        i += 1;
    }
    assert(fields.deep_view().take(i as int) =~= fields.deep_view());
    Ok(config)
}

/// Reads the sections of a profile document, other than `profile` and
/// `config`, into `config`.
fn read_sections(spec: &Spec, sections: &Vec<(String, Node)>, start: Config) -> (result: Result<
    Config,
    Error,
>)
    requires
        config_known(spec.deep_view(), start.deep_view()),
    ensures
        result_model(result) == assoc::try_fold(
            sections.deep_view(),
            start.deep_view(),
            section_step(spec.deep_view()),
        ),
        result matches Ok(after) ==> config_known(spec.deep_view(), after.deep_view()),
{
    let ghost step = section_step(spec.deep_view());
    let ghost init = start.deep_view();
    let mut config = start;
    let mut i: usize = 0;
    proof {
        assert(sections.deep_view().take(0).len() == 0);
    }
    while i < sections.len()
        invariant
            i <= sections.len(),
            init == start.deep_view(),
            step == section_step(spec.deep_view()),
            assoc::try_fold(sections.deep_view().take(i as int), init, step) == Ok::<
                ConfigView,
                ErrorView,
            >(config.deep_view()),
            config_known(spec.deep_view(), config.deep_view()),
        decreases sections.len() - i,
    {
        proof {
            assoc::lemma_try_fold_step(sections.deep_view(), init, step, i as int);
            assoc::lemma_try_fold_fails(sections.deep_view(), init, step, i + 1);
            assert(sections.deep_view()[i as int] == (
                sections[i as int].0@,
                sections[i as int].1.deep_view(),
            ));
        }
        let index = sections[i].0.as_str();
        if !text::same_text(index, "profile") && !text::same_text(index, "config") {
            match spec.types.get(index) {
                None => {
                    return Err(Error::UnknownType(String::from_str(index)));
                },
                Some(type_spec) => match sections[i].1.as_table() {
                    None => {
                        return Err(Error::InvalidShape(String::from_str(index)));
                    },
                    Some(fields) => match read_section(
                        spec,
                        index,
                        type_spec.key.as_str(),
                        fields,
                        config,
                    ) {
                        Ok(after) => {
                            config = after;
                        },
                        Err(error) => {
                            return Err(error);
                        },
                    },
                },
            }
        }
        i += 1;
    }
    assert(sections.deep_view().take(i as int) =~= sections.deep_view());
    Ok(config)
}

/// The category that is found by its outside name is the one that stands
/// under its own section name.
pub proof fn lemma_found_by_key(types: crate::schema::TypesView, key: Seq<char>)
    requires
        assoc::distinct(types),
    ensures
        find_by_key(types, key) matches Some(found) ==> found.1.key == key && assoc::get(
            types,
            found.0,
        ) == Some(found.1),
{
    let keyed = crate::schema::by_key(types);
    assoc::lemma_index_of(keyed, key);
    if let Some(at) = assoc::index_of(keyed, key) {
        assoc::lemma_index_of_first(types, types[at].0, at);
    }
}

/// Reads the `config` table of a profile document.
fn read_selection(spec: &Spec, selected: &Vec<(String, Node)>) -> (result: Result<Config, Error>)
    ensures
        result_model(result) == assoc::try_fold(
            selected.deep_view(),
            Seq::empty(),
            select_step(spec.deep_view()),
        ),
        result matches Ok(after) ==> config_known(spec.deep_view(), after.deep_view()),
{
    let ghost step = select_step(spec.deep_view());
    let ghost init = Seq::<(Seq<char>, EnabledView)>::empty();
    let mut config: Config = OrderedMap::new();
    let mut i: usize = 0;
    proof {
        assert(selected.deep_view().take(0).len() == 0);
    }
    while i < selected.len()
        invariant
            i <= selected.len(),
            init == Seq::<(Seq<char>, EnabledView)>::empty(),
            step == select_step(spec.deep_view()),
            assoc::try_fold(selected.deep_view().take(i as int), init, step) == Ok::<
                ConfigView,
                ErrorView,
            >(config.deep_view()),
            config_known(spec.deep_view(), config.deep_view()),
        decreases selected.len() - i,
    {
        proof {
            assoc::lemma_try_fold_step(selected.deep_view(), init, step, i as int);
            assoc::lemma_try_fold_fails(selected.deep_view(), init, step, i + 1);
            assert(selected.deep_view()[i as int] == (
                selected[i as int].0@,
                selected[i as int].1.deep_view(),
            ));
            crate::document::lemma_node_model(selected[i as int].1);
        }
        let category = selected[i].0.as_str();
        spec.types.keys_are_distinct();
        let ghost before = config.deep_view();
        match find_type(&spec.types, category) {
            None => {
                return Err(Error::UnknownType(String::from_str(category)));
            },
            Some((index, _)) => match &selected[i].1 {
                Node::String(field) => match lookup_field(spec, index.as_str(), field.as_str()) {
                    None => {
                        return Err(Error::UnknownField(text::dotted(category, field.as_str())));
                    },
                    Some(_) => {
                        let props: OrderedMap<Value> = OrderedMap::new();
                        proof {
                            lemma_found_by_key(spec.deep_view().types, category@);
                            assert(fits(
                                spec.deep_view(),
                                index@,
                                category@,
                                field@,
                                props.deep_view(),
                            ));
                            lemma_enable_known(
                                spec.deep_view(),
                                before,
                                category@,
                                field@,
                                props.deep_view(),
                                true,
                            );
                        }
                        enable_field(&mut config, category, field.as_str(), props, true);
                    },
                },
                Node::Table(_) => {
                    return Err(Error::Unsupported(text::dotted("config", category)));
                },
                _ => {
                    return Err(Error::InvalidShape(text::dotted("config", category)));
                },
            },
        }
        i += 1;
    }
    assert(selected.deep_view().take(i as int) =~= selected.deep_view());
    Ok(config)
}

/// Reads the configuration that the document `raw` states against the
/// schema `spec`.
pub fn read_config(spec: &Spec, raw: &Node) -> (result: Result<Config, Error>)
    ensures
        result_model(result) == parse_config(spec.deep_view(), raw.deep_view()),
        result matches Ok(config) ==> config_known(spec.deep_view(), config.deep_view()),
{
    let selected = match raw.get("config") {
        Some(node) => match node.as_table() {
            Some(selected) => selected,
            None => {
                return Err(Error::MissingField(String::from_str("config")));
            },
        },
        None => {
            return Err(Error::MissingField(String::from_str("config")));
        },
    };
    let config = match read_selection(spec, selected) {
        Ok(config) => config,
        Err(error) => {
            return Err(error);
        },
    };
    match raw.as_table() {
        Some(sections) => read_sections(spec, sections, config),
        None => Ok(config),
    }
}

impl ProfileView {
    /// A profile names a target, and every field that it enables, with its
    /// properties, is known to its schema.
    pub open spec fn wf(self) -> bool {
        &&& self.bins.len() > 0 || self.libs.len() > 0
        &&& config_known(self.spec, self.config)
    }
}

/// A configuration that has been checked against a schema: the targets to
/// build, and the enabled fields of each category with the values of their
/// properties.
#[derive(Debug)]
pub struct Profile {
    spec: Spec,
    description: String,
    bins: Vec<String>,
    libs: Vec<String>,
    features: Vec<String>,
    config: Config,
}

impl DeepView for Profile {
    type V = ProfileView;

    closed spec fn deep_view(&self) -> ProfileView {
        ProfileView {
            spec: self.spec.deep_view(),
            description: self.description@,
            bins: self.bins.deep_view(),
            libs: self.libs.deep_view(),
            features: self.features.deep_view(),
            config: self.config.deep_view(),
        }
    }
}

impl Replicate for Profile {
    fn replicate(&self) -> (copy: Profile) {
        proof {
            use_type_invariant(self);
        }
        Profile {
            spec: self.spec.replicate(),
            description: self.description.clone(),
            bins: self.bins.replicate(),
            libs: self.libs.replicate(),
            features: self.features.replicate(),
            config: self.config.replicate(),
        }
    }
}

impl Clone for Profile {
    fn clone(&self) -> (copy: Profile)
        ensures
            copy.deep_view() == self.deep_view(),
    {
        self.replicate()
    }
}

impl Profile {
    #[verifier::type_invariant]
    spec fn well_formed(self) -> bool {
        self.deep_view().wf()
    }

    /// The schema that the profile was checked against.
    pub fn spec(&self) -> (spec: &Spec)
        ensures
            spec.deep_view() == self.deep_view().spec,
            self.deep_view().wf(),
    {
        proof {
            use_type_invariant(self);
        }
        &self.spec
    }

    /// The description of the profile.
    pub fn description(&self) -> (description: &str)
        ensures
            description@ == self.deep_view().description,
    {
        self.description.as_str()
    }

    /// The binary targets.
    pub fn bins(&self) -> (bins: &Vec<String>)
        ensures
            bins.deep_view() == self.deep_view().bins,
    {
        &self.bins
    }

    /// The library targets.
    pub fn libs(&self) -> (libs: &Vec<String>)
        ensures
            libs.deep_view() == self.deep_view().libs,
    {
        &self.libs
    }

    /// The features to build with.
    pub fn features(&self) -> (features: &Vec<String>)
        ensures
            features.deep_view() == self.deep_view().features,
    {
        &self.features
    }

    /// The enabled fields of each category, with the values of their
    /// properties.
    pub fn config(&self) -> (config: &Config)
        ensures
            config.deep_view() == self.deep_view().config,
    {
        &self.config
    }

    /// The properties with which the field `field` of the category with
    /// the outside name `category` is enabled, if it is enabled.
    pub fn enabled(&self, category: &TypeKey, field: &FieldKey) -> (props: Option<
        &OrderedMap<Value>,
    >)
        ensures
            props.deep_view() == match assoc::get(
                self.deep_view().config,
                category.deep_view(),
            ) {
                Some(enabled) => assoc::get(enabled, field.deep_view()),
                None => None,
            },
    {
        match self.config.get(category.as_str()) {
            Some(enabled) => enabled.get(field.as_str()),
            None => None,
        }
    }

    /// Reads the profile that the document `raw` states against the schema
    /// `spec`.
    pub fn parse(spec: &Spec, raw: &Node) -> (result: Result<Profile, Error>)
        ensures
            result_model(result) == parse_profile(spec.deep_view(), raw.deep_view()),
            result matches Ok(profile) ==> profile.deep_view().wf(),
    {
        let bins = match name_list_of(raw, "bins") {
            Ok(bins) => bins,
            Err(error) => {
                return Err(error);
            },
        };
        let libs = match name_list_of(raw, "libs") {
            Ok(libs) => libs,
            Err(error) => {
                return Err(error);
            },
        };
        if bins.len() == 0 && libs.len() == 0 {
            return Err(Error::NoBinsOrLibs);
        }
        let features = match name_list_of(raw, "features") {
            Ok(features) => features,
            Err(error) => {
                return Err(error);
            },
        };
        let found = match raw.get("profile") {
            None => None,
            Some(profile) => match profile.get("description") {
                Some(node) => node.as_str(),
                None => None,
            },
        };
        let description = match found {
            Some(description) => String::from_str(description),
            None => {
                return Err(
                    Error::MissingField(
                        text::chain(text::chain("profile", ".").as_str(), "description"),
                    ),
                );
            },
        };
        let config = match read_config(spec, raw) {
            Ok(config) => config,
            Err(error) => {
                return Err(error);
            },
        };
        Ok(Profile { spec: spec.replicate(), description, bins, libs, features, config })
    }

    /// Reads the profile that the TOML text `s` states against the schema
    /// `spec`.
    pub fn parse_str(spec: &Spec, s: &str) -> (result: Result<Profile, Error>)
        ensures
            result_model(result) == parse_profile_text(spec.deep_view(), s@),
            result matches Ok(profile) ==> profile.deep_view().wf(),
    {
        match crate::document::decode(s) {
            Ok(raw) => Profile::parse(spec, &raw),
            Err(error) => Err(Error::Toml(error)),
        }
    }
}

} // verus!
