//! Reading the parts of a schema: the properties and fields of a
//! category, and the declaration of the categories.

use vstd::prelude::*;
use vstd::string::StringExecFns;
use crate::assoc;
use crate::document::{Node, NodeView};
use crate::ordered::OrderedMap;
use crate::schema::{
    field_wf, parse_dependencies, prop_wf, result_model, Dependencies, DependencyOpView,
    FieldSpec, FieldSpecView, FieldsError, FieldsErrorView, PropSpec, PropSpecView, Properties,
    Spec, SpecError, SpecErrorView, TypeKey, TypeSpec, TypeSpecView, TypesView,
};
use crate::text;
use crate::value::{Type, Value};

verus! {

/// The property that the node `raw` describes under the path `name`: its
/// `type` names a kind, and its `default`, where it has one, stands for a
/// value of that kind.
pub open spec fn parse_prop(name: Seq<char>, raw: NodeView) -> Result<
    PropSpecView,
    FieldsErrorView,
> {
    match raw.get("type"@) {
        None => Err(FieldsErrorView::MissingField(name, "type"@)),
        Some(node) => match kind_of(node) {
            None => Err(
                FieldsErrorView::InvalidFieldType {
                    field: name,
                    key: "type"@,
                    ty: "Type (string)"@,
                },
            ),
            Some(ty) => match raw.get("default"@) {
                None => Ok(PropSpecView { ty, default: None }),
                Some(default) => match crate::value::coerce(ty, default) {
                    Some(value) => Ok(PropSpecView { ty, default: Some(value) }),
                    None => Err(
                        FieldsErrorView::InvalidFieldType {
                            field: name,
                            key: "default"@,
                            ty: crate::value::name_of_type(ty),
                        },
                    ),
                },
            },
        },
    }
}

/// The kind that a node names.
pub open spec fn kind_of(node: NodeView) -> Option<Type> {
    match node.as_str() {
        Some(name) => crate::value::type_named(name),
        None => None,
    }
}

/// One step of reading the properties under the path `name`: the property
/// of the entry goes under the entry's name.
pub open spec fn prop_step(name: Seq<char>) -> spec_fn(
    Seq<(Seq<char>, PropSpecView)>,
    (Seq<char>, NodeView),
) -> Result<Seq<(Seq<char>, PropSpecView)>, FieldsErrorView> {
    |done: Seq<(Seq<char>, PropSpecView)>, entry: (Seq<char>, NodeView)|
        match parse_prop(name + "."@ + entry.0, entry.1) {
            Ok(prop) => Ok(assoc::put(done, entry.0, prop)),
            Err(error) => Err(error),
        }
}

/// The properties that the table `raw` describes under the path `name`, or
/// the failure of the first entry that describes none.
pub open spec fn parse_properties(name: Seq<char>, raw: Seq<(Seq<char>, NodeView)>) -> Result<
    Seq<(Seq<char>, PropSpecView)>,
    FieldsErrorView,
> {
    assoc::try_fold(raw, Seq::empty(), prop_step(name))
}

/// The properties that are read are well-formed.
pub proof fn lemma_parsed_properties_wf(name: Seq<char>, raw: Seq<(Seq<char>, NodeView)>)
    ensures
        parse_properties(name, raw) matches Ok(props) ==> assoc::all_values(props, prop_wf()),
{
    let kept = |props: Seq<(Seq<char>, PropSpecView)>| assoc::all_values(props, prop_wf());
    let step = prop_step(name);
    assert forall|state: Seq<(Seq<char>, PropSpecView)>, at: int|
        0 <= at < raw.len() && kept(state) && (#[trigger] step(state, raw[at])) is Ok implies kept(
        step(state, raw[at])->Ok_0,
    ) by {
        let prop = parse_prop(name + "."@ + raw[at].0, raw[at].1)->Ok_0;
        assoc::lemma_put_all(state, raw[at].0, prop, prop_wf());
    }
    assoc::lemma_try_fold_keeps(raw, Seq::empty(), step, kept);
}

/// The field that is read is well-formed.
pub proof fn lemma_parsed_field_wf(
    section: Seq<char>,
    types: TypesView,
    raw: Seq<(Seq<char>, NodeView)>,
)
    ensures
        parse_field(section, types, raw) matches Ok(field) ==> field_wf()(field),
{
    if let Some(NodeView::Table(table)) = assoc::get(raw, "properties"@) {
        lemma_parsed_properties_wf(section + ".properties"@, table);
    }
}

impl PropSpec {
    /// Reads the property that `raw` describes under the path `name`.
    pub fn parse(name: &str, raw: &Node) -> (result: Result<PropSpec, FieldsError>)
        ensures
            result_model(result) == parse_prop(name@, raw.deep_view()),
            result matches Ok(prop) ==> prop.deep_view().wf(),
    {
        let ty = match raw.get("type") {
            None => {
                return Err(FieldsError::MissingField(String::from_str(name), "type"));
            },
            Some(node) => {
                let named = match node.as_str() {
                    Some(text) => Type::parse(text),
                    None => None,
                };
                match named {
                    Some(ty) => ty,
                    None => {
                        return Err(
                            FieldsError::InvalidFieldType {
                                field: String::from_str(name),
                                key: "type",
                                ty: "Type (string)",
                            },
                        );
                    },
                }
            },
        };
        let default = match raw.get("default") {
            None => None,
            Some(node) => match Value::new(ty, node) {
                Some(value) => Some(value),
                None => {
                    return Err(
                        FieldsError::InvalidFieldType {
                            field: String::from_str(name),
                            key: "default",
                            ty: ty.as_str(),
                        },
                    );
                },
            },
        };
        Ok(PropSpec { ty, default })
    }
}

impl Properties {
    /// Reads the properties that the table `raw` describes under the path
    /// `name`.
    pub fn parse(name: &str, raw: &Vec<(String, Node)>) -> (result: Result<
        Properties,
        FieldsError,
    >)
        ensures
            result_model(result) == parse_properties(name@, raw.deep_view()),
    {
        let ghost step = prop_step(name@);
        let ghost empty = Seq::<(Seq<char>, PropSpecView)>::empty();
        let mut out: OrderedMap<PropSpec> = OrderedMap::new();
        let mut i: usize = 0;
        proof {
            assert(raw.deep_view().take(0).len() == 0);
        }
        while i < raw.len()
            invariant
                i <= raw.len(),
                step == prop_step(name@),
                empty == Seq::<(Seq<char>, PropSpecView)>::empty(),
                assoc::try_fold(raw.deep_view().take(i as int), empty, step) == Ok::<
                    Seq<(Seq<char>, PropSpecView)>,
                    FieldsErrorView,
                >(out.deep_view()),
            decreases raw.len() - i,
        {
            proof {
                assoc::lemma_try_fold_step(raw.deep_view(), empty, step, i as int);
            }
            let path = text::dotted(name, raw[i].0.as_str());
            match PropSpec::parse(path.as_str(), &raw[i].1) {
                Ok(prop) => {
                    out.insert(raw[i].0.clone(), prop);
                },
                Err(error) => {
                    proof {
                        assoc::lemma_try_fold_fails(raw.deep_view(), empty, step, i + 1);
                    }
                    return Err(error);
                },
            }
            i += 1;
        }
        assert(raw.deep_view().take(i as int) =~= raw.deep_view());
        Ok(Properties(out))
    }
}

/// The dependencies that a field's table `raw` states under the path
/// `section`: those of its `dependencies`, an array of strings; none where
/// it has no such entry.
pub open spec fn parse_field_dependencies(
    section: Seq<char>,
    types: TypesView,
    raw: Seq<(Seq<char>, NodeView)>,
) -> Result<DependencyOpView, FieldsErrorView> {
    let wrong = FieldsErrorView::InvalidFieldType {
        field: section,
        key: "dependencies"@,
        ty: "array<string>"@,
    };
    match assoc::get(raw, "dependencies"@) {
        None => Ok(DependencyOpView::And(Seq::empty())),
        Some(node) => match node.as_array() {
            None => Err(wrong),
            Some(items) => match crate::document::texts_of(items) {
                None => Err(wrong),
                Some(lines) => parse_dependencies(section, lines, types),
            },
        },
    }
}

/// The properties that a field's table `raw` states under the path
/// `section`: those of its `properties`, a table; none where it has no such
/// entry.
pub open spec fn parse_field_properties(section: Seq<char>, raw: Seq<(Seq<char>, NodeView)>)
    -> Result<Seq<(Seq<char>, PropSpecView)>, FieldsErrorView> {
    match assoc::get(raw, "properties"@) {
        None => Ok(Seq::empty()),
        Some(node) => match node.as_table() {
            None => Err(
                FieldsErrorView::InvalidFieldType {
                    field: section,
                    key: "properties"@,
                    ty: "table"@,
                },
            ),
            Some(table) => parse_properties(section + ".properties"@, table),
        },
    }
}

/// The field that the table `raw` describes under the path `section`: its
/// `description`, a string that it must have, its dependencies and its
/// properties. Of several failures the one of the earliest of these three
/// is the result.
pub open spec fn parse_field(
    section: Seq<char>,
    types: TypesView,
    raw: Seq<(Seq<char>, NodeView)>,
) -> Result<FieldSpecView, FieldsErrorView> {
    match assoc::get(raw, "description"@) {
        None => Err(FieldsErrorView::MissingField(section, "description"@)),
        Some(node) => match node.as_str() {
            None => Err(
                FieldsErrorView::InvalidFieldType {
                    field: section,
                    key: "description"@,
                    ty: "string"@,
                },
            ),
            Some(description) => match parse_field_dependencies(section, types, raw) {
                Err(error) => Err(error),
                Ok(dependencies) => match parse_field_properties(section, raw) {
                    Err(error) => Err(error),
                    Ok(properties) => Ok(
                        FieldSpecView { description, dependencies, properties },
                    ),
                },
            },
        },
    }
}

impl FieldSpec {
    /// Reads the field that the table `raw` describes under the path
    /// `section`.
    pub fn parse(section: String, types: &OrderedMap<TypeSpec>, raw: &Vec<(String, Node)>) -> (result:
        Result<FieldSpec, FieldsError>)
        ensures
            result_model(result) == parse_field(section@, types.deep_view(), raw.deep_view()),
    {
        let description = match crate::document::find_entry(raw, "description") {
            None => {
                return Err(FieldsError::MissingField(section, "description"));
            },
            Some(node) => match node.as_str() {
                None => {
                    return Err(
                        FieldsError::InvalidFieldType {
                            field: section,
                            key: "description",
                            ty: "string",
                        },
                    );
                },
                Some(text) => String::from_str(text),
            },
        };
        let dependencies = match crate::document::find_entry(raw, "dependencies") {
            None => Dependencies::empty(),
            Some(node) => {
                let lines = match node.as_array() {
                    None => None,
                    Some(items) => crate::document::strings_of(items),
                };
                match lines {
                    None => {
                        return Err(
                            FieldsError::InvalidFieldType {
                                field: section,
                                key: "dependencies",
                                ty: "array<string>",
                            },
                        );
                    },
                    Some(lines) => match Dependencies::parse(section.as_str(), types, &lines) {
                        Ok(dependencies) => dependencies,
                        Err(error) => {
                            return Err(error);
                        },
                    },
                }
            },
        };
        let properties = match crate::document::find_entry(raw, "properties") {
            None => Properties::empty(),
            Some(node) => match node.as_table() {
                None => {
                    return Err(
                        FieldsError::InvalidFieldType {
                            field: section,
                            key: "properties",
                            ty: "table",
                        },
                    );
                },
                Some(table) => {
                    let path = text::chain(section.as_str(), ".properties");
                    match Properties::parse(path.as_str(), table) {
                        Ok(properties) => properties,
                        Err(error) => {
                            return Err(error);
                        },
                    }
                },
            },
        };
        Ok(FieldSpec { description, dependencies, properties })
    }
}

/// The category that an entry of `types` declares: a string is its outside
/// name; a table holds the name under `key`, a string, and marks the
/// category as single by having an entry `single`.
pub open spec fn parse_type(node: NodeView) -> Option<TypeSpecView> {
    match node {
        NodeView::String(key) => Some(TypeSpecView { key, is_single: false }),
        NodeView::Table(table) => match assoc::get(table, "key"@) {
            Some(NodeView::String(key)) => Some(
                TypeSpecView { key, is_single: assoc::has_key(table, "single"@) },
            ),
            _ => None,
        },
        _ => None,
    }
}

/// One step of reading the categories: the category of the entry goes
/// under the entry's name.
pub open spec fn type_step() -> spec_fn(TypesView, (Seq<char>, NodeView)) -> Result<
    TypesView,
    SpecErrorView,
> {
    |done: TypesView, entry: (Seq<char>, NodeView)|
        match parse_type(entry.1) {
            Some(type_spec) => Ok(assoc::put(done, entry.0, type_spec)),
            None => Err(SpecErrorView::InvalidTypeValue(entry.0)),
        }
}

/// The name and the categories that the `spec` section of the document
/// `doc` declares.
pub open spec fn parse_spec(doc: NodeView) -> Result<(Seq<char>, TypesView), SpecErrorView> {
    match doc.get("spec"@) {
        Some(NodeView::Table(section)) => match assoc::get(section, "name"@) {
            None => Err(SpecErrorView::MissingField("name"@)),
            Some(NodeView::String(name)) => match assoc::get(section, "types"@) {
                None => Err(SpecErrorView::MissingField("types"@)),
                Some(NodeView::Table(types)) => match assoc::try_fold(
                    types,
                    Seq::empty(),
                    type_step(),
                ) {
                    Ok(types) => Ok((name, types)),
                    Err(error) => Err(error),
                },
                Some(_) => Err(
                    SpecErrorView::InvalidFieldType("types"@, "map<string, string>"@),
                ),
            },
            Some(_) => Err(SpecErrorView::InvalidFieldType("name"@, "string"@)),
        },
        _ => Err(SpecErrorView::SpecMissing),
    }
}

impl TypeSpec {
    /// Reads the category that an entry of `types` declares.
    pub fn parse(node: &Node) -> (type_spec: Option<TypeSpec>)
        ensures
            type_spec.deep_view() == parse_type(node.deep_view()),
    {
        proof {
            crate::document::lemma_node_model(*node);
        }
        match node {
            Node::String(key) => Some(TypeSpec { key: TypeKey(key.clone()), is_single: false }),
            Node::Table(table) => {
                let key = match crate::document::find_entry(table, "key") {
                    Some(Node::String(key)) => key.clone(),
                    _ => {
                        return None;
                    },
                };
                let is_single = crate::document::find_entry(table, "single").is_some();
                Some(TypeSpec { key: TypeKey(key), is_single })
            },
            _ => None,
        }
    }
}

impl Spec {
    /// Reads the name and the categories that the `spec` section of `raw`
    /// declares.
    pub fn parse_spec(raw: &Node) -> (result: Result<(String, OrderedMap<TypeSpec>), SpecError>)
        ensures
            result_model(result) == parse_spec(raw.deep_view()),
    {
        let section = match raw.get("spec") {
            Some(node) => match node.as_table() {
                Some(section) => section,
                None => {
                    return Err(SpecError::SpecMissing);
                },
            },
            None => {
                return Err(SpecError::SpecMissing);
            },
        };
        let name = match crate::document::find_entry(section, "name") {
            None => {
                return Err(SpecError::MissingField("name"));
            },
            Some(node) => match node.as_str() {
                Some(name) => String::from_str(name),
                None => {
                    return Err(SpecError::InvalidFieldType("name", "string"));
                },
            },
        };
        let raw_types = match crate::document::find_entry(section, "types") {
            None => {
                return Err(SpecError::MissingField("types"));
            },
            Some(node) => match node.as_table() {
                Some(table) => table,
                None => {
                    return Err(SpecError::InvalidFieldType("types", "map<string, string>"));
                },
            },
        };
        let ghost step = type_step();
        let ghost empty = Seq::<(Seq<char>, TypeSpecView)>::empty();
        let mut types: OrderedMap<TypeSpec> = OrderedMap::new();
        let mut i: usize = 0;
        proof {
            assert(raw_types.deep_view().take(0).len() == 0);
        }
        while i < raw_types.len()
            invariant
                i <= raw_types.len(),
                step == type_step(),
                empty == Seq::<(Seq<char>, TypeSpecView)>::empty(),
                parse_spec(raw.deep_view()) == match assoc::try_fold(
                    raw_types.deep_view(),
                    empty,
                    step,
                ) {
                    Ok(types) => Ok::<(Seq<char>, TypesView), SpecErrorView>((name@, types)),
                    Err(error) => Err(error),
                },
                assoc::try_fold(raw_types.deep_view().take(i as int), empty, step) == Ok::<
                    TypesView,
                    SpecErrorView,
                >(types.deep_view()),
            decreases raw_types.len() - i,
        {
            proof {
                assoc::lemma_try_fold_step(raw_types.deep_view(), empty, step, i as int);
                assert(raw_types.deep_view()[i as int] == (
                    raw_types[i as int].0@,
                    raw_types[i as int].1.deep_view(),
                ));
            }
            match TypeSpec::parse(&raw_types[i].1) {
                Some(type_spec) => {
                    types.insert(raw_types[i].0.clone(), type_spec);
                },
                None => {
                    proof {
                        assoc::lemma_try_fold_fails(raw_types.deep_view(), empty, step, i + 1);
                    }
                    return Err(SpecError::InvalidTypeValue(raw_types[i].0.clone()));
                },
            }
            i += 1;
        }
        assert(raw_types.deep_view().take(i as int) =~= raw_types.deep_view());
        Ok((name, types))
    }
}

} // verus!
