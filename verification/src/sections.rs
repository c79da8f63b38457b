//! Reading a whole schema document: the cross-check of its sections
//! against the declared categories, and the fields of each section.

use vstd::prelude::*;
use vstd::string::StringExecFns;
use toml::de::Error as TomlError;
use crate::assoc;
use crate::document::{Node, NodeView};
use crate::ordered::OrderedMap;
use crate::fields::{parse_field, parse_spec};
use crate::schema::{
    result_model, FieldSpec, FieldSpecView, FieldsError, FieldsErrorView, FieldsView, Spec,
    SpecError, SpecErrorView, SpecView, TypeSpec, TypesView,
};
use crate::text;

verus! {

/// The sections of a document, by name.
pub type SectionsView = Seq<(Seq<char>, NodeView)>;

/// The sections of `doc`, other than `spec`, that `types` does not declare.
pub open spec fn excess_sections(doc: SectionsView, types: TypesView) -> Seq<Seq<char>> {
    assoc::unmatched(assoc::keys(doc), types, "spec"@)
}

/// The categories of `types`, other than `spec`, that have no section in
/// `doc`.
pub open spec fn missing_sections(doc: SectionsView, types: TypesView) -> Seq<Seq<char>> {
    assoc::unmatched(assoc::keys(types), doc, "spec"@)
}

/// The failure of the cross-check of sections against categories, if it
/// fails: it names every undeclared section and every category without a
/// section, each list joined by a comma and a space.
pub open spec fn check_sections(doc: SectionsView, types: TypesView) -> Option<FieldsErrorView> {
    let excess = excess_sections(doc, types);
    let missing = missing_sections(doc, types);
    if excess.len() > 0 && missing.len() > 0 {
        Some(
            FieldsErrorView::MismatchedKeys {
                excess: text::joined(excess, ", "@),
                missing: text::joined(missing, ", "@),
            },
        )
    } else if excess.len() > 0 {
        Some(FieldsErrorView::ExcessKeys(text::joined(excess, ", "@)))
    } else if missing.len() > 0 {
        Some(FieldsErrorView::MissingKeys(text::joined(missing, ", "@)))
    } else {
        None
    }
}

/// One step of reading the fields of the category `index`: the entry must
/// be a table, and the field it describes goes under the entry's name.
pub open spec fn field_step(index: Seq<char>, types: TypesView) -> spec_fn(
    FieldsView,
    (Seq<char>, NodeView),
) -> Result<FieldsView, FieldsErrorView> {
    |done: FieldsView, entry: (Seq<char>, NodeView)|
        match entry.1 {
            NodeView::Table(table) => match parse_field(index + "."@ + entry.0, types, table) {
                Ok(field) => Ok(assoc::put(done, entry.0, field)),
                Err(error) => Err(error),
            },
            _ => Err(FieldsErrorView::SectionMissing(index + "."@ + entry.0)),
        }
}

/// The fields of the category `index`: those of its section in `doc`,
/// which must be a table.
pub open spec fn parse_section(index: Seq<char>, doc: SectionsView, types: TypesView) -> Result<
    FieldsView,
    FieldsErrorView,
> {
    match assoc::get(doc, index) {
        Some(NodeView::Table(section)) => assoc::try_fold(
            section,
            Seq::empty(),
            field_step(index, types),
        ),
        _ => Err(FieldsErrorView::SectionMissing(index)),
    }
}

/// One step of reading the sections: the fields of the category go under
/// its section name.
pub open spec fn section_step(doc: SectionsView, types: TypesView) -> spec_fn(
    Seq<(Seq<char>, FieldsView)>,
    (Seq<char>, crate::schema::TypeSpecView),
) -> Result<Seq<(Seq<char>, FieldsView)>, FieldsErrorView> {
    |done: Seq<(Seq<char>, FieldsView)>, entry: (Seq<char>, crate::schema::TypeSpecView)|
        match parse_section(entry.0, doc, types) {
            Ok(fields) => Ok(assoc::put(done, entry.0, fields)),
            Err(error) => Err(error),
        }
}

/// The fields of every category of `types`, read from the sections of
/// `doc`, after the cross-check of sections against categories.
pub open spec fn parse_fields(doc: SectionsView, types: TypesView) -> Result<
    Seq<(Seq<char>, FieldsView)>,
    FieldsErrorView,
> {
    match check_sections(doc, types) {
        Some(error) => Err(error),
        None => assoc::try_fold(types, Seq::empty(), section_step(doc, types)),
    }
}

/// The fields that are read, of one category and of all, are well-formed.
pub proof fn lemma_parsed_fields_wf(doc: SectionsView, types: TypesView)
    ensures
        forall|index: Seq<char>|
            #[trigger] parse_section(index, doc, types) matches Ok(fields)
                ==> crate::schema::fields_wf()(fields),
        parse_fields(doc, types) matches Ok(all) ==> assoc::all_values(
            all,
            crate::schema::fields_wf(),
        ),
{
    assert forall|index: Seq<char>| #[trigger]
        parse_section(index, doc, types) matches Ok(fields) ==> crate::schema::fields_wf()(
            fields,
        ) by {
        if let Some(NodeView::Table(section)) = assoc::get(doc, index) {
            let kept = crate::schema::fields_wf();
            let step = field_step(index, types);
            assert forall|state: FieldsView, at: int|
                0 <= at < section.len() && kept(state) && (#[trigger] step(
                    state,
                    section[at],
                )) is Ok implies kept(step(state, section[at])->Ok_0) by {
                let path = index + "."@ + section[at].0;
                let table = section[at].1->Table_0;
                crate::fields::lemma_parsed_field_wf(path, types, table);
                assoc::lemma_put_all(
                    state,
                    section[at].0,
                    parse_field(path, types, table)->Ok_0,
                    crate::schema::field_wf(),
                );
            }
            assoc::lemma_try_fold_keeps(section, Seq::empty(), step, kept);
        }
    }
    let kept = |all: Seq<(Seq<char>, FieldsView)>|
        assoc::all_values(all, crate::schema::fields_wf());
    let step = section_step(doc, types);
    assert forall|state: Seq<(Seq<char>, FieldsView)>, at: int|
        0 <= at < types.len() && kept(state) && (#[trigger] step(state, types[at])) is Ok implies kept(
        step(state, types[at])->Ok_0,
    ) by {
        let fields = parse_section(types[at].0, doc, types)->Ok_0;
        assoc::lemma_put_all(state, types[at].0, fields, crate::schema::fields_wf());
    }
    assoc::lemma_try_fold_keeps(types, Seq::empty(), step, kept);
}

/// The sections of a document are those of the categories: but for
/// `spec`, a section stands under a name exactly where a category does.
pub open spec fn sections_match(doc: SectionsView, types: TypesView) -> bool {
    forall|name: Seq<char>|
        name != "spec"@ ==> (#[trigger] assoc::has_key(doc, name) <==> assoc::has_key(
            types,
            name,
        ))
}

/// The cross-check passes exactly where the sections of the document are
/// those of the categories. Where it fails, nothing is read; its failure
/// lists every section that no category declares and every category that
/// has no section, so that each of their names stands in its text; and
/// where there are both, the one failure lists both.
pub proof fn law_sections_cross_checked(doc: SectionsView, types: TypesView)
    ensures
        sections_match(doc, types) <==> check_sections(doc, types) is None,
        check_sections(doc, types) matches Some(failure) ==> parse_fields(doc, types) == Err::<
            Seq<(Seq<char>, FieldsView)>,
            FieldsErrorView,
        >(failure),
        forall|name: Seq<char>| #[trigger]
            excess_sections(doc, types).contains(name) <==> assoc::has_key(doc, name) && name
                != "spec"@ && !assoc::has_key(types, name),
        forall|name: Seq<char>| #[trigger]
            missing_sections(doc, types).contains(name) <==> assoc::has_key(types, name) && name
                != "spec"@ && !assoc::has_key(doc, name),
        excess_sections(doc, types).len() > 0 && missing_sections(doc, types).len() > 0
            ==> check_sections(doc, types) == Some(
            FieldsErrorView::MismatchedKeys {
                excess: text::joined(excess_sections(doc, types), ", "@),
                missing: text::joined(missing_sections(doc, types), ", "@),
            },
        ),
        excess_sections(doc, types).len() > 0 && missing_sections(doc, types).len() == 0
            ==> check_sections(doc, types) == Some(
            FieldsErrorView::ExcessKeys(text::joined(excess_sections(doc, types), ", "@)),
        ),
        excess_sections(doc, types).len() == 0 && missing_sections(doc, types).len() > 0
            ==> check_sections(doc, types) == Some(
            FieldsErrorView::MissingKeys(text::joined(missing_sections(doc, types), ", "@)),
        ),
        forall|which: int|
            0 <= which < excess_sections(doc, types).len() ==> text::stands_in(
                text::joined(excess_sections(doc, types), ", "@),
                #[trigger] excess_sections(doc, types)[which],
            ),
        forall|which: int|
            0 <= which < missing_sections(doc, types).len() ==> text::stands_in(
                text::joined(missing_sections(doc, types), ", "@),
                #[trigger] missing_sections(doc, types)[which],
            ),
{
    assert forall|which: int| 0 <= which < excess_sections(doc, types).len() implies text::stands_in(
        text::joined(excess_sections(doc, types), ", "@),
        #[trigger] excess_sections(doc, types)[which],
    ) by {
        text::lemma_joined_holds(excess_sections(doc, types), ", "@, which);
    }
    assert forall|which: int|
        0 <= which < missing_sections(doc, types).len() implies text::stands_in(
        text::joined(missing_sections(doc, types), ", "@),
        #[trigger] missing_sections(doc, types)[which],
    ) by {
        text::lemma_joined_holds(missing_sections(doc, types), ", "@, which);
    }
    let excess = excess_sections(doc, types);
    let missing = missing_sections(doc, types);
    assoc::lemma_unmatched(assoc::keys(doc), types, "spec"@);
    assoc::lemma_unmatched(assoc::keys(types), doc, "spec"@);
    assert forall|name: Seq<char>| #[trigger]
        excess.contains(name) <==> assoc::has_key(doc, name) && name != "spec"@
            && !assoc::has_key(types, name) by {
        assoc::lemma_keys(doc, name);
    }
    assert forall|name: Seq<char>| #[trigger]
        missing.contains(name) <==> assoc::has_key(types, name) && name != "spec"@
            && !assoc::has_key(doc, name) by {
        assoc::lemma_keys(types, name);
    }
    if excess.len() > 0 {
        assert(excess.contains(excess[0]));
    }
    if missing.len() > 0 {
        assert(missing.contains(missing[0]));
    }
    if !sections_match(doc, types) {
        let name = choose|name: Seq<char>|
            name != "spec"@ && (#[trigger] assoc::has_key(doc, name) != assoc::has_key(
                types,
                name,
            ));
        if assoc::has_key(doc, name) {
            assert(excess.contains(name));
        } else {
            assert(missing.contains(name));
        }
    }
}

/// A default that does not stand for a value of its property's kind makes
/// the whole schema fail to be read: the property `raw`, with such a
/// default, stands in the `properties` of a field of the section `index`.
pub proof fn law_default_must_coerce(
    doc: NodeView,
    index: Seq<char>,
    fields: Seq<(Seq<char>, NodeView)>,
    field: int,
    props: Seq<(Seq<char>, NodeView)>,
    prop: int,
)
    requires
        index != "spec"@,
        doc.get(index) == Some(NodeView::Table(fields)),
        0 <= field < fields.len(),
        fields[field].1.get("properties"@) == Some(NodeView::Table(props)),
        0 <= prop < props.len(),
        props[prop].1.get("type"@) matches Some(named) && crate::fields::kind_of(named) matches Some(
            ty,
        ) && props[prop].1.get("default"@) matches Some(default) && crate::value::coerce(
            ty,
            default,
        ) is None,
    ensures
        parse_schema(doc) is Err,
{
    if let Ok((name, types)) = parse_spec(doc) {
        let sections = sections_of(doc);
        if check_sections(sections, types) is None {
            law_sections_cross_checked(sections, types);
            assert(assoc::has_key(sections, index));
            assert(assoc::has_key(types, index));
            assoc::lemma_index_of(types, index);
            let at = assoc::index_of(types, index)->0;
            let table = fields[field].1->Table_0;
            let path = index + "."@ + fields[field].0;
            let name = path + ".properties"@;
            assert forall|done: Seq<(Seq<char>, crate::schema::PropSpecView)>| #[trigger]
                crate::fields::prop_step(name)(done, props[prop]) is Err by {}
            assoc::lemma_try_fold_stops(
                props,
                Seq::empty(),
                crate::fields::prop_step(name),
                prop,
            );
            assert(crate::fields::parse_field_properties(path, table) is Err);
            assert(parse_field(path, types, table) is Err);
            assert forall|done: FieldsView| #[trigger]
                field_step(index, types)(done, fields[field]) is Err by {}
            assoc::lemma_try_fold_stops(fields, Seq::empty(), field_step(index, types), field);
            assert(parse_section(index, sections, types) is Err);
            assert forall|done: Seq<(Seq<char>, FieldsView)>| #[trigger]
                section_step(sections, types)(done, types[at]) is Err by {}
            assoc::lemma_try_fold_stops(types, Seq::empty(), section_step(sections, types), at);
        }
    }
}

/// The names of the sections of `raw`, other than `spec`, that `types`
/// does not declare.
fn undeclared(raw: &Vec<(String, Node)>, types: &OrderedMap<TypeSpec>) -> (names: Vec<String>)
    ensures
        names.deep_view() == excess_sections(raw.deep_view(), types.deep_view()),
{
    let ghost keys = assoc::keys(raw.deep_view());
    let mut names: Vec<String> = Vec::new();
    let mut i: usize = 0;
    assert(names.deep_view() =~= Seq::empty());
    assert(keys.take(0).len() == 0);
    while i < raw.len()
        invariant
            i <= raw.len(),
            keys == assoc::keys(raw.deep_view()),
            names.deep_view() == assoc::unmatched(keys.take(i as int), types.deep_view(), "spec"@),
        decreases raw.len() - i,
    {
        let ghost before = names.deep_view();
        proof {
            assert(keys.take(i + 1).drop_last() =~= keys.take(i as int));
            assert(keys.take(i + 1).last() == raw[i as int].0@);
        }
        let name = raw[i].0.as_str();
        if !text::same_text(name, "spec") && !types.contains_key(name) {
            names.push(raw[i].0.clone());
            assert(names.deep_view() =~= before.push(raw[i as int].0@));
        }
        i += 1;
    }
    assert(keys.take(i as int) =~= keys);
    names
}

/// The names of the categories of `types`, other than `spec`, that have no
/// section in `raw`.
fn unsupplied(raw: &Vec<(String, Node)>, types: &OrderedMap<TypeSpec>) -> (names: Vec<String>)
    ensures
        names.deep_view() == missing_sections(raw.deep_view(), types.deep_view()),
{
    let ghost keys = assoc::keys(types.deep_view());
    let mut names: Vec<String> = Vec::new();
    let mut i: usize = 0;
    assert(names.deep_view() =~= Seq::empty());
    assert(keys.take(0).len() == 0);
    while i < types.len()
        invariant
            i <= types.deep_view().len(),
            keys == assoc::keys(types.deep_view()),
            names.deep_view() == assoc::unmatched(keys.take(i as int), raw.deep_view(), "spec"@),
        decreases types.deep_view().len() - i,
    {
        let ghost before = names.deep_view();
        proof {
            assert(keys.take(i + 1).drop_last() =~= keys.take(i as int));
        }
        match types.get_index(i) {
            Some((index, _)) => {
                assert(keys.take(i + 1).last() == index@);
                if !text::same_text(index.as_str(), "spec") && crate::document::find_entry(
                    raw,
                    index.as_str(),
                ).is_none() {
                    names.push(index.clone());
                    assert(names.deep_view() =~= before.push(index@));
                }
            },
            None => {},
        }
        i += 1;
    }
    assert(keys.take(i as int) =~= keys);
    names
}

/// Cross-checks the sections of `raw` against the categories of `types`.
pub fn check_sections_of(raw: &Vec<(String, Node)>, types: &OrderedMap<TypeSpec>) -> (failure:
    Option<FieldsError>)
    ensures
        failure.deep_view() == check_sections(raw.deep_view(), types.deep_view()),
{
    let excess = undeclared(raw, types);
    let missing = unsupplied(raw, types);
    if excess.len() > 0 && missing.len() > 0 {
        Some(
            FieldsError::MismatchedKeys {
                excess: text::join(&excess, ", "),
                missing: text::join(&missing, ", "),
            },
        )
    } else if excess.len() > 0 {
        Some(FieldsError::ExcessKeys(text::join(&excess, ", ")))
    } else if missing.len() > 0 {
        Some(FieldsError::MissingKeys(text::join(&missing, ", ")))
    } else {
        None
    }
}

/// Reads the fields of the category `index` from its section in `raw`.
pub fn parse_section_of(
    index: &str,
    raw: &Vec<(String, Node)>,
    types: &OrderedMap<TypeSpec>,
) -> (result: Result<OrderedMap<FieldSpec>, FieldsError>)
    ensures
        result_model(result) == parse_section(index@, raw.deep_view(), types.deep_view()),
{
    let section = match crate::document::find_entry(raw, index) {
        Some(node) => match node.as_table() {
            Some(section) => section,
            None => {
                return Err(FieldsError::SectionMissing(String::from_str(index)));
            },
        },
        None => {
            return Err(FieldsError::SectionMissing(String::from_str(index)));
        },
    };
    let ghost step = field_step(index@, types.deep_view());
    let ghost empty = Seq::<(Seq<char>, FieldSpecView)>::empty();
    let mut fields: OrderedMap<FieldSpec> = OrderedMap::new();
    let mut i: usize = 0;
    proof {
        assert(section.deep_view().take(0).len() == 0);
    }
    while i < section.len()
        invariant
            i <= section.len(),
            step == field_step(index@, types.deep_view()),
            empty == Seq::<(Seq<char>, FieldSpecView)>::empty(),
            parse_section(index@, raw.deep_view(), types.deep_view()) == assoc::try_fold(
                section.deep_view(),
                empty,
                step,
            ),
            assoc::try_fold(section.deep_view().take(i as int), empty, step) == Ok::<
                FieldsView,
                FieldsErrorView,
            >(fields.deep_view()),
        decreases section.len() - i,
    {
        proof {
            assoc::lemma_try_fold_step(section.deep_view(), empty, step, i as int);
            assoc::lemma_try_fold_fails(section.deep_view(), empty, step, i + 1);
            assert(section.deep_view()[i as int] == (
                section[i as int].0@,
                section[i as int].1.deep_view(),
            ));
        }
        let name = text::dotted(index, section[i].0.as_str());
        match section[i].1.as_table() {
            None => {
                return Err(FieldsError::SectionMissing(name));
            },
            Some(table) => match FieldSpec::parse(name, types, table) {
                Ok(field) => {
                    fields.insert(section[i].0.clone(), field);
                },
                Err(error) => {
                    return Err(error);
                },
            },
        }
        i += 1;
    }
    assert(section.deep_view().take(i as int) =~= section.deep_view());
    Ok(fields)
}

impl Spec {
    /// Reads the fields of every category of `types` from the sections of
    /// `raw`, after the cross-check of sections against categories.
    pub fn parse_fields(raw: &Vec<(String, Node)>, types: &OrderedMap<TypeSpec>) -> (result: Result<
        OrderedMap<OrderedMap<FieldSpec>>,
        FieldsError,
    >)
        ensures
            result_model(result) == parse_fields(raw.deep_view(), types.deep_view()),
            result matches Ok(fields) ==> assoc::keys(fields.deep_view()) == assoc::keys(
                types.deep_view(),
            ),
    {
        match check_sections_of(raw, types) {
            Some(error) => {
                return Err(error);
            },
            None => {},
        }
        let ghost step = section_step(raw.deep_view(), types.deep_view());
        let ghost empty = Seq::<(Seq<char>, FieldsView)>::empty();
        let ghost names = assoc::keys(types.deep_view());
        let mut out: OrderedMap<OrderedMap<FieldSpec>> = OrderedMap::new();
        let mut i: usize = 0;
        proof {
            assert(types.deep_view().take(0).len() == 0);
            assert(assoc::keys(out.deep_view()) =~= names.take(0));
        }
        while i < types.len()
            invariant
                i <= types.deep_view().len(),
                step == section_step(raw.deep_view(), types.deep_view()),
                empty == Seq::<(Seq<char>, FieldsView)>::empty(),
                names == assoc::keys(types.deep_view()),
                parse_fields(raw.deep_view(), types.deep_view()) == assoc::try_fold(
                    types.deep_view(),
                    empty,
                    step,
                ),
                assoc::try_fold(types.deep_view().take(i as int), empty, step) == Ok::<
                    Seq<(Seq<char>, FieldsView)>,
                    FieldsErrorView,
                >(out.deep_view()),
                assoc::keys(out.deep_view()) == names.take(i as int),
            decreases types.deep_view().len() - i,
        {
            proof {
                assoc::lemma_try_fold_step(types.deep_view(), empty, step, i as int);
                assoc::lemma_try_fold_fails(types.deep_view(), empty, step, i + 1);
            }
            let ghost before = out.deep_view();
            match types.get_index(i) {
                Some((index, _)) => match parse_section_of(index.as_str(), raw, types) {
                    Ok(fields) => {
                        proof {
                            assert(assoc::keys(before).len() == before.len());
                            assert(names.len() == types.deep_view().len());
                            assert(before.len() == i);
                            assert forall|j: int| 0 <= j < before.len() implies before[j].0
                                != index@ by {
                                assert(before[j].0 == assoc::keys(before)[j]);
                                assert(names.take(i as int)[j] == names[j]);
                                assert(names[j] == types.deep_view()[j].0);
                            }
                            assoc::lemma_index_of_none(before, index@);
                        }
                        out.insert(index.clone(), fields);
                        assert(assoc::keys(out.deep_view()) =~= names.take(i + 1));
                    },
                    Err(error) => {
                        return Err(error);
                    },
                },
                None => {},
            }
            i += 1;
        }
        assert(types.deep_view().take(i as int) =~= types.deep_view());
        assert(names.take(i as int) =~= names);
        Ok(out)
    }
}

/// A failure to read a schema.
#[derive(Debug)]
pub enum Error {
    InvalidToml(TomlError),
    Spec(SpecError),
    Fields(FieldsError),
}

/// The mathematical value of an [`Error`].
pub enum ErrorView {
    InvalidToml,
    Spec(SpecErrorView),
    Fields(FieldsErrorView),
}

impl DeepView for Error {
    type V = ErrorView;

    open spec fn deep_view(&self) -> ErrorView {
        match *self {
            Error::InvalidToml(_) => ErrorView::InvalidToml,
            Error::Spec(error) => ErrorView::Spec(error.deep_view()),
            Error::Fields(error) => ErrorView::Fields(error.deep_view()),
        }
    }
}

impl From<SpecError> for Error {
    fn from(error: SpecError) -> (failure: Error) {
        Error::Spec(error)
    }
}

impl vstd::std_specs::convert::FromSpecImpl<SpecError> for Error {
    open spec fn obeys_from_spec() -> bool {
        true
    }

    open spec fn from_spec(error: SpecError) -> Error {
        Error::Spec(error)
    }
}

impl From<FieldsError> for Error {
    fn from(error: FieldsError) -> (failure: Error) {
        Error::Fields(error)
    }
}

impl vstd::std_specs::convert::FromSpecImpl<FieldsError> for Error {
    open spec fn obeys_from_spec() -> bool {
        true
    }

    open spec fn from_spec(error: FieldsError) -> Error {
        Error::Fields(error)
    }
}

/// The sections of a document: the entries of a table, none of any other
/// node.
pub open spec fn sections_of(doc: NodeView) -> SectionsView {
    match doc {
        NodeView::Table(sections) => sections,
        _ => Seq::empty(),
    }
}

/// The schema that the document `doc` describes: the name and categories
/// of its `spec` section, and for each category the fields of its section.
pub open spec fn parse_schema(doc: NodeView) -> Result<SpecView, ErrorView> {
    match parse_spec(doc) {
        Err(error) => Err(ErrorView::Spec(error)),
        Ok((name, types)) => match parse_fields(sections_of(doc), types) {
            Err(error) => Err(ErrorView::Fields(error)),
            Ok(fields) => Ok(SpecView { name, types, fields }),
        },
    }
}

/// The schema that a TOML text describes.
pub open spec fn parse_schema_text(text: Seq<char>) -> Result<SpecView, ErrorView> {
    match crate::document::toml_document(text) {
        None => Err(ErrorView::InvalidToml),
        Some(doc) => parse_schema(doc),
    }
}

impl Spec {
    /// Reads the schema that the document `raw` describes.
    pub fn parse(raw: &Node) -> (result: Result<Spec, Error>)
        ensures
            result_model(result) == parse_schema(raw.deep_view()),
            result matches Ok(spec) ==> spec.deep_view().wf(),
    {
        let (name, types) = match Spec::parse_spec(raw) {
            Ok(parts) => parts,
            Err(error) => {
                return Err(Error::Spec(error));
            },
        };
        let sections = match raw.as_table() {
            Some(sections) => sections,
            None => {
                return Err(Error::Spec(SpecError::SpecMissing));
            },
        };
        match Spec::parse_fields(sections, &types) {
            Ok(fields) => {
                types.keys_are_distinct();
                proof {
                    lemma_parsed_fields_wf(sections.deep_view(), types.deep_view());
                }
                Ok(Spec { name, types, fields })
            },
            Err(error) => Err(Error::Fields(error)),
        }
    }

    /// Reads the schema that the TOML text `s` describes.
    pub fn parse_str(s: &str) -> (result: Result<Spec, Error>)
        ensures
            result_model(result) == parse_schema_text(s@),
            result matches Ok(spec) ==> spec.deep_view().wf(),
    {
        match crate::document::decode(s) {
            Ok(raw) => Spec::parse(&raw),
            Err(error) => Err(Error::InvalidToml(error)),
        }
    }
}

} // verus!
