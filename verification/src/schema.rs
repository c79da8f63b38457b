//! The schema: categories, their fields, and the properties of each field.

use vstd::prelude::*;
use crate::assoc;
use crate::ordered::OrderedMap;
use crate::replicate::Replicate;
use crate::text;
use crate::value::{Type, Value, ValueView};
use vstd::string::StringExecFns;

verus! {

/// The name under which a category is known outside its schema.
#[derive(Debug, PartialEq, Eq, Hash)]
pub struct TypeKey(pub String);

/// The name of a category's section in a document.
#[derive(Debug, PartialEq, Eq, Hash)]
pub struct TypeIndex(pub String);

/// The name of a field within its category.
#[derive(Debug, PartialEq, Eq, Hash)]
pub struct FieldKey(pub String);

impl DeepView for TypeKey {
    type V = Seq<char>;

    open spec fn deep_view(&self) -> Seq<char> {
        self.0@
    }
}

impl DeepView for TypeIndex {
    type V = Seq<char>;

    open spec fn deep_view(&self) -> Seq<char> {
        self.0@
    }
}

impl DeepView for FieldKey {
    type V = Seq<char>;

    open spec fn deep_view(&self) -> Seq<char> {
        self.0@
    }
}

impl TypeKey {
    /// The key with the given text.
    pub fn new(text: String) -> (key: TypeKey)
        ensures
            key.deep_view() == text@,
    {
        TypeKey(text)
    }

    /// The text of the key.
    pub fn as_str(&self) -> (text: &str)
        ensures
            text@ == self.deep_view(),
    {
        self.0.as_str()
    }
}

impl TypeIndex {
    /// The index with the given text.
    pub fn new(text: String) -> (index: TypeIndex)
        ensures
            index.deep_view() == text@,
    {
        TypeIndex(text)
    }

    /// The text of the index.
    pub fn as_str(&self) -> (text: &str)
        ensures
            text@ == self.deep_view(),
    {
        self.0.as_str()
    }
}

impl FieldKey {
    /// The key with the given text.
    pub fn new(text: String) -> (key: FieldKey)
        ensures
            key.deep_view() == text@,
    {
        FieldKey(text)
    }

    /// The text of the key.
    pub fn as_str(&self) -> (text: &str)
        ensures
            text@ == self.deep_view(),
    {
        self.0.as_str()
    }
}

/// A category: its outside name, and whether at most one of its fields is
/// chosen.
#[derive(Debug)]
pub struct TypeSpec {
    pub key: TypeKey,
    pub is_single: bool,
}

/// The mathematical value of a [`TypeSpec`].
pub struct TypeSpecView {
    pub key: Seq<char>,
    pub is_single: bool,
}

impl DeepView for TypeSpec {
    type V = TypeSpecView;

    open spec fn deep_view(&self) -> TypeSpecView {
        TypeSpecView { key: self.key.deep_view(), is_single: self.is_single }
    }
}

/// A reference to a field of a category, written `category:field`.
#[derive(Debug)]
pub struct Dep {
    ty: TypeKey,
    name: String,
}

/// The mathematical value of a [`Dep`].
pub struct DepView {
    pub ty: Seq<char>,
    pub name: Seq<char>,
}

impl DeepView for Dep {
    type V = DepView;

    closed spec fn deep_view(&self) -> DepView {
        DepView { ty: self.ty.deep_view(), name: self.name@ }
    }
}

/// What a field depends on: one field, one of several fields, or all of
/// several such conditions.
#[derive(Debug)]
pub enum DependencyOp {
    Or(Vec<Dep>),
    And(Vec<DependencyOp>),
    Dep(Dep),
}

/// The mathematical value of a [`DependencyOp`].
pub enum DependencyOpView {
    Or(Seq<DepView>),
    And(Seq<DependencyOpView>),
    Dep(DepView),
}

/// The mathematical value of a dependency condition.
pub open spec fn op_model(op: DependencyOp) -> DependencyOpView
    decreases op,
{
    match op {
        DependencyOp::Or(deps) => DependencyOpView::Or(deps.deep_view()),
        DependencyOp::And(ops) => DependencyOpView::And(
            Seq::new(
                ops@.len(),
                |i: int|
                    if 0 <= i < ops@.len() {
                        op_model(ops@[i])
                    } else {
                        DependencyOpView::And(Seq::empty())
                    },
            ),
        ),
        DependencyOp::Dep(dep) => DependencyOpView::Dep(dep.deep_view()),
    }
}

impl DeepView for DependencyOp {
    type V = DependencyOpView;

    open spec fn deep_view(&self) -> DependencyOpView {
        op_model(*self)
    }
}

/// The model of a conjunction is the conjunction of its conditions' models.
pub proof fn lemma_and_model(ops: Vec<DependencyOp>)
    ensures
        DependencyOp::And(ops).deep_view() == DependencyOpView::And(ops.deep_view()),
{
    assert(DependencyOp::And(ops).deep_view()->And_0 =~= ops.deep_view());
}

/// The dependencies of a field: a conjunction of conditions.
#[derive(Debug)]
pub struct Dependencies(DependencyOp);

impl DeepView for Dependencies {
    type V = DependencyOpView;

    closed spec fn deep_view(&self) -> DependencyOpView {
        self.0.deep_view()
    }
}

impl Dep {
    /// The category of the field referred to.
    pub fn ty(&self) -> (ty: &TypeKey)
        ensures
            ty.deep_view() == self.deep_view().ty,
    {
        &self.ty
    }

    /// The name of the field referred to.
    pub fn name(&self) -> (name: &str)
        ensures
            name@ == self.deep_view().name,
    {
        self.name.as_str()
    }
}

impl Dependencies {
    /// The dependencies of a field that depends on nothing.
    pub fn empty() -> (none: Dependencies)
        ensures
            none.deep_view() == DependencyOpView::And(Seq::empty()),
    {
        let ops: Vec<DependencyOp> = Vec::new();
        proof {
            lemma_and_model(ops);
            assert(ops.deep_view() =~= Seq::empty());
        }
        Dependencies(DependencyOp::And(ops))
    }

    /// The condition that the dependencies state.
    pub fn op(&self) -> (op: &DependencyOp)
        ensures
            op.deep_view() == self.deep_view(),
    {
        &self.0
    }
}

/// A property of a field: its kind and, where it has one, the value it
/// takes when a profile leaves it out.
#[derive(Debug)]
pub struct PropSpec {
    pub ty: Type,
    pub default: Option<Value>,
}

/// The mathematical value of a [`PropSpec`].
pub struct PropSpecView {
    pub ty: Type,
    pub default: Option<ValueView>,
}

impl DeepView for PropSpec {
    type V = PropSpecView;

    open spec fn deep_view(&self) -> PropSpecView {
        PropSpecView { ty: self.ty, default: self.default.deep_view() }
    }
}

impl PropSpecView {
    /// The default, where there is one, is of the property's kind.
    pub open spec fn wf(self) -> bool {
        self.default matches Some(value) ==> value.ty() == self.ty
    }
}

/// Whether a property is well-formed.
pub open spec fn prop_wf() -> spec_fn(PropSpecView) -> bool {
    |prop: PropSpecView| prop.wf()
}

/// Whether every property of a field is well-formed.
pub open spec fn field_wf() -> spec_fn(FieldSpecView) -> bool {
    |field: FieldSpecView| assoc::all_values(field.properties, prop_wf())
}

/// Whether every property of every field of a category is well-formed.
pub open spec fn fields_wf() -> spec_fn(FieldsView) -> bool {
    |fields: FieldsView| assoc::all_values(fields, field_wf())
}

/// The properties of a field, by name, in the order of the schema.
#[derive(Debug)]
pub struct Properties(pub OrderedMap<PropSpec>);

impl DeepView for Properties {
    type V = Seq<(Seq<char>, PropSpecView)>;

    open spec fn deep_view(&self) -> Seq<(Seq<char>, PropSpecView)> {
        self.0.deep_view()
    }
}

impl Properties {
    /// No properties.
    pub fn empty() -> (none: Properties)
        ensures
            none.deep_view() == Seq::<(Seq<char>, PropSpecView)>::empty(),
    {
        Properties(OrderedMap::new())
    }
}

/// A field of a category.
#[derive(Debug)]
pub struct FieldSpec {
    pub description: String,
    pub dependencies: Dependencies,
    pub properties: Properties,
}

/// The mathematical value of a [`FieldSpec`].
pub struct FieldSpecView {
    pub description: Seq<char>,
    pub dependencies: DependencyOpView,
    pub properties: Seq<(Seq<char>, PropSpecView)>,
}

impl DeepView for FieldSpec {
    type V = FieldSpecView;

    open spec fn deep_view(&self) -> FieldSpecView {
        FieldSpecView {
            description: self.description@,
            dependencies: self.dependencies.deep_view(),
            properties: self.properties.deep_view(),
        }
    }
}

/// A schema: its name, its categories by section name, and the fields of
/// each category.
#[derive(Debug)]
pub struct Spec {
    pub name: String,
    pub types: OrderedMap<TypeSpec>,
    pub fields: OrderedMap<OrderedMap<FieldSpec>>,
}

/// The fields of one category, by name.
pub type FieldsView = Seq<(Seq<char>, FieldSpecView)>;

/// The categories of a schema, by section name.
pub type TypesView = Seq<(Seq<char>, TypeSpecView)>;

/// The mathematical value of a [`Spec`].
pub struct SpecView {
    pub name: Seq<char>,
    pub types: TypesView,
    pub fields: Seq<(Seq<char>, FieldsView)>,
}

impl DeepView for Spec {
    type V = SpecView;

    open spec fn deep_view(&self) -> SpecView {
        SpecView {
            name: self.name@,
            types: self.types.deep_view(),
            fields: self.fields.deep_view(),
        }
    }
}

impl SpecView {
    /// The sections of fields are those of the categories, in the same
    /// order, each once; and the default of every property is of the
    /// property's kind.
    pub open spec fn wf(self) -> bool {
        &&& assoc::keys(self.fields) == assoc::keys(self.types)
        &&& assoc::distinct(self.types)
        &&& assoc::all_values(self.fields, fields_wf())
    }
}

/// A failure in the `spec` section of a schema document.
#[derive(Debug)]
pub enum SpecError {
    SpecMissing,
    MissingField(&'static str),
    InvalidFieldType(&'static str, &'static str),
    InvalidTypeValue(String),
}

/// The mathematical value of a [`SpecError`].
pub enum SpecErrorView {
    SpecMissing,
    MissingField(Seq<char>),
    InvalidFieldType(Seq<char>, Seq<char>),
    InvalidTypeValue(Seq<char>),
}

impl DeepView for SpecError {
    type V = SpecErrorView;

    open spec fn deep_view(&self) -> SpecErrorView {
        match *self {
            SpecError::SpecMissing => SpecErrorView::SpecMissing,
            SpecError::MissingField(field) => SpecErrorView::MissingField(field@),
            SpecError::InvalidFieldType(field, ty) => SpecErrorView::InvalidFieldType(
                field@,
                ty@,
            ),
            SpecError::InvalidTypeValue(key) => SpecErrorView::InvalidTypeValue(key@),
        }
    }
}

/// A failure in the sections of fields of a schema document.
#[derive(Debug)]
pub enum FieldsError {
    ExcessKeys(String),
    MissingKeys(String),
    MismatchedKeys { excess: String, missing: String },
    MissingField(String, &'static str),
    InvalidFieldType { field: String, key: &'static str, ty: &'static str },
    SectionMissing(String),
    InvalidDependency { field: String, entry: String },
}

/// The mathematical value of a [`FieldsError`].
pub enum FieldsErrorView {
    ExcessKeys(Seq<char>),
    MissingKeys(Seq<char>),
    MismatchedKeys { excess: Seq<char>, missing: Seq<char> },
    MissingField(Seq<char>, Seq<char>),
    InvalidFieldType { field: Seq<char>, key: Seq<char>, ty: Seq<char> },
    SectionMissing(Seq<char>),
    InvalidDependency { field: Seq<char>, entry: Seq<char> },
}

impl DeepView for FieldsError {
    type V = FieldsErrorView;

    open spec fn deep_view(&self) -> FieldsErrorView {
        match *self {
            FieldsError::ExcessKeys(keys) => FieldsErrorView::ExcessKeys(keys@),
            FieldsError::MissingKeys(keys) => FieldsErrorView::MissingKeys(keys@),
            FieldsError::MismatchedKeys { excess, missing } => FieldsErrorView::MismatchedKeys {
                excess: excess@,
                missing: missing@,
            },
            FieldsError::MissingField(field, key) => FieldsErrorView::MissingField(field@, key@),
            FieldsError::InvalidFieldType { field, key, ty } => FieldsErrorView::InvalidFieldType {
                field: field@,
                key: key@,
                ty: ty@,
            },
            FieldsError::SectionMissing(section) => FieldsErrorView::SectionMissing(section@),
            FieldsError::InvalidDependency { field, entry } => FieldsErrorView::InvalidDependency {
                field: field@,
                entry: entry@,
            },
        }
    }
}

/// The model of a result: the model of what it holds.
pub open spec fn result_model<T: DeepView, E: DeepView>(result: Result<T, E>) -> Result<
    T::V,
    E::V,
> {
    match result {
        Ok(value) => Ok(value.deep_view()),
        Err(error) => Err(error.deep_view()),
    }
}

/// The categories of `types` under their outside names, each with its
/// section name.
pub open spec fn by_key(types: TypesView) -> Seq<(Seq<char>, (Seq<char>, TypeSpecView))> {
    Seq::new(types.len(), |i: int| (types[i].1.key, types[i]))
}

/// The first category of `types` whose outside name is `key`, with its
/// section name.
pub open spec fn find_by_key(types: TypesView, key: Seq<char>) -> Option<
    (Seq<char>, TypeSpecView),
> {
    assoc::get(by_key(types), key)
}

/// The first category of `types` whose outside name is `key`, with its
/// section name.
pub fn find_type<'a>(types: &'a OrderedMap<TypeSpec>, key: &str) -> (found: Option<
    (&'a String, &'a TypeSpec),
>)
    ensures
        found.deep_view() == find_by_key(types.deep_view(), key@),
{
    let ghost keyed = by_key(types.deep_view());
    let mut i: usize = 0;
    while i < types.len()
        invariant
            i <= types.deep_view().len(),
            keyed == by_key(types.deep_view()),
            forall|j: int| 0 <= j < i ==> keyed[j].0 != key@,
        decreases types.deep_view().len() - i,
    {
        match types.get_index(i) {
            Some((index, type_spec)) => {
                if text::same_text(type_spec.key.as_str(), key) {
                    proof {
                        assoc::lemma_index_of_first(keyed, key@, i as int);
                    }
                    return Some((index, type_spec));
                }
            },
            None => {},
        }
        i += 1;
    }
    proof {
        assoc::lemma_index_of_none(keyed, key@);
    }
    None
}

/// The reference that `input` writes: a category that `types` knows by
/// its outside name, a colon, and the name of a field.
pub open spec fn parse_dep(input: Seq<char>, types: TypesView) -> Option<DepView> {
    let parts = text::pieces(input, ":"@);
    if parts.len() == 2 && find_by_key(types, parts[0]) is Some {
        Some(DepView { ty: parts[0], name: parts[1] })
    } else {
        None
    }
}

/// The references that `segments` write, each without the white space
/// around it; nothing where one of them writes none.
pub open spec fn parse_deps(segments: Seq<Seq<char>>, types: TypesView) -> Option<Seq<DepView>>
    decreases segments.len(),
{
    if segments.len() == 0 {
        Some(Seq::empty())
    } else {
        match parse_deps(segments.drop_last(), types) {
            None => None,
            Some(done) => match parse_dep(text::trimmed(segments.last()), types) {
                None => None,
                Some(dep) => Some(done.push(dep)),
            },
        }
    }
}

/// The condition that one line of dependencies writes: the references
/// between the words `OR` where it holds that word, else the one
/// reference that the line is.
pub open spec fn parse_condition(line: Seq<char>, types: TypesView) -> Option<DependencyOpView> {
    let segments = text::pieces(line, "OR"@);
    if segments.len() > 1 {
        match parse_deps(segments, types) {
            Some(deps) => Some(DependencyOpView::Or(deps)),
            None => None,
        }
    } else {
        match parse_dep(line, types) {
            Some(dep) => Some(DependencyOpView::Dep(dep)),
            None => None,
        }
    }
}

/// The conditions that `lines` write for the field `field`, or the failure
/// of the first line that writes none.
pub open spec fn parse_conditions(
    field: Seq<char>,
    lines: Seq<Seq<char>>,
    types: TypesView,
) -> Result<Seq<DependencyOpView>, FieldsErrorView>
    decreases lines.len(),
{
    if lines.len() == 0 {
        Ok(Seq::empty())
    } else {
        match parse_conditions(field, lines.drop_last(), types) {
            Err(error) => Err(error),
            Ok(done) => match parse_condition(lines.last(), types) {
                None => Err(FieldsErrorView::InvalidDependency { field, entry: lines.last() }),
                Some(op) => Ok(done.push(op)),
            },
        }
    }
}

/// The dependencies that `lines` write for the field `field`: all of their
/// conditions together.
pub open spec fn parse_dependencies(
    field: Seq<char>,
    lines: Seq<Seq<char>>,
    types: TypesView,
) -> Result<DependencyOpView, FieldsErrorView> {
    match parse_conditions(field, lines, types) {
        Ok(ops) => Ok(DependencyOpView::And(ops)),
        Err(error) => Err(error),
    }
}

impl Dep {
    /// Reads a reference `category:field`, where `types` knows the category
    /// by its outside name.
    pub fn parse(input: &str, types: &OrderedMap<TypeSpec>) -> (dep: Option<Dep>)
        ensures
            dep.deep_view() == parse_dep(input@, types.deep_view()),
    {
        let parts = text::split(input, ":");
        if parts.len() != 2 {
            return None;
        }
        if find_type(types, parts[0].as_str()).is_none() {
            return None;
        }
        Some(Dep { ty: TypeKey(parts[0].clone()), name: parts[1].clone() })
    }
}

impl DependencyOp {
    /// Reads the references of a line that holds the word `OR`.
    fn parse_any(segments: &Vec<String>, types: &OrderedMap<TypeSpec>) -> (deps: Option<Vec<Dep>>)
        ensures
            deps.deep_view() == parse_deps(segments.deep_view(), types.deep_view()),
    {
        let mut deps: Vec<Dep> = Vec::new();
        let mut i: usize = 0;
        while i < segments.len()
            invariant
                i <= segments.len(),
                parse_deps(segments.deep_view().take(i as int), types.deep_view()) == Some(
                    deps.deep_view(),
                ),
            decreases segments.len() - i,
        {
            let ghost before = deps.deep_view();
            proof {
                let done = segments.deep_view().take(i + 1);
                assert(done.drop_last() =~= segments.deep_view().take(i as int));
                assert(done.last() == segments[i as int]@);
            }
            match Dep::parse(text::trim(segments[i].as_str()), types) {
                Some(dep) => {
                    deps.push(dep);
                    assert(deps.deep_view() =~= before.push(dep.deep_view()));
                },
                None => {
                    proof {
                        lemma_parse_deps_fails(
                            segments.deep_view(),
                            types.deep_view(),
                            i + 1,
                        );
                    }
                    return None;
                },
            }
            i += 1;
        }
        assert(segments.deep_view().take(i as int) =~= segments.deep_view());
        Some(deps)
    }

    /// Reads one line of dependencies.
    pub fn parse(line: &str, types: &OrderedMap<TypeSpec>) -> (op: Option<DependencyOp>)
        ensures
            op.deep_view() == parse_condition(line@, types.deep_view()),
    {
        let segments = text::split(line, "OR");
        if segments.len() > 1 {
            match DependencyOp::parse_any(&segments, types) {
                Some(deps) => Some(DependencyOp::Or(deps)),
                None => None,
            }
        } else {
            match Dep::parse(line, types) {
                Some(dep) => Some(DependencyOp::Dep(dep)),
                None => None,
            }
        }
    }
}

/// Once a prefix of the segments fails to be read, so does the whole.
pub proof fn lemma_parse_deps_fails(segments: Seq<Seq<char>>, types: TypesView, upto: int)
    requires
        0 <= upto <= segments.len(),
        parse_deps(segments.take(upto), types) is None,
    ensures
        parse_deps(segments, types) is None,
    decreases segments.len() - upto,
{
    if upto < segments.len() {
        assert(segments.take(upto + 1).drop_last() =~= segments.take(upto));
        lemma_parse_deps_fails(segments, types, upto + 1);
    } else {
        assert(segments.take(upto) =~= segments);
    }
}

/// Once a prefix of the lines fails to be read, the whole fails in the
/// same way.
pub proof fn lemma_parse_conditions_fails(
    field: Seq<char>,
    lines: Seq<Seq<char>>,
    types: TypesView,
    upto: int,
)
    requires
        0 <= upto <= lines.len(),
        parse_conditions(field, lines.take(upto), types) is Err,
    ensures
        parse_conditions(field, lines, types) == parse_conditions(field, lines.take(upto), types),
    decreases lines.len() - upto,
{
    if upto < lines.len() {
        assert(lines.take(upto + 1).drop_last() =~= lines.take(upto));
        lemma_parse_conditions_fails(field, lines, types, upto + 1);
    } else {
        assert(lines.take(upto) =~= lines);
    }
}

impl Dependencies {
    /// Reads the dependencies of the field `field` from the lines `raw`.
    pub fn parse(field: &str, types: &OrderedMap<TypeSpec>, raw: &Vec<&str>) -> (result: Result<
        Dependencies,
        FieldsError,
    >)
        ensures
            result_model(result) == parse_dependencies(
                field@,
                raw.deep_view(),
                types.deep_view(),
            ),
    {
        let mut ops: Vec<DependencyOp> = Vec::new();
        let mut i: usize = 0;
        assert(ops.deep_view() =~= Seq::empty());
        assert(raw.deep_view().take(0).len() == 0);
        while i < raw.len()
            invariant
                i <= raw.len(),
                parse_conditions(field@, raw.deep_view().take(i as int), types.deep_view()) == Ok::<
                    Seq<DependencyOpView>,
                    FieldsErrorView,
                >(ops.deep_view()),
            decreases raw.len() - i,
        {
            let ghost before = ops.deep_view();
            proof {
                let done = raw.deep_view().take(i + 1);
                assert(done.drop_last() =~= raw.deep_view().take(i as int));
                assert(done.last() == raw[i as int]@);
            }
            match DependencyOp::parse(raw[i], types) {
                Some(op) => {
                    ops.push(op);
                    assert(ops.deep_view() =~= before.push(op.deep_view()));
                },
                None => {
                    proof {
                        lemma_parse_conditions_fails(
                            field@,
                            raw.deep_view(),
                            types.deep_view(),
                            i + 1,
                        );
                    }
                    return Err(
                        FieldsError::InvalidDependency {
                            field: String::from_str(field),
                            entry: String::from_str(raw[i]),
                        },
                    );
                },
            }
            i += 1;
        }
        proof {
            assert(raw.deep_view().take(i as int) =~= raw.deep_view());
            lemma_and_model(ops);
        }
        Ok(Dependencies(DependencyOp::And(ops)))
    }
}

impl Spec {
    /// The category with the section name `index`.
    pub fn type_spec(&self, index: &TypeIndex) -> (found: Option<&TypeSpec>)
        ensures
            found.deep_view() == assoc::get(self.deep_view().types, index.deep_view()),
    {
        self.types.get(index.as_str())
    }

    /// The first category with the outside name `key`, with its section
    /// name.
    pub fn find_type(&self, key: &TypeKey) -> (found: Option<(TypeIndex, &TypeSpec)>)
        ensures
            found.deep_view() == find_by_key(self.deep_view().types, key.deep_view()),
    {
        match find_type(&self.types, key.as_str()) {
            Some((index, type_spec)) => Some((TypeIndex(index.clone()), type_spec)),
            None => None,
        }
    }

    /// The field `field` of the category with the section name `index`.
    pub fn field(&self, index: &TypeIndex, field: &FieldKey) -> (found: Option<&FieldSpec>)
        ensures
            found.deep_view() == match assoc::get(self.deep_view().fields, index.deep_view()) {
                Some(fields) => assoc::get(fields, field.deep_view()),
                None => None,
            },
    {
        match self.fields.get(index.as_str()) {
            Some(fields) => fields.get(field.as_str()),
            None => None,
        }
    }
}

impl Replicate for TypeSpec {
    fn replicate(&self) -> (copy: TypeSpec) {
        TypeSpec { key: self.key.replicate(), is_single: self.is_single }
    }
}

impl Replicate for PropSpec {
    fn replicate(&self) -> (copy: PropSpec) {
        PropSpec { ty: self.ty, default: self.default.replicate() }
    }
}

impl Replicate for Properties {
    fn replicate(&self) -> (copy: Properties) {
        Properties(self.0.replicate())
    }
}

impl Clone for Properties {
    fn clone(&self) -> (copy: Properties)
        ensures
            copy.deep_view() == self.deep_view(),
    {
        self.replicate()
    }
}

impl Replicate for TypeKey {
    fn replicate(&self) -> (copy: TypeKey) {
        TypeKey(self.0.clone())
    }
}

impl Clone for TypeKey {
    fn clone(&self) -> (copy: TypeKey)
        ensures
            copy.deep_view() == self.deep_view(),
    {
        self.replicate()
    }
}

impl Replicate for TypeIndex {
    fn replicate(&self) -> (copy: TypeIndex) {
        TypeIndex(self.0.clone())
    }
}

impl Clone for TypeIndex {
    fn clone(&self) -> (copy: TypeIndex)
        ensures
            copy.deep_view() == self.deep_view(),
    {
        self.replicate()
    }
}

impl Replicate for FieldKey {
    fn replicate(&self) -> (copy: FieldKey) {
        FieldKey(self.0.clone())
    }
}

impl Clone for FieldKey {
    fn clone(&self) -> (copy: FieldKey)
        ensures
            copy.deep_view() == self.deep_view(),
    {
        self.replicate()
    }
}

impl Clone for TypeSpec {
    fn clone(&self) -> (copy: TypeSpec)
        ensures
            copy.deep_view() == self.deep_view(),
    {
        self.replicate()
    }
}

impl Clone for PropSpec {
    fn clone(&self) -> (copy: PropSpec)
        ensures
            copy.deep_view() == self.deep_view(),
    {
        self.replicate()
    }
}

impl Clone for Dep {
    fn clone(&self) -> (copy: Dep)
        ensures
            copy.deep_view() == self.deep_view(),
    {
        self.replicate()
    }
}

impl Replicate for Dep {
    fn replicate(&self) -> (copy: Dep) {
        Dep { ty: TypeKey(self.ty.0.clone()), name: self.name.clone() }
    }
}

impl Clone for DependencyOp {
    fn clone(&self) -> (copy: DependencyOp)
        ensures
            copy.deep_view() == self.deep_view(),
    {
        self.replicate()
    }
}

impl Replicate for DependencyOp {
    fn replicate(&self) -> (copy: DependencyOp)
        decreases self,
    {
        match self {
            DependencyOp::Or(deps) => DependencyOp::Or(deps.replicate()),
            DependencyOp::Dep(dep) => DependencyOp::Dep(dep.replicate()),
            DependencyOp::And(ops) => {
                let mut copies: Vec<DependencyOp> = Vec::new();
                let mut i: usize = 0;
                while i < ops.len()
                    invariant
                        i <= ops.len(),
                        copies.len() == i,
                        decreases_to!(self => ops),
                        forall|j: int| 0 <= j < i ==> copies[j].deep_view() == ops[j].deep_view(),
                    decreases ops.len() - i,
                {
                    proof {
                        assert(decreases_to!(ops => ops[i as int]));
                    }
                    copies.push(ops[i].replicate());
                    i += 1;
                }
                proof {
                    lemma_and_model(*ops);
                    lemma_and_model(copies);
                    assert(copies.deep_view() =~= ops.deep_view());
                }
                DependencyOp::And(copies)
            },
        }
    }
}

impl Clone for Dependencies {
    fn clone(&self) -> (copy: Dependencies)
        ensures
            copy.deep_view() == self.deep_view(),
    {
        self.replicate()
    }
}

impl Replicate for Dependencies {
    fn replicate(&self) -> (copy: Dependencies) {
        Dependencies(self.0.replicate())
    }
}

impl Clone for FieldSpec {
    fn clone(&self) -> (copy: FieldSpec)
        ensures
            copy.deep_view() == self.deep_view(),
    {
        self.replicate()
    }
}

impl Replicate for FieldSpec {
    fn replicate(&self) -> (copy: FieldSpec) {
        FieldSpec {
            description: self.description.clone(),
            dependencies: self.dependencies.replicate(),
            properties: self.properties.replicate(),
        }
    }
}

impl Clone for Spec {
    fn clone(&self) -> (copy: Spec)
        ensures
            copy.deep_view() == self.deep_view(),
    {
        self.replicate()
    }
}

impl Replicate for Spec {
    fn replicate(&self) -> (copy: Spec) {
        Spec {
            name: self.name.clone(),
            types: self.types.replicate(),
            fields: self.fields.replicate(),
        }
    }
}

} // verus!
