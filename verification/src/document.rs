//! The semi-structured documents that schemas and profiles are read from.

use vstd::prelude::*;
use toml::Value as TomlValue;
use toml::de::Error as TomlError;
use crate::assoc;
use crate::replicate::Replicate;
use crate::text::same_text;

verus! {

/// One node of a document: a scalar, an array, or a table of named nodes.
///
/// A table keeps its entries in the order of the document; where it holds
/// several entries of one name, the first is the one that is found under
/// the name. Floating-point numbers and dates take part in no rule of this
/// library, so only their presence is kept.
#[derive(Debug)]
pub enum Node {
    String(String),
    Integer(i64),
    Float,
    Boolean(bool),
    Datetime,
    Array(Vec<Node>),
    Table(Vec<(String, Node)>),
}

/// The mathematical value of a [`Node`].
pub enum NodeView {
    String(Seq<char>),
    Integer(i64),
    Float,
    Boolean(bool),
    Datetime,
    Array(Seq<NodeView>),
    Table(Seq<(Seq<char>, NodeView)>),
}

/// The mathematical value of a node: that of a scalar is the scalar, that
/// of an array or a table holds the values of what the node holds.
pub open spec fn node_model(node: Node) -> NodeView
    decreases node,
{
    match node {
        Node::String(s) => NodeView::String(s@),
        Node::Integer(i) => NodeView::Integer(i),
        Node::Float => NodeView::Float,
        Node::Boolean(b) => NodeView::Boolean(b),
        Node::Datetime => NodeView::Datetime,
        Node::Array(items) => NodeView::Array(
            Seq::new(
                items@.len(),
                |i: int|
                    if 0 <= i < items@.len() {
                        node_model(items@[i])
                    } else {
                        NodeView::Float
                    },
            ),
        ),
        Node::Table(entries) => NodeView::Table(
            Seq::new(
                entries@.len(),
                |i: int|
                    if 0 <= i < entries@.len() {
                        (entries@[i].0@, node_model(entries@[i].1))
                    } else {
                        (Seq::empty(), NodeView::Float)
                    },
            ),
        ),
    }
}

impl DeepView for Node {
    type V = NodeView;

    open spec fn deep_view(&self) -> NodeView {
        node_model(*self)
    }
}

impl NodeView {
    /// The text of a string node.
    pub open spec fn as_str(self) -> Option<Seq<char>> {
        match self {
            NodeView::String(s) => Some(s),
            _ => None,
        }
    }

    /// The number of an integer node.
    pub open spec fn as_integer(self) -> Option<i64> {
        match self {
            NodeView::Integer(i) => Some(i),
            _ => None,
        }
    }

    /// The truth value of a boolean node.
    pub open spec fn as_bool(self) -> Option<bool> {
        match self {
            NodeView::Boolean(b) => Some(b),
            _ => None,
        }
    }

    /// The items of an array node.
    pub open spec fn as_array(self) -> Option<Seq<NodeView>> {
        match self {
            NodeView::Array(items) => Some(items),
            _ => None,
        }
    }

    /// The entries of a table node.
    pub open spec fn as_table(self) -> Option<Seq<(Seq<char>, NodeView)>> {
        match self {
            NodeView::Table(entries) => Some(entries),
            _ => None,
        }
    }

    /// The node under `key`, where this node is a table that has one.
    pub open spec fn get(self, key: Seq<char>) -> Option<NodeView> {
        match self {
            NodeView::Table(entries) => assoc::get(entries, key),
            _ => None,
        }
    }
}

/// The model of an array node is the array of its items' models, and the
/// model of a table node the table of its entries' models.
pub proof fn lemma_node_model(node: Node)
    ensures
        node matches Node::Array(items) ==> node.deep_view() == NodeView::Array(
            items.deep_view(),
        ),
        node matches Node::Table(entries) ==> node.deep_view() == NodeView::Table(
            entries.deep_view(),
        ),
{
    match node {
        Node::Array(items) => {
            let model = node.deep_view()->Array_0;
            assert(model.len() == items@.len());
            assert forall|i: int| 0 <= i < items@.len() implies model[i]
                == items.deep_view()[i] by {}
            assert(model =~= items.deep_view());
        },
        Node::Table(entries) => {
            let model = node.deep_view()->Table_0;
            assert(model.len() == entries@.len());
            assert forall|i: int| 0 <= i < entries@.len() implies model[i]
                == entries.deep_view()[i] by {}
            assert(model =~= entries.deep_view());
        },
        _ => {},
    }
}

impl Replicate for Node {
    fn replicate(&self) -> (copy: Node)
        decreases self,
    {
        proof {
            lemma_node_model(*self);
        }
        match self {
            Node::String(s) => Node::String(s.clone()),
            Node::Integer(n) => Node::Integer(*n),
            Node::Float => Node::Float,
            Node::Boolean(b) => Node::Boolean(*b),
            Node::Datetime => Node::Datetime,
            Node::Array(items) => {
                let mut copies: Vec<Node> = Vec::new();
                let mut i: usize = 0;
                while i < items.len()
                    invariant
                        i <= items.len(),
                        copies.len() == i,
                        decreases_to!(self => items),
                        forall|j: int|
                            0 <= j < i ==> copies[j].deep_view() == items[j].deep_view(),
                    decreases items.len() - i,
                {
                    proof {
                        assert(decreases_to!(items => items[i as int]));
                    }
                    copies.push(items[i].replicate());
                    i += 1;
                }
                proof {
                    lemma_node_model(Node::Array(copies));
                    assert(copies.deep_view() =~= items.deep_view());
                }
                Node::Array(copies)
            },
            Node::Table(entries) => {
                let mut copies: Vec<(String, Node)> = Vec::new();
                let mut i: usize = 0;
                while i < entries.len()
                    invariant
                        i <= entries.len(),
                        copies.len() == i,
                        decreases_to!(self => entries),
                        forall|j: int|
                            0 <= j < i ==> copies[j].deep_view() == entries[j].deep_view(),
                    decreases entries.len() - i,
                {
                    proof {
                        assert(decreases_to!(entries => entries[i as int]));
                        assert(decreases_to!(entries[i as int] => entries[i as int].1));
                    }
                    copies.push((entries[i].0.clone(), entries[i].1.replicate()));
                    i += 1;
                }
                proof {
                    lemma_node_model(Node::Table(copies));
                    assert(copies.deep_view() =~= entries.deep_view());
                }
                Node::Table(copies)
            },
        }
    }
}

impl Clone for Node {
    fn clone(&self) -> (copy: Node)
        ensures
            copy.deep_view() == self.deep_view(),
    {
        self.replicate()
    }
}

/// The node of the first entry of `entries` under `key`.
pub fn find_entry<'a>(entries: &'a Vec<(String, Node)>, key: &str) -> (found: Option<&'a Node>)
    ensures
        found.deep_view() == assoc::get(entries.deep_view(), key@),
{
    let mut i: usize = 0;
    while i < entries.len()
        invariant
            i <= entries.len(),
            forall|j: int| 0 <= j < i ==> entries.deep_view()[j].0 != key@,
        decreases entries.len() - i,
    {
        if same_text(entries[i].0.as_str(), key) {
            proof {
                assoc::lemma_index_of_first(entries.deep_view(), key@, i as int);
            }
            return Some(&entries[i].1);
        }
        i += 1;
    }
    proof {
        assoc::lemma_index_of_none(entries.deep_view(), key@);
    }
    None
}

/// `toml::Value`, a decoded TOML value. Nothing inside it is seen here:
/// what it holds is `value_model`.
#[verifier::external_type_specification]
#[verifier::external_body]
pub struct ExTomlValue(TomlValue);

/// `toml::de::Error`, the failure of the TOML decoder. It is carried
/// through to the caller, and nothing is said of it.
#[verifier::external_type_specification]
#[verifier::external_body]
pub struct ExTomlError(TomlError);

/// The document that a TOML text denotes, where it is well-formed TOML.
pub uninterp spec fn toml_document(text: Seq<char>) -> Option<NodeView>;

/// What a decoded TOML value holds.
pub uninterp spec fn value_model(value: TomlValue) -> NodeView;

/// `toml::from_str`, at the type `toml::Value`: the value that `text`
/// denotes, or the decoder's error where `text` is not well-formed TOML.
#[verifier::external_body]
fn toml_parse(text: &str) -> (result: Result<TomlValue, TomlError>)
    ensures
        match result {
            Ok(value) => toml_document(text@) == Some(value_model(value)),
            Err(_) => toml_document(text@) is None,
        },
{
    toml::from_str::<TomlValue>(text)
}

/// Converts a decoded TOML value, variant by variant: the node holds what
/// the value holds, but for the payload of a float or a date.
#[verifier::external_body]
fn node_of(value: &TomlValue) -> (node: Node)
    ensures
        node.deep_view() == value_model(*value),
{
    match value {
        TomlValue::String(s) => Node::String(s.clone()),
        TomlValue::Integer(n) => Node::Integer(*n),
        TomlValue::Float(_) => Node::Float,
        TomlValue::Boolean(b) => Node::Boolean(*b),
        TomlValue::Datetime(_) => Node::Datetime,
        TomlValue::Array(items) => Node::Array(items.iter().map(node_of).collect()),
        TomlValue::Table(table) => Node::Table(
            table.iter().map(|(k, v)| (k.clone(), node_of(v))).collect(),
        ),
    }
}

/// Decodes a TOML text into a document.
pub fn decode(text: &str) -> (result: Result<Node, TomlError>)
    ensures
        match result {
            Ok(node) => toml_document(text@) == Some(node.deep_view()),
            Err(_) => toml_document(text@) is None,
        },
{
    match toml_parse(text) {
        Ok(value) => Ok(node_of(&value)),
        Err(error) => Err(error),
    }
}

/// The texts of `items`, where all of them are string nodes.
pub open spec fn texts_of(items: Seq<NodeView>) -> Option<Seq<Seq<char>>> {
    if forall|i: int| 0 <= i < items.len() ==> items[i] is String {
        Some(Seq::new(items.len(), |i: int| items[i]->String_0))
    } else {
        None
    }
}

/// The texts of `items`, where all of them are string nodes.
pub fn strings_of(items: &Vec<Node>) -> (texts: Option<Vec<&str>>)
    ensures
        texts.deep_view() == texts_of(items.deep_view()),
{
    let mut texts: Vec<&str> = Vec::new();
    let mut i: usize = 0;
    while i < items.len()
        invariant
            i <= items.len(),
            texts.len() == i,
            forall|j: int| 0 <= j < i ==> items.deep_view()[j] == NodeView::String(texts[j]@),
        decreases items.len() - i,
    {
        match &items[i] {
            Node::String(s) => {
                texts.push(s.as_str());
            },
            _ => {
                assert(!(items.deep_view()[i as int] is String));
                return None;
            },
        }
        i += 1;
    }
    assert(texts.deep_view() =~= texts_of(items.deep_view())->0);
    Some(texts)
}

impl Node {
    /// The text of a string node.
    pub fn as_str(&self) -> (text: Option<&str>)
        ensures
            match text {
                Some(s) => self.deep_view().as_str() == Some(s@),
                None => self.deep_view().as_str() is None,
            },
    {
        match self {
            Node::String(s) => Some(s.as_str()),
            _ => None,
        }
    }

    /// The number of an integer node.
    pub fn as_integer(&self) -> (number: Option<i64>)
        ensures
            number == self.deep_view().as_integer(),
    {
        match self {
            Node::Integer(n) => Some(*n),
            _ => None,
        }
    }

    /// The truth value of a boolean node.
    pub fn as_bool(&self) -> (flag: Option<bool>)
        ensures
            flag == self.deep_view().as_bool(),
    {
        match self {
            Node::Boolean(b) => Some(*b),
            _ => None,
        }
    }

    /// The items of an array node.
    pub fn as_array(&self) -> (items: Option<&Vec<Node>>)
        ensures
            items.deep_view() == self.deep_view().as_array(),
    {
        proof {
            lemma_node_model(*self);
        }
        match self {
            Node::Array(items) => Some(items),
            _ => None,
        }
    }

    /// The entries of a table node.
    pub fn as_table(&self) -> (entries: Option<&Vec<(String, Node)>>)
        ensures
            entries.deep_view() == self.deep_view().as_table(),
    {
        proof {
            lemma_node_model(*self);
        }
        match self {
            Node::Table(entries) => Some(entries),
            _ => None,
        }
    }

    /// The node under `key`, where this node is a table that has one.
    pub fn get(&self, key: &str) -> (found: Option<&Node>)
        ensures
            found.deep_view() == self.deep_view().get(key@),
    {
        proof {
            lemma_node_model(*self);
        }
        match self {
            Node::Table(entries) => find_entry(entries, key),
            _ => None,
        }
    }
}

} // verus!
