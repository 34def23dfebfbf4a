//! Configuration documents as trees of tables and texts, and the parsers that
//! read them from JSON and TOML.

use vstd::prelude::*;

verus! {

/// A value of a configuration document, as far as the dispatcher reads one.
#[derive(Debug)]
pub enum Node {
    /// A string.
    Text(String),
    /// A table or object: its keys with their values.
    Table(Vec<(String, Node)>),
    /// Any other value: a number, a truth value, a date, a list or nothing.
    Other,
}

/// What a `Node` stands for.
pub enum NodeSpec {
    Text(Seq<char>),
    Table(Seq<(Seq<char>, NodeSpec)>),
    Other,
}

/// What the first `count` of `fields` stand for.
pub open spec fn fields_view(fields: Seq<(String, Node)>, count: nat) -> Seq<(Seq<char>, NodeSpec)>
    decreases fields, count,
{
    if count == 0 || count > fields.len() {
        Seq::empty()
    } else {
        fields_view(fields, (count - 1) as nat).push(
            (fields[count - 1].0@, fields[count - 1].1@),
        )
    }
}

impl View for Node {
    type V = NodeSpec;

    open spec fn view(&self) -> NodeSpec
        decreases self, 0nat,
    {
        match self {
            Node::Text(text) => NodeSpec::Text(text@),
            Node::Table(fields) => NodeSpec::Table(fields_view(fields@, fields@.len())),
            Node::Other => NodeSpec::Other,
        }
    }
}

/// Whether no key occurs twice among `fields`.
pub open spec fn keys_distinct(fields: Seq<(Seq<char>, NodeSpec)>) -> bool {
    forall|i: int, j: int| 0 <= i < j < fields.len() ==> fields[i].0 != fields[j].0
}

/// Whether no table in `node`, at any depth, has a key twice.
pub open spec fn well_formed(node: NodeSpec) -> bool
    decreases node,
{
    match node {
        NodeSpec::Table(fields) => keys_distinct(fields) && forall|i: int|
            0 <= i < fields.len() ==> well_formed(#[trigger] fields[i].1),
        _ => true,
    }
}

/// The value that the last of `fields` with the key `key` holds.
pub open spec fn lookup(fields: Seq<(Seq<char>, NodeSpec)>, key: Seq<char>) -> Option<NodeSpec>
    decreases fields.len(),
{
    if fields.len() == 0 {
        None
    } else if fields.last().0 == key {
        Some(fields.last().1)
    } else {
        lookup(fields.drop_last(), key)
    }
}

/// The value under `key` where `node` is a table that has the key.
pub open spec fn field(node: NodeSpec, key: Seq<char>) -> Option<NodeSpec> {
    match node {
        NodeSpec::Table(fields) => lookup(fields, key),
        _ => None,
    }
}

/// The text of `node` where it is one, and the empty text where it is not.
pub open spec fn text_or_empty(node: NodeSpec) -> Seq<char> {
    match node {
        NodeSpec::Text(text) => text,
        _ => Seq::empty(),
    }
}

/// The fields of a table stand for themselves, one by one.
pub proof fn lemma_table_view(node: Node)
    requires
        node is Table,
    ensures
        node@ is Table,
        node@->Table_0.len() == node->Table_0@.len(),
        forall|i: int|
            0 <= i < node->Table_0@.len() ==> node@->Table_0[i] == (
                node->Table_0@[i].0@,
                node->Table_0@[i].1@,
            ),
{
    lemma_fields_view(node->Table_0@, node->Table_0@.len());
}

/// The first `count` fields stand for themselves, one by one.
pub proof fn lemma_fields_view(fields: Seq<(String, Node)>, count: nat)
    requires
        count <= fields.len(),
    ensures
        fields_view(fields, count).len() == count,
        forall|i: int|
            0 <= i < count ==> fields_view(fields, count)[i] == (fields[i].0@, fields[i].1@),
    decreases count,
{
    reveal_with_fuel(fields_view, 2);
    if count > 0 {
        lemma_fields_view(fields, (count - 1) as nat);
    }
}

impl Node {
    /// The value under `key` where this is a table that has the key.
    pub fn get(&self, key: &str) -> (found: Option<&Node>)
        ensures
            match found {
                Some(node) => field(self@, key@) == Some(node@),
                None => field(self@, key@) is None,
            },
    {
        match self {
            Node::Table(fields) => {
                let wanted = key.to_owned();
                let ghost all = self@->Table_0;
                proof {
                    lemma_table_view(*self);
                    assert(all.take(fields@.len() as int) =~= all);
                }
                let mut i: usize = fields.len();
                while i > 0
                    invariant
                        i <= fields@.len(),
                        wanted@ == key@,
                        self@ == NodeSpec::Table(all),
                        all.len() == fields@.len(),
                        forall|k: int|
                            0 <= k < fields@.len() ==> all[k] == (fields@[k].0@, fields@[k].1@),
                        lookup(all, key@) == lookup(all.take(i as int), key@),
                    decreases i,
                {
                    assert(all.take(i as int).drop_last() =~= all.take(i - 1));
                    if fields[i - 1].0 == wanted {
                        return Some(&fields[i - 1].1);
                    }
                    i -= 1;
                }
                None
            },
            _ => None,
        }
    }

    /// The text where this is one.
    pub fn as_text(&self) -> (text: Option<&String>)
        ensures
            match text {
                Some(text) => self@ == NodeSpec::Text(text@),
                None => !(self@ is Text),
            },
    {
        match self {
            Node::Text(text) => Some(text),
            _ => None,
        }
    }

    /// The fields where this is a table.
    pub fn as_table(&self) -> (fields: Option<&Vec<(String, Node)>>)
        ensures
            match fields {
                Some(fields) => self@ == NodeSpec::Table(fields_view(fields@, fields@.len())),
                None => !(self@ is Table),
            },
    {
        match self {
            Node::Table(fields) => Some(fields),
            _ => None,
        }
    }
}

/// What an optional node stands for.
pub open spec fn document_view(document: Option<Node>) -> Option<NodeSpec> {
    match document {
        Some(node) => Some(node@),
        None => None,
    }
}

/// `serde_json::Value`: a JSON value as `serde_json` holds it.
#[verifier::external_type_specification]
#[verifier::external_body]
pub struct ExJsonValue(serde_json::Value);

/// `toml::Value`: a TOML value as `toml` holds it.
#[verifier::external_type_specification]
#[verifier::external_body]
pub struct ExTomlValue(toml::Value);

/// The tree that `serde_json::from_str` reads from the JSON document `text`;
/// `None` where it reports an error.
pub uninterp spec fn json_document(text: Seq<char>) -> Option<NodeSpec>;

/// The tree that `toml::from_str` reads from the TOML document `text`; `None`
/// where it reports an error.
pub uninterp spec fn toml_document(text: Seq<char>) -> Option<NodeSpec>;

/// The tree that a `serde_json::Value` holds: a string as a text, an object
/// as a table of its fields, and every other value as `Other`.
pub uninterp spec fn json_tree(value: serde_json::Value) -> NodeSpec;

/// The tree that a `toml::Value` holds: a string as a text, a table as a
/// table of its fields, and every other value as `Other`.
pub uninterp spec fn toml_tree(value: toml::Value) -> NodeSpec;

/// Calls `serde_json::from_str` for a `serde_json::Value`. The contract claims
/// that the tree of the value depends on the text alone.
#[verifier::external_body]
fn json_value(text: &str) -> (value: Option<serde_json::Value>)
    ensures
        match value {
            Some(value) => json_document(text@) == Some(json_tree(value)),
            None => json_document(text@) is None,
        },
{
    serde_json::from_str::<serde_json::Value>(text).ok()
}

/// Calls `toml::from_str` for a `toml::Value`. The contract claims that the
/// tree of the value depends on the text alone.
#[verifier::external_body]
fn toml_value(text: &str) -> (value: Option<toml::Value>)
    ensures
        match value {
            Some(value) => toml_document(text@) == Some(toml_tree(value)),
            None => toml_document(text@) is None,
        },
{
    toml::from_str::<toml::Value>(text).ok()
}

/// Moves a `serde_json::Value` into a tree, with the fields of an object as
/// `serde_json::Map::into_iter` hands them out. The contract claims that no
/// object in it has a key twice: `serde_json` keeps an object's fields in a
/// map, in which a later field of the same name takes the place of an
/// earlier one.
#[verifier::external_body]
fn json_node(value: serde_json::Value) -> (node: Node)
    ensures
        node@ == json_tree(value),
        well_formed(node@),
{
    match value {
        serde_json::Value::String(text) => Node::Text(text),
        serde_json::Value::Object(fields) => Node::Table(
            fields.into_iter().map(|(key, field)| (key, json_node(field))).collect(),
        ),
        serde_json::Value::Null => Node::Other,
        serde_json::Value::Bool(_) => Node::Other,
        serde_json::Value::Number(_) => Node::Other,
        serde_json::Value::Array(_) => Node::Other,
    }
}

/// Moves a `toml::Value` into a tree, with the fields of a table as
/// `toml::map::Map::into_iter` hands them out. The contract claims that no
/// table in it has a key twice: `toml` keeps a table's fields in a map.
#[verifier::external_body]
fn toml_node(value: toml::Value) -> (node: Node)
    ensures
        node@ == toml_tree(value),
        well_formed(node@),
{
    match value {
        toml::Value::String(text) => Node::Text(text),
        toml::Value::Table(fields) => Node::Table(
            fields.into_iter().map(|(key, field)| (key, toml_node(field))).collect(),
        ),
        toml::Value::Integer(_) => Node::Other,
        toml::Value::Float(_) => Node::Other,
        toml::Value::Boolean(_) => Node::Other,
        toml::Value::Datetime(_) => Node::Other,
        toml::Value::Array(_) => Node::Other,
    }
}

/// Reads a JSON document as a tree; `None` where the text is no JSON document.
pub fn parse_json(text: &str) -> (document: Option<Node>)
    ensures
        document_view(document) == json_document(text@),
        document matches Some(node) ==> well_formed(node@),
{
    match json_value(text) {
        Some(value) => Some(json_node(value)),
        None => None,
    }
}

/// Reads a TOML document as a tree; `None` where the text is no TOML document.
pub fn parse_toml(text: &str) -> (document: Option<Node>)
    ensures
        document_view(document) == toml_document(text@),
        document matches Some(node) ==> well_formed(node@),
{
    match toml_value(text) {
        Some(value) => Some(toml_node(value)),
        None => None,
    }
}

} // verus!
