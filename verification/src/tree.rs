//! Documents as trees of plain values.
//!
//! JSON and TOML texts are read by `serde_json` and `toml`; what they hold
//! becomes a [`Tree`], which the rest of the library decides on.

use vstd::prelude::*;
use crate::text::same_text;

verus! {

/// A document, or a part of one.
#[derive(Debug)]
pub enum Tree {
    /// Nothing.
    Null,
    /// A yes or no.
    Bool(bool),
    /// A number: its value where it is whole, not negative and fits.
    Number(Option<u64>),
    /// A date.
    Other,
    /// A text.
    Text(String),
    /// A list.
    List(Vec<Tree>),
    /// Named members. A name occurs once.
    Table(Vec<(String, Tree)>),
}

/// A tree's contents.
pub enum TreeView {
    /// Nothing.
    Null,
    /// A yes or no.
    Bool(bool),
    /// A number: its value where it is whole, not negative and fits.
    Number(Option<u64>),
    /// A date.
    Other,
    /// A text.
    Text(Seq<char>),
    /// A list.
    List(Seq<TreeView>),
    /// Named members.
    Table(Seq<(Seq<char>, TreeView)>),
}

/// A tree's contents.
pub open spec fn tree_view(tree: Tree) -> TreeView
    decreases tree,
{
    match tree {
        Tree::Null => TreeView::Null,
        Tree::Bool(value) => TreeView::Bool(value),
        Tree::Number(value) => TreeView::Number(value),
        Tree::Other => TreeView::Other,
        Tree::Text(text) => TreeView::Text(text@),
        Tree::List(items) => TreeView::List(
            Seq::new(
                items@.len(),
                |i: int|
                    if 0 <= i < items@.len() {
                        tree_view(items@[i])
                    } else {
                        TreeView::Null
                    },
            ),
        ),
        Tree::Table(members) => TreeView::Table(
            Seq::new(
                members@.len(),
                |i: int|
                    if 0 <= i < members@.len() {
                        (members@[i].0@, tree_view(members@[i].1))
                    } else {
                        (Seq::empty(), TreeView::Null)
                    },
            ),
        ),
    }
}

impl View for Tree {
    type V = TreeView;

    open spec fn view(&self) -> TreeView {
        tree_view(*self)
    }
}

/// The first member with a name, from index `from` on.
pub open spec fn member_from(
    members: Seq<(Seq<char>, TreeView)>,
    name: Seq<char>,
    from: int,
) -> Option<TreeView>
    decreases members.len() - from,
{
    if from < 0 || from >= members.len() {
        None
    } else if members[from].0 == name {
        Some(members[from].1)
    } else {
        member_from(members, name, from + 1)
    }
}

impl TreeView {
    /// The member with a name, where this is a table that has one.
    pub open spec fn member(self, name: Seq<char>) -> Option<TreeView> {
        match self {
            TreeView::Table(members) => member_from(members, name, 0),
            _ => None,
        }
    }

    /// The items, where this is a list.
    pub open spec fn items(self) -> Option<Seq<TreeView>> {
        match self {
            TreeView::List(items) => Some(items),
            _ => None,
        }
    }

    /// The number, where this is a whole number that fits.
    pub open spec fn whole(self) -> Option<u64> {
        match self {
            TreeView::Number(value) => value,
            _ => None,
        }
    }
}

/// A tree's contents, where there is a tree.
pub open spec fn maybe_view(tree: Option<&Tree>) -> Option<TreeView> {
    match tree {
        Some(tree) => Some(tree@),
        None => None,
    }
}

impl Tree {
    /// The member with a name, where this is a table that has one.
    pub fn member(&self, name: &str) -> (found: Option<&Tree>)
        ensures
            maybe_view(found) == self@.member(name@),
    {
        match self {
            Tree::Table(members) => {
                let ghost rows = self@->Table_0;
                let mut i: usize = 0;
                while i < members.len()
                    invariant
                        i <= members@.len(),
                        self@ == TreeView::Table(rows),
                        rows.len() == members@.len(),
                        forall|j: int|
                            0 <= j < members@.len() ==> #[trigger] rows[j] == (
                                members@[j].0@,
                                members@[j].1@,
                            ),
                        self@.member(name@) == member_from(rows, name@, i as int),
                    decreases members.len() - i,
                {
                    if same_text(&members[i].0, name) {
                        return Some(&members[i].1);
                    }
                    i += 1;
                }
                None
            },
            _ => None,
        }
    }

    /// The items, where this is a list.
    pub fn items(&self) -> (found: Option<&Vec<Tree>>)
        ensures
            match found {
                Some(items) => {
                    &&& self@.items() is Some
                    &&& self@.items()->0.len() == items@.len()
                    &&& forall|i: int|
                        0 <= i < items@.len() ==> #[trigger] self@.items()->0[i] == items@[i]@
                },
                None => self@.items() is None,
            },
    {
        match self {
            Tree::List(items) => Some(items),
            _ => None,
        }
    }

    /// The number, where this is a whole number that fits.
    pub fn whole(&self) -> (found: Option<u64>)
        ensures
            found == self@.whole(),
    {
        match self {
            Tree::Number(value) => *value,
            _ => None,
        }
    }
}

/// One level of a JSON value: members and items are still JSON values.
pub enum JsonNode {
    /// Nothing.
    Null,
    /// A yes or no.
    Bool(bool),
    /// A number: its value where it is whole, not negative and fits.
    Number(Option<u64>),
    /// A text.
    Text(String),
    /// A list.
    List(Vec<serde_json::Value>),
    /// Named members.
    Table(Vec<(String, serde_json::Value)>),
}

/// A value of `serde_json`.
#[verifier::external_type_specification]
#[verifier::external_body]
pub struct ExJsonValue(serde_json::Value);

/// What a `serde_json` value holds.
pub uninterp spec fn json_view(value: serde_json::Value) -> TreeView;

/// What `serde_json` reads in a text: a document, or the sentence of its error.
pub uninterp spec fn json_document(bytes: Seq<u8>) -> Result<TreeView, Seq<char>>;

/// Whether a level holds what the value held.
pub open spec fn json_level(node: JsonNode, whole: TreeView) -> bool {
    match node {
        JsonNode::Null => whole == TreeView::Null,
        JsonNode::Bool(value) => whole == TreeView::Bool(value),
        JsonNode::Number(value) => whole == TreeView::Number(value),
        JsonNode::Text(text) => whole == TreeView::Text(text@),
        JsonNode::List(items) => {
            &&& whole is List
            &&& whole->List_0.len() == items@.len()
            &&& forall|i: int|
                0 <= i < items@.len() ==> #[trigger] whole->List_0[i] == json_view(items@[i])
        },
        JsonNode::Table(members) => {
            &&& whole is Table
            &&& whole->Table_0.len() == members@.len()
            &&& forall|i: int|
                0 <= i < members@.len() ==> #[trigger] whole->Table_0[i] == (
                    members@[i].0@,
                    json_view(members@[i].1),
                )
        },
    }
}

/// Takes a `serde_json::Value` apart, variant by variant; a number is read
/// with `Number::as_u64`, and an object is handed out as its entries.
#[verifier::external_body]
fn json_node(value: serde_json::Value) -> (node: JsonNode)
    ensures
        json_level(node, json_view(value)),
{
    match value {
        serde_json::Value::Null => JsonNode::Null,
        serde_json::Value::Bool(value) => JsonNode::Bool(value),
        serde_json::Value::Number(value) => JsonNode::Number(value.as_u64()),
        serde_json::Value::String(text) => JsonNode::Text(text),
        serde_json::Value::Array(items) => JsonNode::List(items),
        serde_json::Value::Object(members) => JsonNode::Table(members.into_iter().collect()),
    }
}

/// Reads JSON with `serde_json::from_slice`. What it reads, and the sentence
/// of its error, depend on the bytes alone.
#[verifier::external_body]
fn json_value(bytes: &[u8]) -> (read: Result<serde_json::Value, String>)
    ensures
        match read {
            Ok(value) => json_document(bytes@) == Ok::<TreeView, Seq<char>>(json_view(value)),
            Err(text) => json_document(bytes@) == Err::<TreeView, Seq<char>>(text@),
        },
{
    serde_json::from_slice(bytes).map_err(|error| error.to_string())
}

/// A JSON value as a tree.
fn json_tree(source: serde_json::Value) -> (tree: Tree)
    ensures
        tree@ == json_view(source),
    decreases json_view(source),
{
    let ghost whole = json_view(source);
    match json_node(source) {
        JsonNode::Null => Tree::Null,
        JsonNode::Bool(value) => Tree::Bool(value),
        JsonNode::Number(value) => Tree::Number(value),
        JsonNode::Text(text) => Tree::Text(text),
        JsonNode::List(items) => {
            let ghost rows = whole->List_0;
            let mut values = items;
            let mut trees: Vec<Tree> = Vec::new();
            while values.len() > 0
                invariant
                    whole is List,
                    whole == json_view(source),
                    rows == whole->List_0,
                    values@.len() + trees@.len() == rows.len(),
                    forall|i: int|
                        0 <= i < values@.len() ==> #[trigger] json_view(values@[i])
                            == rows[trees@.len() + i],
                    forall|i: int| 0 <= i < trees@.len() ==> #[trigger] trees@[i]@ == rows[i],
                decreases values.len(),
            {
                let ghost before = values@;
                let ghost done = trees@;
                let value = values.remove(0);
                assert(json_view(before[0]) == rows[done.len() as int]);
                assert(decreases_to!(whole => whole->List_0[done.len() as int]));
                let tree = json_tree(value);
                trees.push(tree);
                assert forall|i: int| 0 <= i < values@.len() implies #[trigger] json_view(
                    values@[i],
                ) == rows[trees@.len() + i] by {
                    assert(values@[i] == before[i + 1]);
                }
            }
            let ghost done = trees@;
            let tree = Tree::List(trees);
            assert forall|i: int| 0 <= i < rows.len() implies tree@->List_0[i] == rows[i] by {
                assert(done[i]@ == rows[i]);
            }
            assert(tree@->List_0 =~= rows);
            tree
        },
        JsonNode::Table(members) => {
            let ghost rows = whole->Table_0;
            let mut values = members;
            let mut trees: Vec<(String, Tree)> = Vec::new();
            while values.len() > 0
                invariant
                    whole is Table,
                    whole == json_view(source),
                    rows == whole->Table_0,
                    values@.len() + trees@.len() == rows.len(),
                    forall|i: int|
                        0 <= i < values@.len() ==> (
                            #[trigger] values@[i].0@,
                            json_view(values@[i].1),
                        ) == rows[trees@.len() + i],
                    forall|i: int|
                        0 <= i < trees@.len() ==> (#[trigger] trees@[i].0@, trees@[i].1@)
                            == rows[i],
                decreases values.len(),
            {
                let ghost before = values@;
                let ghost done = trees@;
                let (name, value) = values.remove(0);
                assert((before[0].0@, json_view(before[0].1)) == rows[done.len() as int]);
                assert(decreases_to!(whole => whole->Table_0[done.len() as int].1));
                let tree = json_tree(value);
                trees.push((name, tree));
                assert forall|i: int| 0 <= i < values@.len() implies (
                    #[trigger] values@[i].0@,
                    json_view(values@[i].1),
                ) == rows[trees@.len() + i] by {
                    assert(values@[i] == before[i + 1]);
                }
            }
            let tree = Tree::Table(trees);
            assert(tree@->Table_0 =~= rows);
            tree
        },
    }
}

/// Reads a JSON document.
pub fn read_json(bytes: &[u8]) -> (read: Result<Tree, String>)
    ensures
        match read {
            Ok(tree) => json_document(bytes@) == Ok::<TreeView, Seq<char>>(tree@),
            Err(text) => json_document(bytes@) == Err::<TreeView, Seq<char>>(text@),
        },
{
    match json_value(bytes) {
        Ok(value) => Ok(json_tree(value)),
        Err(text) => Err(text),
    }
}

/// One level of a TOML value: members and items are still TOML values.
pub enum TomlNode {
    /// A yes or no.
    Bool(bool),
    /// A number: its value where it is whole, not negative and fits.
    Number(Option<u64>),
    /// A date.
    Other,
    /// A text.
    Text(String),
    /// A list.
    List(Vec<toml::Value>),
    /// Named members.
    Table(Vec<(String, toml::Value)>),
}

/// A value of `toml`.
#[verifier::external_type_specification]
#[verifier::external_body]
pub struct ExTomlValue(toml::Value);

/// What a `toml` value holds.
pub uninterp spec fn toml_view(value: toml::Value) -> TreeView;

/// What `toml` reads in a text: a document, or the sentence of its error.
pub uninterp spec fn toml_document(text: Seq<char>) -> Result<TreeView, Seq<char>>;

/// Whether a level holds what the value held.
pub open spec fn toml_level(node: TomlNode, whole: TreeView) -> bool {
    match node {
        TomlNode::Other => whole == TreeView::Other,
        TomlNode::Bool(value) => whole == TreeView::Bool(value),
        TomlNode::Number(value) => whole == TreeView::Number(value),
        TomlNode::Text(text) => whole == TreeView::Text(text@),
        TomlNode::List(items) => {
            &&& whole is List
            &&& whole->List_0.len() == items@.len()
            &&& forall|i: int|
                0 <= i < items@.len() ==> #[trigger] whole->List_0[i] == toml_view(items@[i])
        },
        TomlNode::Table(members) => {
            &&& whole is Table
            &&& whole->Table_0.len() == members@.len()
            &&& forall|i: int|
                0 <= i < members@.len() ==> #[trigger] whole->Table_0[i] == (
                    members@[i].0@,
                    toml_view(members@[i].1),
                )
        },
    }
}

/// Takes a `toml::Value` apart, variant by variant; an integer is read with
/// `u64::try_from`, and a table is handed out as its entries.
#[verifier::external_body]
fn toml_node(value: toml::Value) -> (node: TomlNode)
    ensures
        toml_level(node, toml_view(value)),
{
    match value {
        toml::Value::Boolean(value) => TomlNode::Bool(value),
        toml::Value::Integer(value) => TomlNode::Number(u64::try_from(value).ok()),
        toml::Value::Float(_) => TomlNode::Number(None),
        toml::Value::Datetime(_) => TomlNode::Other,
        toml::Value::String(text) => TomlNode::Text(text),
        toml::Value::Array(items) => TomlNode::List(items),
        toml::Value::Table(members) => TomlNode::Table(members.into_iter().collect()),
    }
}

/// Reads TOML with `toml::from_str`. What it reads, and the sentence of its
/// error, depend on the text alone.
#[verifier::external_body]
fn toml_value(text: &str) -> (read: Result<toml::Value, String>)
    ensures
        match read {
            Ok(value) => toml_document(text@) == Ok::<TreeView, Seq<char>>(toml_view(value)),
            Err(error) => toml_document(text@) == Err::<TreeView, Seq<char>>(error@),
        },
{
    toml::from_str::<toml::Table>(text).map(toml::Value::Table).map_err(|error| error.to_string())
}

/// A TOML value as a tree.
fn toml_tree(source: toml::Value) -> (tree: Tree)
    ensures
        tree@ == toml_view(source),
    decreases toml_view(source),
{
    let ghost whole = toml_view(source);
    match toml_node(source) {
        TomlNode::Other => Tree::Other,
        TomlNode::Bool(value) => Tree::Bool(value),
        TomlNode::Number(value) => Tree::Number(value),
        TomlNode::Text(text) => Tree::Text(text),
        TomlNode::List(items) => {
            let ghost rows = whole->List_0;
            let mut values = items;
            let mut trees: Vec<Tree> = Vec::new();
            while values.len() > 0
                invariant
                    whole is List,
                    whole == toml_view(source),
                    rows == whole->List_0,
                    values@.len() + trees@.len() == rows.len(),
                    forall|i: int|
                        0 <= i < values@.len() ==> #[trigger] toml_view(values@[i])
                            == rows[trees@.len() + i],
                    forall|i: int| 0 <= i < trees@.len() ==> #[trigger] trees@[i]@ == rows[i],
                decreases values.len(),
            {
                let ghost before = values@;
                let ghost done = trees@;
                let value = values.remove(0);
                assert(toml_view(before[0]) == rows[done.len() as int]);
                assert(decreases_to!(whole => whole->List_0[done.len() as int]));
                let tree = toml_tree(value);
                trees.push(tree);
                assert forall|i: int| 0 <= i < values@.len() implies #[trigger] toml_view(
                    values@[i],
                ) == rows[trees@.len() + i] by {
                    assert(values@[i] == before[i + 1]);
                }
            }
            let ghost done = trees@;
            let tree = Tree::List(trees);
            assert forall|i: int| 0 <= i < rows.len() implies tree@->List_0[i] == rows[i] by {
                assert(done[i]@ == rows[i]);
            }
            assert(tree@->List_0 =~= rows);
            tree
        },
        TomlNode::Table(members) => {
            let ghost rows = whole->Table_0;
            let mut values = members;
            let mut trees: Vec<(String, Tree)> = Vec::new();
            while values.len() > 0
                invariant
                    whole is Table,
                    whole == toml_view(source),
                    rows == whole->Table_0,
                    values@.len() + trees@.len() == rows.len(),
                    forall|i: int|
                        0 <= i < values@.len() ==> (
                            #[trigger] values@[i].0@,
                            toml_view(values@[i].1),
                        ) == rows[trees@.len() + i],
                    forall|i: int|
                        0 <= i < trees@.len() ==> (#[trigger] trees@[i].0@, trees@[i].1@)
                            == rows[i],
                decreases values.len(),
            {
                let ghost before = values@;
                let ghost done = trees@;
                let (name, value) = values.remove(0);
                assert((before[0].0@, toml_view(before[0].1)) == rows[done.len() as int]);
                assert(decreases_to!(whole => whole->Table_0[done.len() as int].1));
                let tree = toml_tree(value);
                trees.push((name, tree));
                assert forall|i: int| 0 <= i < values@.len() implies (
                    #[trigger] values@[i].0@,
                    toml_view(values@[i].1),
                ) == rows[trees@.len() + i] by {
                    assert(values@[i] == before[i + 1]);
                }
            }
            let tree = Tree::Table(trees);
            assert(tree@->Table_0 =~= rows);
            tree
        },
    }
}

/// Reads a TOML document.
pub fn read_toml(text: &str) -> (read: Result<Tree, String>)
    ensures
        match read {
            Ok(tree) => toml_document(text@) == Ok::<TreeView, Seq<char>>(tree@),
            Err(error) => toml_document(text@) == Err::<TreeView, Seq<char>>(error@),
        },
{
    match toml_value(text) {
        Ok(value) => Ok(toml_tree(value)),
        Err(error) => Err(error),
    }
}

/// A table's member is the first with its name; what is no table has none.
pub proof fn law_members_are_found_by_name(
    members: Seq<(Seq<char>, TreeView)>,
    name: Seq<char>,
    at: int,
)
    ensures
        0 <= at < members.len() && members[at].0 == name && (forall|j: int|
            0 <= j < at ==> (#[trigger] members[j]).0 != name) ==> TreeView::Table(members).member(
            name,
        ) == Some(members[at].1),
        (forall|j: int| 0 <= j < members.len() ==> (#[trigger] members[j]).0 != name)
            ==> TreeView::Table(members).member(name) is None,
        TreeView::Null.member(name) is None,
{
    if 0 <= at < members.len() && members[at].0 == name && (forall|j: int|
        0 <= j < at ==> (#[trigger] members[j]).0 != name) {
        lemma_member_at(members, name, 0, at);
    }
    if forall|j: int| 0 <= j < members.len() ==> (#[trigger] members[j]).0 != name {
        lemma_no_member(members, name, 0);
    }
}

proof fn lemma_member_at(
    members: Seq<(Seq<char>, TreeView)>,
    name: Seq<char>,
    from: int,
    at: int,
)
    requires
        0 <= from <= at < members.len(),
        members[at].0 == name,
        forall|j: int| from <= j < at ==> (#[trigger] members[j]).0 != name,
    ensures
        member_from(members, name, from) == Some(members[at].1),
    decreases at - from,
{
    if from < at {
        assert(members[from].0 != name);
        lemma_member_at(members, name, from + 1, at);
    }
}

proof fn lemma_no_member(members: Seq<(Seq<char>, TreeView)>, name: Seq<char>, from: int)
    requires
        0 <= from <= members.len(),
        forall|j: int| from <= j < members.len() ==> (#[trigger] members[j]).0 != name,
    ensures
        member_from(members, name, from) is None,
    decreases members.len() - from,
{
    if from < members.len() {
        assert(members[from].0 != name);
        lemma_no_member(members, name, from + 1);
    }
}

/// The items of a list are its items, and the value of a number is its value;
/// of anything else there are none.
pub proof fn law_items_and_numbers(tree: TreeView)
    ensures
        tree matches TreeView::List(items) ==> tree.items() == Some(items),
        !(tree is List) ==> tree.items() is None,
        tree matches TreeView::Number(value) ==> tree.whole() == value,
        !(tree is Number) ==> tree.whole() is None,
{
}

} // verus!
