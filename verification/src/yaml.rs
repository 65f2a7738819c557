//! Reading and writing YAML, which the `serde_yaml` crate does.
//!
//! The crate's own value type stays inside this module. A parsed value is
//! copied into a [`Node`] level by level, and a node is copied back into a
//! value before it is written.

use crate::error::{Failure, GenError};
use crate::node::{pairs_of, trees_of, Node, Tree};
use vstd::prelude::*;

verus! {

/// `serde_yaml::Value`: a YAML value, opaque outside this module.
#[verifier::external_type_specification]
#[verifier::external_body]
pub struct ExValue(serde_yaml::Value);

/// `serde_yaml::Error`: why reading or writing failed.
#[verifier::external_type_specification]
#[verifier::external_body]
pub struct ExError(serde_yaml::Error);

/// The tree that a value of `serde_yaml` holds.
pub uninterp spec fn value_tree(v: serde_yaml::Value) -> Tree;

/// The tree that `serde_yaml::from_str` reads from a text, if it reads one.
pub uninterp spec fn parsed_yaml(text: Seq<char>) -> Option<Tree>;

/// The text that `serde_yaml::to_string` writes for a value that holds the
/// given tree, if it writes one.
pub uninterp spec fn written_yaml(tree: Tree) -> Option<Seq<char>>;

/// The entries that a mapping of `serde_yaml` holds once it has been
/// collected from the given entries: of entries with equal keys it keeps one.
pub uninterp spec fn collected(entries: Seq<(Tree, Tree)>) -> Seq<(Tree, Tree)>;

/// One level of a value: its kind, its payload, and its children as they are.
enum Level<'a> {
    Null,
    Bool(bool),
    Number(&'a serde_yaml::Number),
    Str(&'a String),
    Sequence(&'a Vec<serde_yaml::Value>),
    Mapping(Vec<(&'a serde_yaml::Value, &'a serde_yaml::Value)>),
}

/// One level of a value to be, with its children already made.
enum Part {
    Null,
    Bool(bool),
    Number(serde_yaml::Number),
    Str(String),
    Sequence(Vec<serde_yaml::Value>),
    Mapping(Vec<(serde_yaml::Value, serde_yaml::Value)>),
}

/// The tree that a level shows.
spec fn level_tree(level: Level) -> Tree {
    match level {
        Level::Null => Tree::Null,
        Level::Bool(b) => Tree::Bool(b),
        Level::Number(n) => Tree::Number(*n),
        Level::Str(s) => Tree::Str(s@),
        Level::Sequence(items) => Tree::Sequence(
            items@.map_values(|v: serde_yaml::Value| value_tree(v)),
        ),
        Level::Mapping(entries) => Tree::Mapping(
            entries@.map_values(
                |e: (&serde_yaml::Value, &serde_yaml::Value)| (value_tree(*e.0), value_tree(*e.1)),
            ),
        ),
    }
}

/// The trees of the entries of a part that is a mapping, as they are handed
/// in.
spec fn entry_trees(entries: Seq<(serde_yaml::Value, serde_yaml::Value)>) -> Seq<
    (Tree, Tree),
> {
    entries.map_values(
        |e: (serde_yaml::Value, serde_yaml::Value)| (value_tree(e.0), value_tree(e.1)),
    )
}

/// The tree of the value that a part other than a mapping is turned into.
spec fn part_tree(part: Part) -> Tree {
    match part {
        Part::Null => Tree::Null,
        Part::Bool(b) => Tree::Bool(b),
        Part::Number(n) => Tree::Number(n),
        Part::Str(s) => Tree::Str(s@),
        Part::Sequence(items) => Tree::Sequence(
            items@.map_values(|v: serde_yaml::Value| value_tree(v)),
        ),
        Part::Mapping(entries) => Tree::Mapping(entry_trees(entries@)),
    }
}

/// `serde_yaml::from_str` into a `Value`: the value read holds the tree that
/// the text stands for, and an error comes exactly when the text stands for
/// none.
#[verifier::external_body]
fn yaml_from_str(text: &str) -> (r: Result<serde_yaml::Value, serde_yaml::Error>)
    ensures
        match r {
            Ok(v) => parsed_yaml(text@) == Some(value_tree(v)),
            Err(_) => parsed_yaml(text@) is None,
        },
{
    serde_yaml::from_str(text)
}

/// `serde_yaml::to_string` of a `Value`: the text depends on the tree that
/// the value holds and on nothing else.
#[verifier::external_body]
fn yaml_to_string(v: &serde_yaml::Value) -> (r: Result<String, serde_yaml::Error>)
    ensures
        match r {
            Ok(text) => written_yaml(value_tree(*v)) == Some(text@),
            Err(_) => written_yaml(value_tree(*v)) is None,
        },
{
    serde_yaml::to_string(v)
}

/// Tells the variants of `serde_yaml::Value` apart and hands out what the
/// variant holds; the entries of a mapping come in the order of
/// `Mapping::iter`, which is the order of insertion.
#[verifier::external_body]
fn peel(v: &serde_yaml::Value) -> (level: Level<'_>)
    ensures
        level_tree(level) == value_tree(*v),
{
    match v {
        serde_yaml::Value::Null => Level::Null,
        serde_yaml::Value::Bool(b) => Level::Bool(*b),
        serde_yaml::Value::Number(n) => Level::Number(n),
        serde_yaml::Value::String(s) => Level::Str(s),
        serde_yaml::Value::Sequence(items) => Level::Sequence(items),
        serde_yaml::Value::Mapping(entries) => Level::Mapping(entries.iter().collect()),
    }
}

/// Makes the variant of `serde_yaml::Value` that a part names; a mapping is
/// collected from its entries by `Mapping::from_iter`.
#[verifier::external_body]
fn join(part: Part) -> (v: serde_yaml::Value)
    ensures
        match part {
            Part::Mapping(entries) => value_tree(v) == Tree::Mapping(
                collected(entry_trees(entries@)),
            ),
            _ => value_tree(v) == part_tree(part),
        },
{
    match part {
        Part::Null => serde_yaml::Value::Null,
        Part::Bool(b) => serde_yaml::Value::Bool(b),
        Part::Number(n) => serde_yaml::Value::Number(n),
        Part::Str(s) => serde_yaml::Value::String(s),
        Part::Sequence(items) => serde_yaml::Value::Sequence(items),
        Part::Mapping(entries) => serde_yaml::Value::Mapping(entries.into_iter().collect()),
    }
}

/// The tree that a value holds once it has been made from `tree`: the same
/// tree, but for what the mappings of `serde_yaml` do to entries with equal
/// keys.
pub open spec fn stored(tree: Tree) -> Tree
    decreases tree, 0nat,
{
    match tree {
        Tree::Sequence(items) => Tree::Sequence(stored_items(items)),
        Tree::Mapping(entries) => Tree::Mapping(collected(stored_entries(entries))),
        _ => tree,
    }
}

/// [`stored`], item by item.
pub open spec fn stored_items(items: Seq<Tree>) -> Seq<Tree>
    decreases items, 1nat,
{
    Seq::new(
        items.len(),
        |i: int|
            if 0 <= i < items.len() {
                stored(items[i])
            } else {
                Tree::Null
            },
    )
}

/// [`stored`], entry by entry.
pub open spec fn stored_entries(entries: Seq<(Tree, Tree)>) -> Seq<(Tree, Tree)>
    decreases entries, 1nat,
{
    Seq::new(
        entries.len(),
        |i: int|
            if 0 <= i < entries.len() {
                (stored(entries[i].0), stored(entries[i].1))
            } else {
                (Tree::Null, Tree::Null)
            },
    )
}

/// The text that the tree is written as, if it can be written.
pub open spec fn yaml_text(tree: Tree) -> Option<Seq<char>> {
    written_yaml(stored(tree))
}

/// Copies a value of `serde_yaml` into a node.
fn node_of(v: &serde_yaml::Value) -> (node: Node)
    ensures
        node@ == value_tree(*v),
    decreases value_tree(*v),
{
    match peel(v) {
        Level::Null => Node::Null,
        Level::Bool(b) => Node::Bool(b),
        Level::Number(n) => Node::Number(n.clone()),
        Level::Str(s) => Node::Str(s.clone()),
        Level::Sequence(items) => {
            let ghost trees = items@.map_values(|c: serde_yaml::Value| value_tree(c));
            let mut out: Vec<Node> = Vec::new();
            let mut i: usize = 0;
            while i < items.len()
                invariant
                    i <= items.len(),
                    value_tree(*v) == Tree::Sequence(trees),
                    trees == items@.map_values(|c: serde_yaml::Value| value_tree(c)),
                    out@.len() == i,
                    forall|j: int| 0 <= j < i ==> (#[trigger] out@[j])@ == trees[j],
                decreases items.len() - i,
            {
                proof {
                    assert(trees[i as int] == value_tree(items@[i as int]));
                    assert(decreases_to!(value_tree(*v) => value_tree(*v)->Sequence_0));
                    assert(decreases_to!(trees => trees[i as int]));
                }
                let child = node_of(&items[i]);
                out.push(child);
                i += 1;
            }
            assert(trees_of(out@) =~= trees);
            Node::Sequence(out)
        },
        Level::Mapping(entries) => {
            let ghost trees = entries@.map_values(
                |e: (&serde_yaml::Value, &serde_yaml::Value)| (value_tree(*e.0), value_tree(*e.1)),
            );
            let mut out: Vec<(Node, Node)> = Vec::new();
            let mut i: usize = 0;
            while i < entries.len()
                invariant
                    i <= entries.len(),
                    value_tree(*v) == Tree::Mapping(trees),
                    trees == entries@.map_values(
                        |e: (&serde_yaml::Value, &serde_yaml::Value)|
                            (value_tree(*e.0), value_tree(*e.1)),
                    ),
                    out@.len() == i,
                    forall|j: int|
                        0 <= j < i ==> ((#[trigger] out@[j]).0@, out@[j].1@) == trees[j],
                decreases entries.len() - i,
            {
                proof {
                    assert(trees[i as int] == (
                        value_tree(*entries@[i as int].0),
                        value_tree(*entries@[i as int].1),
                    ));
                    assert(decreases_to!(value_tree(*v) => value_tree(*v)->Mapping_0));
                    assert(decreases_to!(trees => trees[i as int]));
                    assert(decreases_to!(trees[i as int] => trees[i as int].0));
                    assert(decreases_to!(trees[i as int] => trees[i as int].1));
                }
                let key = node_of(entries[i].0);
                let value = node_of(entries[i].1);
                out.push((key, value));
                i += 1;
            }
            assert(pairs_of(out@) =~= trees);
            Node::Mapping(out)
        },
    }
}

/// Copies a node into a value of `serde_yaml`.
fn value_of(node: &Node) -> (v: serde_yaml::Value)
    ensures
        value_tree(v) == stored(node@),
    decreases node,
{
    match node {
        Node::Null => join(Part::Null),
        Node::Bool(b) => join(Part::Bool(*b)),
        Node::Number(n) => join(Part::Number(n.clone())),
        Node::Str(s) => join(Part::Str(s.clone())),
        Node::Sequence(items) => {
            let mut out: Vec<serde_yaml::Value> = Vec::new();
            let mut i: usize = 0;
            while i < items.len()
                invariant
                    i <= items.len(),
                    *node == Node::Sequence(*items),
                    out@.len() == i,
                    forall|j: int|
                        0 <= j < i ==> value_tree(#[trigger] out@[j]) == stored(items@[j]@),
                decreases items.len() - i,
            {
                proof {
                    assert(decreases_to!(*node => node->Sequence_0));
                    assert(decreases_to!(*items => items[i as int]));
                }
                let child = value_of(&items[i]);
                out.push(child);
                i += 1;
            }
            let ghost made = out@;
            let v = join(Part::Sequence(out));
            proof {
                assert(made.map_values(|c: serde_yaml::Value| value_tree(c)) =~= stored_items(
                    trees_of(items@),
                ));
            }
            v
        },
        Node::Mapping(entries) => {
            let mut out: Vec<(serde_yaml::Value, serde_yaml::Value)> = Vec::new();
            let mut i: usize = 0;
            while i < entries.len()
                invariant
                    i <= entries.len(),
                    *node == Node::Mapping(*entries),
                    out@.len() == i,
                    forall|j: int|
                        0 <= j < i ==> value_tree((#[trigger] out@[j]).0) == stored(
                            entries@[j].0@,
                        ) && value_tree(out@[j].1) == stored(entries@[j].1@),
                decreases entries.len() - i,
            {
                proof {
                    assert(decreases_to!(*node => node->Mapping_0));
                    assert(decreases_to!(*entries => entries[i as int]));
                    assert(decreases_to!(entries[i as int] => entries[i as int].0));
                    assert(decreases_to!(entries[i as int] => entries[i as int].1));
                }
                let key = value_of(&entries[i].0);
                let value = value_of(&entries[i].1);
                out.push((key, value));
                i += 1;
            }
            let ghost made = out@;
            let v = join(Part::Mapping(out));
            proof {
                assert(entry_trees(made) =~= stored_entries(pairs_of(entries@)));
            }
            v
        },
    }
}

/// Reads a YAML document.
pub fn parse_document(text: &str) -> (r: Result<Node, GenError>)
    ensures
        match parsed_yaml(text@) {
            Some(tree) => r matches Ok(node) && node@ == tree,
            None => r matches Err(e) && e@ == Failure::NotYaml,
        },
{
    match yaml_from_str(text) {
        Ok(v) => Ok(node_of(&v)),
        Err(_) => Err(GenError::NotYaml),
    }
}

/// Writes a tree as YAML.
pub fn emit(node: &Node) -> (r: Result<String, GenError>)
    ensures
        match yaml_text(node@) {
            Some(text) => r matches Ok(out) && out@ == text,
            None => r matches Err(e) && e@ == Failure::NotSerializable,
        },
{
    let v = value_of(node);
    match yaml_to_string(&v) {
        Ok(text) => Ok(text),
        Err(_) => Err(GenError::NotSerializable),
    }
}

} // verus!
