//! The document tree: scalars, ordered lists and ordered mappings.

use crate::text::same_text;
use vstd::prelude::*;

verus! {

/// `serde_yaml::Number`: a YAML number, which the library carries along and
/// never reads.
#[verifier::external_type_specification]
#[verifier::external_body]
pub struct ExNumber(serde_yaml::Number);

/// `Clone::clone` of `serde_yaml::Number`: the copy is the number itself.
pub assume_specification[ <serde_yaml::Number as Clone>::clone ](
    n: &serde_yaml::Number,
) -> (r: serde_yaml::Number)
    ensures
        r == *n,
;

/// A node of a parsed document.
///
/// A mapping keeps its entries in the order of the document.
#[derive(Debug, PartialEq)]
pub enum Node {
    Null,
    Bool(bool),
    Number(serde_yaml::Number),
    Str(String),
    Sequence(Vec<Node>),
    Mapping(Vec<(Node, Node)>),
}

/// What a [`Node`] stands for: the same tree over mathematical sequences.
pub enum Tree {
    Null,
    Bool(bool),
    Number(serde_yaml::Number),
    Str(Seq<char>),
    Sequence(Seq<Tree>),
    Mapping(Seq<(Tree, Tree)>),
}

/// The tree that a node stands for.
pub open spec fn tree_of(node: Node) -> Tree
    decreases node, 0nat,
{
    match node {
        Node::Null => Tree::Null,
        Node::Bool(b) => Tree::Bool(b),
        Node::Number(n) => Tree::Number(n),
        Node::Str(s) => Tree::Str(s@),
        Node::Sequence(items) => Tree::Sequence(trees_of(items@)),
        Node::Mapping(entries) => Tree::Mapping(pairs_of(entries@)),
    }
}

/// The trees that the nodes of a list stand for.
pub open spec fn trees_of(items: Seq<Node>) -> Seq<Tree>
    decreases items, 1nat,
{
    Seq::new(
        items.len(),
        |i: int|
            if 0 <= i < items.len() {
                tree_of(items[i])
            } else {
                Tree::Null
            },
    )
}

/// The pairs of trees that the entries of a mapping stand for.
pub open spec fn pairs_of(entries: Seq<(Node, Node)>) -> Seq<(Tree, Tree)>
    decreases entries, 1nat,
{
    Seq::new(
        entries.len(),
        |i: int|
            if 0 <= i < entries.len() {
                (tree_of(entries[i].0), tree_of(entries[i].1))
            } else {
                (Tree::Null, Tree::Null)
            },
    )
}

impl View for Node {
    type V = Tree;

    open spec fn view(&self) -> Tree {
        tree_of(*self)
    }
}

/// The text of a tree that is a string.
pub open spec fn text_of(tree: Tree) -> Option<Seq<char>> {
    match tree {
        Tree::Str(text) => Some(text),
        _ => None,
    }
}

/// The value of the first entry whose key is the string `key`.
pub open spec fn entry_value(entries: Seq<(Tree, Tree)>, key: Seq<char>) -> Option<Tree>
    decreases entries.len(),
{
    if entries.len() == 0 {
        None
    } else if entries[0].0 == Tree::Str(key) {
        Some(entries[0].1)
    } else {
        entry_value(entries.skip(1), key)
    }
}

/// What a mapping holds under the string `key`, if `tree` is a mapping and
/// has such a key.
pub open spec fn member(tree: Tree, key: Seq<char>) -> Option<Tree> {
    match tree {
        Tree::Mapping(entries) => entry_value(entries, key),
        _ => None,
    }
}

/// What stands under `key`, with null for what is not there.
pub open spec fn field(tree: Tree, key: Seq<char>) -> Tree {
    match member(tree, key) {
        Some(value) => value,
        None => Tree::Null,
    }
}

impl Node {
    /// A copy of the whole tree.
    pub fn duplicate(&self) -> (copy: Node)
        ensures
            copy@ == self@,
        decreases self,
    {
        match self {
            Node::Null => Node::Null,
            Node::Bool(b) => Node::Bool(*b),
            Node::Number(n) => Node::Number(n.clone()),
            Node::Str(s) => Node::Str(s.clone()),
            Node::Sequence(items) => {
                let mut out: Vec<Node> = Vec::new();
                let mut i: usize = 0;
                while i < items.len()
                    invariant
                        i <= items.len(),
                        *self == Node::Sequence(*items),
                        out@.len() == i,
                        forall|j: int| 0 <= j < i ==> (#[trigger] out@[j])@ == items@[j]@,
                    decreases items.len() - i,
                {
                    proof {
                        assert(decreases_to!(*self => self->Sequence_0));
                        assert(decreases_to!(*items => items[i as int]));
                    }
                    let child = items[i].duplicate();
                    out.push(child);
                    i += 1;
                }
                assert(trees_of(out@) =~= trees_of(items@));
                Node::Sequence(out)
            },
            Node::Mapping(entries) => {
                let mut out: Vec<(Node, Node)> = Vec::new();
                let mut i: usize = 0;
                while i < entries.len()
                    invariant
                        i <= entries.len(),
                        *self == Node::Mapping(*entries),
                        out@.len() == i,
                        forall|j: int|
                            0 <= j < i ==> (#[trigger] out@[j]).0@ == entries@[j].0@ && out@[j].1@
                                == entries@[j].1@,
                    decreases entries.len() - i,
                {
                    proof {
                        assert(decreases_to!(*self => self->Mapping_0));
                        assert(decreases_to!(*entries => entries[i as int]));
                        assert(decreases_to!(entries[i as int] => entries[i as int].0));
                        assert(decreases_to!(entries[i as int] => entries[i as int].1));
                    }
                    let key = entries[i].0.duplicate();
                    let value = entries[i].1.duplicate();
                    out.push((key, value));
                    i += 1;
                }
                assert(pairs_of(out@) =~= pairs_of(entries@));
                Node::Mapping(out)
            },
        }
    }

    /// The text of a node that is a string.
    pub fn as_str(&self) -> (r: Option<&String>)
        ensures
            match r {
                Some(text) => text_of(self@) == Some(text@),
                None => text_of(self@) is None,
            },
    {
        match self {
            Node::Str(text) => Some(text),
            _ => None,
        }
    }

    /// The items of a node that is a sequence.
    pub fn as_sequence(&self) -> (r: Option<&Vec<Node>>)
        ensures
            match r {
                Some(items) => self@ == Tree::Sequence(trees_of(items@)),
                None => !(self@ is Sequence),
            },
    {
        match self {
            Node::Sequence(items) => Some(items),
            _ => None,
        }
    }

    /// The entries of a node that is a mapping, in their order.
    pub fn as_mapping(&self) -> (r: Option<&Vec<(Node, Node)>>)
        ensures
            match r {
                Some(entries) => self@ == Tree::Mapping(pairs_of(entries@)),
                None => !(self@ is Mapping),
            },
    {
        match self {
            Node::Mapping(entries) => Some(entries),
            _ => None,
        }
    }

    /// Whether the node is null.
    pub fn is_null(&self) -> (r: bool)
        ensures
            r == (self@ is Null),
    {
        match self {
            Node::Null => true,
            _ => false,
        }
    }

    /// What the node, if it is a mapping, holds under the string `key`.
    pub fn get(&self, key: &str) -> (r: Option<&Node>)
        ensures
            match r {
                Some(value) => member(self@, key@) == Some(value@),
                None => member(self@, key@) is None,
            },
    {
        match self {
            Node::Mapping(entries) => {
                let mut i: usize = 0;
                assert(pairs_of(entries@).skip(0) == pairs_of(entries@));
                while i < entries.len()
                    invariant
                        i <= entries.len(),
                        member(self@, key@) == entry_value(pairs_of(entries@), key@),
                        entry_value(pairs_of(entries@), key@) == entry_value(
                            pairs_of(entries@).skip(i as int),
                            key@,
                        ),
                    decreases entries.len() - i,
                {
                    let ghost rest = pairs_of(entries@).skip(i as int);
                    assert(rest[0] == pairs_of(entries@)[i as int]);
                    assert(rest.skip(1) == pairs_of(entries@).skip(i + 1));
                    let found = match &entries[i].0 {
                        Node::Str(text) => same_text(text.as_str(), key),
                        _ => false,
                    };
                    assert(found == (rest[0].0 == Tree::Str(key@)));
                    if found {
                        return Some(&entries[i].1);
                    }
                    i += 1;
                }
                None
            },
            _ => None,
        }
    }
}

impl Clone for Node {
    fn clone(&self) -> (copy: Node)
        ensures
            copy@ == self@,
    {
        self.duplicate()
    }
}

} // verus!
