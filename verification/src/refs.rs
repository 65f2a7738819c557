//! References between models, and the placeholders that stand in for them.
//!
//! A schema refers to another model by an entry `$ref` whose value is
//! `#/definitions/` followed by the model's name. Rewriting turns each such
//! value into the placeholder `{{name}}`.

use crate::node::{pairs_of, trees_of, Node, Tree};
use crate::text::{begins_with, same_text, skip_chars, starts_with};
use vstd::prelude::*;
use vstd::string::*;

verus! {

/// The placeholder for the model `name`.
pub open spec fn placeholder(name: Seq<char>) -> Seq<char> {
    "{{"@ + name + "}}"@
}

/// Whether an entry of a mapping refers to a model.
pub open spec fn is_reference(key: Tree, value: Tree) -> bool {
    &&& key == Tree::Str("$ref"@)
    &&& value matches Tree::Str(target)
    &&& begins_with(target, "#/definitions/"@)
}

/// Whether an entry of a mapping holds a placeholder: a `$ref` whose value
/// opens with two braces and closes with two.
pub open spec fn is_placeholder(key: Tree, value: Tree) -> bool {
    &&& key == Tree::Str("$ref"@)
    &&& value matches Tree::Str(text)
    &&& text.len() >= 4
    &&& text.subrange(0, 2) == "{{"@
    &&& text.subrange(text.len() - 2, text.len() as int) == "}}"@
}

/// The value that rewriting puts under `key` in place of `value`.
pub open spec fn rewritten_value(key: Tree, value: Tree) -> Tree
    decreases value, 1nat,
{
    if is_reference(key, value) {
        Tree::Str(placeholder(value->Str_0.skip("#/definitions/"@.len() as int)))
    } else {
        rewritten(value)
    }
}

/// The tree with every reference, at any depth, turned into its placeholder.
/// Keys are left as they are.
pub open spec fn rewritten(tree: Tree) -> Tree
    decreases tree, 0nat,
{
    match tree {
        Tree::Sequence(items) => Tree::Sequence(rewritten_items(items)),
        Tree::Mapping(entries) => Tree::Mapping(rewritten_entries(entries)),
        _ => tree,
    }
}

/// [`rewritten`], item by item.
pub open spec fn rewritten_items(items: Seq<Tree>) -> Seq<Tree>
    decreases items, 2nat,
{
    Seq::new(
        items.len(),
        |i: int|
            if 0 <= i < items.len() {
                rewritten(items[i])
            } else {
                Tree::Null
            },
    )
}

/// [`rewritten`], entry by entry.
pub open spec fn rewritten_entries(entries: Seq<(Tree, Tree)>) -> Seq<(Tree, Tree)>
    decreases entries, 2nat,
{
    Seq::new(
        entries.len(),
        |i: int|
            if 0 <= i < entries.len() {
                (entries[i].0, rewritten_value(entries[i].0, entries[i].1))
            } else {
                (Tree::Null, Tree::Null)
            },
    )
}

/// How many entries of the tree's mappings, at any depth below values and
/// items, satisfy `hit`.
pub open spec fn count(tree: Tree, hit: spec_fn(Tree, Tree) -> bool) -> nat
    decreases tree,
{
    match tree {
        Tree::Sequence(items) => count_items(items, hit),
        Tree::Mapping(entries) => count_entries(entries, hit),
        _ => 0,
    }
}

/// [`count`] over the items of a sequence.
pub open spec fn count_items(items: Seq<Tree>, hit: spec_fn(Tree, Tree) -> bool) -> nat
    decreases items,
{
    if items.len() == 0 {
        0
    } else {
        count_items(items.drop_last(), hit) + count(items.last(), hit)
    }
}

/// [`count`] over the entries of a mapping.
pub open spec fn count_entries(entries: Seq<(Tree, Tree)>, hit: spec_fn(Tree, Tree) -> bool) -> nat
    decreases entries,
{
    if entries.len() == 0 {
        0
    } else {
        count_entries(entries.drop_last(), hit) + (if hit(entries.last().0, entries.last().1) {
            1nat
        } else {
            0nat
        }) + count(entries.last().1, hit)
    }
}

/// The number of references in a tree.
pub open spec fn reference_count(tree: Tree) -> nat {
    count(tree, |k: Tree, v: Tree| is_reference(k, v))
}

/// The number of placeholders in a tree.
pub open spec fn placeholder_count(tree: Tree) -> nat {
    count(tree, |k: Tree, v: Tree| is_placeholder(k, v))
}

/// The node to put under `key` in place of `value`.
fn replace_value(key: &Node, value: &Node) -> (made: Node)
    ensures
        made@ == rewritten_value(key@, value@),
    decreases value, 1nat,
{
    let named = match key {
        Node::Str(text) => same_text(text.as_str(), "$ref"),
        _ => false,
    };
    if named {
        if let Node::Str(target) = value {
            if starts_with(target.as_str(), "#/definitions/") {
                proof {
                    reveal_strlit("#/definitions/");
                }
                let name = skip_chars(target.as_str(), 14);
                let mut text = "{{".to_owned();
                text.append(name.as_str());
                text.append("}}");
                return Node::Str(text);
            }
        }
    }
    replace_model_references(value)
}

/// Rewrites the references of a schema into placeholders.
///
/// The result is a new tree; the schema handed in stays as it is.
pub fn replace_model_references(model: &Node) -> (made: Node)
    ensures
        made@ == rewritten(model@),
    decreases model, 0nat,
{
    match model {
        Node::Sequence(items) => {
            let mut out: Vec<Node> = Vec::new();
            let mut i: usize = 0;
            while i < items.len()
                invariant
                    i <= items.len(),
                    *model == Node::Sequence(*items),
                    out@.len() == i,
                    forall|j: int| 0 <= j < i ==> (#[trigger] out@[j])@ == rewritten(items@[j]@),
                decreases items.len() - i,
            {
                proof {
                    assert(decreases_to!(*model => model->Sequence_0));
                    assert(decreases_to!(*items => items[i as int]));
                }
                let child = replace_model_references(&items[i]);
                out.push(child);
                i += 1;
            }
            assert(trees_of(out@) =~= rewritten_items(trees_of(items@)));
            Node::Sequence(out)
        },
        Node::Mapping(entries) => {
            let mut out: Vec<(Node, Node)> = Vec::new();
            let mut i: usize = 0;
            while i < entries.len()
                invariant
                    i <= entries.len(),
                    *model == Node::Mapping(*entries),
                    out@.len() == i,
                    forall|j: int|
                        0 <= j < i ==> (#[trigger] out@[j]).0@ == entries@[j].0@ && out@[j].1@
                            == rewritten_value(entries@[j].0@, entries@[j].1@),
                decreases entries.len() - i,
            {
                proof {
                    assert(decreases_to!(*model => model->Mapping_0));
                    assert(decreases_to!(*entries => entries[i as int]));
                    assert(decreases_to!(entries[i as int] => entries[i as int].1));
                }
                let key = entries[i].0.duplicate();
                let value = replace_value(&entries[i].0, &entries[i].1);
                out.push((key, value));
                i += 1;
            }
            assert(pairs_of(out@) =~= rewritten_entries(pairs_of(entries@)));
            Node::Mapping(out)
        },
        _ => model.duplicate(),
    }
}

/// What rewriting does to one entry: a reference becomes a placeholder and
/// stops being a reference, and every other entry keeps what it is.
proof fn lemma_entry(key: Tree, value: Tree)
    ensures
        !is_reference(key, rewritten_value(key, value)),
        is_placeholder(key, rewritten_value(key, value)) == (is_reference(key, value)
            || is_placeholder(key, value)),
        !(is_reference(key, value) && is_placeholder(key, value)),
        is_reference(key, value) ==> count(value, |k: Tree, v: Tree| is_reference(k, v)) == 0
            && count(value, |k: Tree, v: Tree| is_placeholder(k, v)) == 0 && count(
            rewritten_value(key, value),
            |k: Tree, v: Tree| is_reference(k, v),
        ) == 0 && count(rewritten_value(key, value), |k: Tree, v: Tree| is_placeholder(k, v)) == 0,
{
    reveal_strlit("#/definitions/");
    reveal_strlit("{{");
    reveal_strlit("}}");
    if is_reference(key, value) {
        let target = value->Str_0;
        let name = target.skip("#/definitions/"@.len() as int);
        let made = placeholder(name);
        assert(target.subrange(0, 14)[0] == '#');
        assert(made[0] == '{');
        if begins_with(made, "#/definitions/"@) {
            assert(made.subrange(0, 14)[0] == '#');
        }
        assert(made.subrange(0, 2) =~= "{{"@);
        assert(made.subrange(made.len() - 2, made.len() as int) =~= "}}"@);
        if is_placeholder(key, value) {
            assert(target.subrange(0, 2)[0] == '{');
        }
    } else {
        match value {
            Tree::Str(_) => {},
            _ => {},
        }
    }
}

/// Rewriting and counting, for a tree.
proof fn lemma_counts(tree: Tree)
    ensures
        reference_count(rewritten(tree)) == 0,
        placeholder_count(rewritten(tree)) == reference_count(tree) + placeholder_count(tree),
    decreases tree, 1nat,
{
    match tree {
        Tree::Sequence(items) => lemma_counts_items(items),
        Tree::Mapping(entries) => lemma_counts_entries(entries),
        _ => {},
    }
}

/// Rewriting and counting, for the items of a sequence.
proof fn lemma_counts_items(items: Seq<Tree>)
    ensures
        count_items(rewritten_items(items), |k: Tree, v: Tree| is_reference(k, v)) == 0,
        count_items(rewritten_items(items), |k: Tree, v: Tree| is_placeholder(k, v))
            == count_items(items, |k: Tree, v: Tree| is_reference(k, v)) + count_items(
            items,
            |k: Tree, v: Tree| is_placeholder(k, v),
        ),
    decreases items, 0nat,
{
    if items.len() > 0 {
        lemma_counts_items(items.drop_last());
        lemma_counts(items.last());
        assert(rewritten_items(items).drop_last() =~= rewritten_items(items.drop_last()));
        assert(rewritten_items(items).last() == rewritten(items.last()));
    }
}

/// Rewriting and counting, for the entries of a mapping.
proof fn lemma_counts_entries(entries: Seq<(Tree, Tree)>)
    ensures
        count_entries(rewritten_entries(entries), |k: Tree, v: Tree| is_reference(k, v)) == 0,
        count_entries(rewritten_entries(entries), |k: Tree, v: Tree| is_placeholder(k, v))
            == count_entries(entries, |k: Tree, v: Tree| is_reference(k, v)) + count_entries(
            entries,
            |k: Tree, v: Tree| is_placeholder(k, v),
        ),
    decreases entries, 0nat,
{
    if entries.len() > 0 {
        let last = entries.last();
        lemma_counts_entries(entries.drop_last());
        lemma_entry(last.0, last.1);
        if !is_reference(last.0, last.1) {
            lemma_counts(last.1);
        }
        assert(rewritten_entries(entries).drop_last() =~= rewritten_entries(entries.drop_last()));
        assert(rewritten_entries(entries).last() == (last.0, rewritten_value(last.0, last.1)));
    }
}

/// Rewriting is total: no reference is left in a rewritten tree, at any
/// depth.
pub proof fn law_no_reference_is_left(tree: Tree)
    ensures
        reference_count(rewritten(tree)) == 0,
{
    lemma_counts(tree);
}

/// The placeholders of a rewritten tree are those it had before and one for
/// each of its references.
pub proof fn law_each_reference_becomes_a_placeholder(tree: Tree)
    ensures
        placeholder_count(rewritten(tree)) == reference_count(tree) + placeholder_count(tree),
{
    lemma_counts(tree);
}

/// A tree that holds `n` references and no placeholder is rewritten into a
/// tree that holds exactly `n` placeholders and no reference.
pub proof fn law_references_are_rewritten_once(tree: Tree, n: nat)
    requires
        reference_count(tree) == n,
        placeholder_count(tree) == 0,
    ensures
        placeholder_count(rewritten(tree)) == n,
        reference_count(rewritten(tree)) == 0,
{
    lemma_counts(tree);
}

} // verus!
