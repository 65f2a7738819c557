//! The walk through a document: its operations and its models, in the order
//! in which the document gives them.

use crate::error::{Failure, GenError};
use crate::node::{field, pairs_of, Node, Tree};
use vstd::prelude::*;

verus! {

/// One method of one path, with what the document says about it.
pub struct Operation<'a> {
    pub path: String,
    pub method: String,
    pub detail: &'a Node,
}

/// What an [`Operation`] stands for.
pub struct Op {
    pub path: Seq<char>,
    pub method: Seq<char>,
    pub detail: Tree,
}

impl<'a> View for Operation<'a> {
    type V = Op;

    open spec fn view(&self) -> Op {
        Op { path: self.path@, method: self.method@, detail: self.detail@ }
    }
}

/// A named schema of the document.
pub struct Model<'a> {
    pub name: String,
    pub schema: &'a Node,
}

/// What a [`Model`] stands for.
pub struct Shape {
    pub name: Seq<char>,
    pub schema: Tree,
}

impl<'a> View for Model<'a> {
    type V = Shape;

    open spec fn view(&self) -> Shape {
        Shape { name: self.name@, schema: self.schema@ }
    }
}

/// The operations that a list stands for.
pub open spec fn ops_of(operations: Seq<Operation>) -> Seq<Op> {
    operations.map_values(|o: Operation| o@)
}

/// The models that a list stands for.
pub open spec fn shapes_of(models: Seq<Model>) -> Seq<Shape> {
    models.map_values(|m: Model| m@)
}

/// The path that a key of `paths` names: its text, or `/` where it is no
/// text.
pub open spec fn path_text(key: Tree) -> Seq<char> {
    match key {
        Tree::Str(text) => text,
        _ => "/"@,
    }
}

/// The method that a key under a path names: its text, or `get` where it is
/// no text.
pub open spec fn method_text(key: Tree) -> Seq<char> {
    match key {
        Tree::Str(text) => text,
        _ => "get"@,
    }
}

/// The operations of one path, in the order of its methods.
pub open spec fn operations_at(path: Seq<char>, methods: Seq<(Tree, Tree)>) -> Seq<Op> {
    Seq::new(
        methods.len(),
        |i: int| Op { path, method: method_text(methods[i].0), detail: methods[i].1 },
    )
}

/// The operations of the paths, in their order, up to the first path under
/// which no mapping stands; and the failure, if there is such a path.
pub open spec fn operations_of(paths: Seq<(Tree, Tree)>) -> (Seq<Op>, Option<Failure>)
    decreases paths.len(),
{
    if paths.len() == 0 {
        (Seq::empty(), None)
    } else {
        let before = operations_of(paths.drop_last());
        if before.1 is Some {
            before
        } else {
            match paths.last().1 {
                Tree::Mapping(methods) => (
                    before.0 + operations_at(path_text(paths.last().0), methods),
                    None,
                ),
                _ => (before.0, Some(Failure::MethodsNotMapping)),
            }
        }
    }
}

/// The operations of a document, and the failure that ends the walk, if one
/// does.
pub open spec fn walked(document: Tree) -> (Seq<Op>, Option<Failure>) {
    match field(document, "paths"@) {
        Tree::Mapping(paths) => operations_of(paths),
        _ => (Seq::empty(), Some(Failure::PathsNotMapping)),
    }
}

/// The models of the definitions, in their order, up to the first entry
/// that has no textual name or whose schema is no mapping; and the failure,
/// if there is such an entry.
pub open spec fn models_of(definitions: Seq<(Tree, Tree)>) -> (Seq<Shape>, Option<Failure>)
    decreases definitions.len(),
{
    if definitions.len() == 0 {
        (Seq::empty(), None)
    } else {
        let before = models_of(definitions.drop_last());
        if before.1 is Some {
            before
        } else {
            match definitions.last() {
                (Tree::Str(name), Tree::Mapping(entries)) => (
                    before.0.push(Shape { name, schema: Tree::Mapping(entries) }),
                    None,
                ),
                _ => (before.0, Some(Failure::MalformedDefinition)),
            }
        }
    }
}

/// The models of a document, and the failure that ends the walk, if one
/// does.
pub open spec fn modelled(document: Tree) -> (Seq<Shape>, Option<Failure>) {
    match field(document, "definitions"@) {
        Tree::Mapping(definitions) => models_of(definitions),
        _ => (Seq::empty(), Some(Failure::DefinitionsNotMapping)),
    }
}

/// Whether an optional error is the wanted failure.
pub open spec fn fails_as(e: Option<GenError>, want: Option<Failure>) -> bool {
    match want {
        Some(failure) => e matches Some(error) && error@ == failure,
        None => e is None,
    }
}

/// What stands under `key` in a mapping, if anything but null does.
pub fn child<'a>(node: &'a Node, key: &str) -> (r: Option<&'a Node>)
    ensures
        match r {
            Some(found) => found@ == field(node@, key@) && !(found@ is Null),
            None => field(node@, key@) is Null,
        },
{
    match node.get(key) {
        Some(found) => if found.is_null() {
            None
        } else {
            Some(found)
        },
        None => None,
    }
}

/// Walks the paths of a document and lists their operations in the order of
/// the document. The walk ends at the first path under which no mapping of
/// methods stands; the operations before it are still listed.
pub fn walk<'a>(document: &'a Node) -> (r: (Vec<Operation<'a>>, Option<GenError>))
    ensures
        ops_of(r.0@) == walked(document@).0,
        fails_as(r.1, walked(document@).1),
{
    let mut operations: Vec<Operation<'a>> = Vec::new();
    let paths = match child(document, "paths") {
        Some(found) => match found.as_mapping() {
            Some(paths) => paths,
            None => {
                assert(ops_of(operations@) =~= Seq::<Op>::empty());
                return (operations, Some(GenError::PathsNotMapping));
            },
        },
        None => {
            assert(ops_of(operations@) =~= Seq::<Op>::empty());
            return (operations, Some(GenError::PathsNotMapping));
        },
    };
    let ghost all = pairs_of(paths@);
    let mut i: usize = 0;
    assert(ops_of(operations@) =~= Seq::<Op>::empty());
    while i < paths.len()
        invariant
            i <= paths.len(),
            all == pairs_of(paths@),
            walked(document@) == operations_of(all),
            operations_of(all.take(i as int)) == (ops_of(operations@), None::<Failure>),
        decreases paths.len() - i,
    {
        let ghost upto = all.take(i + 1);
        assert(upto.drop_last() == all.take(i as int));
        assert(upto.last() == (paths@[i as int].0@, paths@[i as int].1@));
        let path = match &paths[i].0 {
            Node::Str(text) => text.clone(),
            _ => "/".to_owned(),
        };
        let methods = match paths[i].1.as_mapping() {
            Some(methods) => methods,
            None => {
                proof {
                    assert(operations_of(upto).1 == Some(Failure::MethodsNotMapping));
                    lemma_walk_stops(all, i + 1);
                }
                return (operations, Some(GenError::MethodsNotMapping));
            },
        };
        let ghost before = ops_of(operations@);
        let ghost wanted = operations_at(path@, pairs_of(methods@));
        let mut j: usize = 0;
        while j < methods.len()
            invariant
                j <= methods.len(),
                wanted == operations_at(path@, pairs_of(methods@)),
                ops_of(operations@) == before + wanted.take(j as int),
            decreases methods.len() - j,
        {
            let method = match &methods[j].0 {
                Node::Str(text) => text.clone(),
                _ => "get".to_owned(),
            };
            let ghost listed = operations@;
            let operation = Operation { path: path.clone(), method, detail: &methods[j].1 };
            assert(operation@ == wanted[j as int]) by {
                assert(pairs_of(methods@)[j as int] == (methods@[j as int].0@, methods@[j as int].1@));
            }
            operations.push(operation);
            assert(ops_of(operations@) =~= ops_of(listed).push(operation@));
            assert(wanted.take(j + 1) =~= wanted.take(j as int).push(wanted[j as int]));
            assert(ops_of(operations@) =~= before + wanted.take(j + 1));
            j += 1;
        }
        assert(wanted.take(j as int) == wanted);
        i += 1;
    }
    assert(all.take(i as int) == all);
    (operations, None)
}

/// Lists the models of a document in the order of its definitions. The
/// walk ends at the first definition that is malformed; the models before
/// it are still listed.
pub fn models<'a>(document: &'a Node) -> (r: (Vec<Model<'a>>, Option<GenError>))
    ensures
        shapes_of(r.0@) == modelled(document@).0,
        fails_as(r.1, modelled(document@).1),
{
    let mut listed: Vec<Model<'a>> = Vec::new();
    assert(shapes_of(listed@) =~= Seq::<Shape>::empty());
    let definitions = match child(document, "definitions") {
        Some(found) => match found.as_mapping() {
            Some(definitions) => definitions,
            None => {
                return (listed, Some(GenError::DefinitionsNotMapping));
            },
        },
        None => {
            return (listed, Some(GenError::DefinitionsNotMapping));
        },
    };
    let ghost all = pairs_of(definitions@);
    let mut i: usize = 0;
    while i < definitions.len()
        invariant
            i <= definitions.len(),
            all == pairs_of(definitions@),
            modelled(document@) == models_of(all),
            models_of(all.take(i as int)) == (shapes_of(listed@), None::<Failure>),
        decreases definitions.len() - i,
    {
        let ghost upto = all.take(i + 1);
        assert(upto.drop_last() == all.take(i as int));
        assert(upto.last() == (definitions@[i as int].0@, definitions@[i as int].1@));
        let name = match &definitions[i].0 {
            Node::Str(text) => Some(text.clone()),
            _ => None,
        };
        let shaped = definitions[i].1.as_mapping().is_some();
        match name {
            Some(name) if shaped => {
                let ghost before = listed@;
                let model = Model { name, schema: &definitions[i].1 };
                listed.push(model);
                assert(shapes_of(listed@) =~= shapes_of(before).push(model@));
            },
            _ => {
                proof {
                    assert(models_of(upto).1 == Some(Failure::MalformedDefinition));
                    lemma_models_stop(all, i + 1);
                }
                return (listed, Some(GenError::MalformedDefinition));
            },
        }
        i += 1;
    }
    assert(all.take(i as int) == all);
    (listed, None)
}

/// Once the walk has failed, further definitions change nothing.
proof fn lemma_models_stop(definitions: Seq<(Tree, Tree)>, n: int)
    requires
        0 <= n <= definitions.len(),
        models_of(definitions.take(n)).1 is Some,
    ensures
        models_of(definitions) == models_of(definitions.take(n)),
    decreases definitions.len() - n,
{
    if n < definitions.len() {
        assert(definitions.take(n + 1).drop_last() == definitions.take(n));
        lemma_models_stop(definitions, n + 1);
    } else {
        assert(definitions.take(n) == definitions);
    }
}

/// Once the walk has failed, further paths change nothing.
proof fn lemma_walk_stops(paths: Seq<(Tree, Tree)>, n: int)
    requires
        0 <= n <= paths.len(),
        operations_of(paths.take(n)).1 is Some,
    ensures
        operations_of(paths) == operations_of(paths.take(n)),
    decreases paths.len() - n,
{
    if n < paths.len() {
        assert(paths.take(n + 1).drop_last() == paths.take(n));
        lemma_walk_stops(paths, n + 1);
    } else {
        assert(paths.take(n) == paths);
    }
}

} // verus!
