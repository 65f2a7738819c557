//! What reaches the manifest: the fragments of the operations, in the order
//! of the document, up to the first failure.

use crate::docs::documentation;
use crate::error::Failure;
use crate::generate::{
    api_trace, base_name, base_trace, chain, copy_trace, docs_trace, document_trace, failed,
    files_trace, fragment_of, halt, idle, lemma_operations_stop, model_trace, models_trace, one,
    operation_trace, operations_trace, run_trace, setup_trace, shapes_trace, test_trace, Trace,
    API_YML, MODELS_YML, OUTPUT,
};
use crate::name::function_name;
use crate::node::{field, text_of, Tree};
use crate::params::{runtime_of, Runtime};
use crate::plan::{framed, Step};
use crate::refs::rewritten;
use crate::render::{doc_path, handler_path, info_text, model_text, test_path, test_text};
use crate::template::template_text;
use crate::walk::{modelled, walked, Op, Shape};
use crate::yaml::{parsed_yaml, yaml_text};
use vstd::prelude::*;

verus! {

/// The fragments that the steps put into the manifest, in their order.
pub open spec fn manifest_texts(steps: Seq<Step>) -> Seq<Seq<char>>
    decreases steps.len(),
{
    if steps.len() == 0 {
        Seq::empty()
    } else {
        manifest_texts(steps.drop_last()) + (match steps.last() {
            Step::Append { path, text } => if path == OUTPUT@ {
                seq![text]
            } else {
                Seq::empty()
            },
            Step::Create { path } => Seq::empty(),
        })
    }
}

/// The fragments of the operations, as they are written into the manifest.
pub open spec fn fragments_of(
    runtime: Runtime,
    store: Seq<(Seq<char>, Seq<char>)>,
    ops: Seq<Op>,
) -> Seq<Seq<char>> {
    Seq::new(ops.len(), |i: int| framed(fragment_of(runtime, store, ops[i])))
}

/// The fragments of two lists of steps follow each other.
proof fn lemma_texts_add(a: Seq<Step>, b: Seq<Step>)
    ensures
        manifest_texts(a + b) == manifest_texts(a) + manifest_texts(b),
    decreases b.len(),
{
    if b.len() == 0 {
        assert(a + b == a);
        assert(manifest_texts(a) + manifest_texts(b) == manifest_texts(a));
    } else {
        assert((a + b).drop_last() == a + b.drop_last());
        assert((a + b).last() == b.last());
        lemma_texts_add(a, b.drop_last());
        assert(manifest_texts(a + b) =~= manifest_texts(a) + manifest_texts(b));
    }
}

/// Two parts of a run that leave the manifest alone leave it alone together.
proof fn lemma_chain_is_quiet(a: Trace, b: Trace)
    requires
        manifest_texts(a.steps).len() == 0,
        manifest_texts(b.steps).len() == 0,
    ensures
        manifest_texts(chain(a, b).steps).len() == 0,
{
    lemma_texts_add(a.steps, b.steps);
}

/// A file that is created and then written leaves the manifest alone, if it
/// is not the manifest.
proof fn lemma_file_is_quiet(path: Seq<char>, text: Seq<char>)
    requires
        path != OUTPUT@,
    ensures
        manifest_texts(seq![Step::Create { path }, Step::Append { path, text }]).len() == 0,
        manifest_texts(seq![Step::Create { path }]).len() == 0,
        manifest_texts(seq![Step::Append { path, text }]).len() == 0,
{
    let both = seq![Step::Create { path }, Step::Append { path, text }];
    let first = seq![Step::Create { path }];
    let second = seq![Step::Append { path, text }];
    assert(both.drop_last() == first);
    assert(first.drop_last() == Seq::<Step>::empty());
    assert(second.drop_last() == Seq::<Step>::empty());
    assert(manifest_texts(Seq::<Step>::empty()).len() == 0);
    assert(manifest_texts(first).len() == 0);
    assert(manifest_texts(second).len() == 0);
}

/// The files of an operation are not the manifest.
proof fn lemma_files_are_quiet(runtime: Runtime, store: Seq<(Seq<char>, Seq<char>)>, op: Op)
    ensures
        manifest_texts(files_trace(runtime, store, op).steps).len() == 0,
{
    let name = function_name(op.path, op.method);
    reveal_strlit("serverless.yml");
    reveal_strlit("functions/");
    reveal_strlit("tests/");
    reveal_strlit("docs/functions/");
    assert(handler_path(name)[0] == 'f');
    assert(test_path(name)[0] == 't');
    assert(doc_path(name)[0] == 'd');
    assert(OUTPUT@[0] == 's');
    let copied = copy_trace(store, "node-function.js"@, handler_path(name));
    let tested = test_trace(store, name);
    let created = one(Step::Create { path: doc_path(name) });
    let documented = docs_trace(op, doc_path(name));
    lemma_file_is_quiet(handler_path(name), framed(template_text(store, "node-function.js"@)->Some_0));
    lemma_file_is_quiet(
        test_path(name),
        framed(test_text(template_text(store, "node-test.js"@)->Some_0, name)),
    );
    lemma_file_is_quiet(doc_path(name), framed(documentation(op)->Ok_0));
    lemma_chain_is_quiet(created, documented);
    lemma_chain_is_quiet(tested, chain(created, documented));
    lemma_chain_is_quiet(copied, chain(tested, chain(created, documented)));
}

/// An operation that fails puts nothing into the manifest, and one that
/// does not puts in its fragment; for Node.js an operation without a
/// textual summary fails.
proof fn lemma_operation_texts(runtime: Runtime, store: Seq<(Seq<char>, Seq<char>)>, op: Op)
    ensures
        manifest_texts(operation_trace(runtime, store, op).steps) == if operation_trace(
            runtime,
            store,
            op,
        ).failure is Some {
            Seq::<Seq<char>>::empty()
        } else {
            seq![framed(fragment_of(runtime, store, op))]
        },
        runtime == Runtime::Nodejs && text_of(field(op.detail, "summary"@)) is None
            ==> operation_trace(runtime, store, op).failure is Some,
{
    let files = files_trace(runtime, store, op);
    let listed = seq![
        Step::Append { path: OUTPUT@, text: framed(fragment_of(runtime, store, op)) },
    ];
    lemma_files_are_quiet(runtime, store, op);
    lemma_texts_add(files.steps, listed);
    assert(listed.drop_last() == Seq::<Step>::empty());
    assert(manifest_texts(Seq::<Step>::empty()) =~= Seq::<Seq<char>>::empty());
    assert(manifest_texts(listed) =~= seq![framed(fragment_of(runtime, store, op))]);
    assert(manifest_texts(files.steps) =~= Seq::<Seq<char>>::empty());
    assert(manifest_texts(files.steps) + manifest_texts(listed) =~= manifest_texts(listed));
}

/// What the operations put into the manifest: the fragments of the first
/// of them, in their order; of all of them if none fails; and of fewer than
/// `k + 1` if the operation at `k` fails.
proof fn lemma_operations_texts(
    runtime: Runtime,
    store: Seq<(Seq<char>, Seq<char>)>,
    ops: Seq<Op>,
    k: int,
)
    ensures
        manifest_texts(operations_trace(runtime, store, ops).steps).len() <= ops.len(),
        manifest_texts(operations_trace(runtime, store, ops).steps) == fragments_of(
            runtime,
            store,
            ops,
        ).take(manifest_texts(operations_trace(runtime, store, ops).steps).len() as int),
        operations_trace(runtime, store, ops).failure is None ==> manifest_texts(
            operations_trace(runtime, store, ops).steps,
        ).len() == ops.len(),
        0 <= k < ops.len() && operation_trace(runtime, store, ops[k]).failure is Some ==> {
            &&& operations_trace(runtime, store, ops).failure is Some
            &&& manifest_texts(operations_trace(runtime, store, ops).steps).len() <= k
        },
    decreases ops.len(),
{
    let all = operations_trace(runtime, store, ops);
    if ops.len() == 0 {
        assert(manifest_texts(all.steps) =~= fragments_of(runtime, store, ops).take(0));
    } else {
        let before = operations_trace(runtime, store, ops.drop_last());
        let last = operation_trace(runtime, store, ops.last());
        lemma_operations_texts(runtime, store, ops.drop_last(), k);
        lemma_operation_texts(runtime, store, ops.last());
        lemma_texts_add(before.steps, last.steps);
        if 0 <= k < ops.len() - 1 {
            assert(ops.drop_last()[k] == ops[k]);
        }
        let n = manifest_texts(before.steps).len() as int;
        assert(fragments_of(runtime, store, ops.drop_last()).take(n) =~= fragments_of(
            runtime,
            store,
            ops,
        ).take(n));
        if before.failure is None && last.failure is None {
            assert(manifest_texts(all.steps) =~= fragments_of(runtime, store, ops).take(n + 1));
        } else if before.failure is None {
            assert(manifest_texts(all.steps) =~= fragments_of(runtime, store, ops).take(n));
        }
    }
}

/// What is written behind the operations of a document leaves the manifest
/// alone.
proof fn lemma_rest_is_quiet(document: Tree)
    ensures
        manifest_texts(chain(api_trace(field(document, "info"@)), models_trace(document)).steps).len()
            == 0,
{
    reveal_strlit("serverless.yml");
    reveal_strlit("docs/api.yml");
    reveal_strlit("docs/models.yml");
    assert(OUTPUT@[0] == 's');
    assert(API_YML@[0] == 'd');
    assert(MODELS_YML@[0] == 'd');
    let info = field(document, "info"@);
    lemma_file_is_quiet(API_YML@, framed(info_text(yaml_text(info)->Some_0)));
    assert(manifest_texts(Seq::<Step>::empty()).len() == 0);
    lemma_chain_is_quiet(
        one(Step::Create { path: API_YML@ }),
        match yaml_text(info) {
            None => failed(Failure::NotSerializable),
            Some(yaml) => one(Step::Append { path: API_YML@, text: framed(info_text(yaml)) }),
        },
    );
    lemma_shapes_are_quiet(modelled(document).0);
    lemma_chain_is_quiet(shapes_trace(modelled(document).0), halt(modelled(document).1));
    lemma_file_is_quiet(MODELS_YML@, Seq::empty());
    lemma_chain_is_quiet(
        one(Step::Create { path: MODELS_YML@ }),
        chain(shapes_trace(modelled(document).0), halt(modelled(document).1)),
    );
    lemma_chain_is_quiet(api_trace(info), models_trace(document));
}

/// The fragments on the models leave the manifest alone.
proof fn lemma_shapes_are_quiet(shapes: Seq<Shape>)
    ensures
        manifest_texts(shapes_trace(shapes).steps).len() == 0,
    decreases shapes.len(),
{
    reveal_strlit("serverless.yml");
    reveal_strlit("docs/models.yml");
    assert(OUTPUT@[0] == 's');
    assert(MODELS_YML@[0] == 'd');
    if shapes.len() > 0 {
        let last = shapes.last();
        lemma_shapes_are_quiet(shapes.drop_last());
        lemma_file_is_quiet(
            MODELS_YML@,
            framed(model_text(last.name, yaml_text(rewritten(last.schema))->Some_0)),
        );
        assert(manifest_texts(Seq::<Step>::empty()).len() == 0);
        lemma_chain_is_quiet(shapes_trace(shapes.drop_last()), model_trace(last));
    }
}

/// What a document puts into the manifest, for the operations that it
/// walks.
proof fn lemma_document_texts(
    runtime: Runtime,
    store: Seq<(Seq<char>, Seq<char>)>,
    document: Tree,
)
    ensures
        manifest_texts(document_trace(runtime, store, document).steps) == manifest_texts(
            operations_trace(runtime, store, walked(document).0).steps,
        ),
        document_trace(runtime, store, document).failure is None ==> operations_trace(
            runtime,
            store,
            walked(document).0,
        ).failure is None,
        operations_trace(runtime, store, walked(document).0).failure is Some ==> document_trace(
            runtime,
            store,
            document,
        ).failure is Some,
{
    let listed = operations_trace(runtime, store, walked(document).0);
    let halted = halt(walked(document).1);
    let rest = chain(api_trace(field(document, "info"@)), models_trace(document));
    lemma_rest_is_quiet(document);
    lemma_texts_add(listed.steps, halted.steps);
    lemma_texts_add(chain(listed, halted).steps, rest.steps);
    assert(manifest_texts(halted.steps) =~= Seq::<Seq<char>>::empty());
    assert(manifest_texts(rest.steps) =~= Seq::<Seq<char>>::empty());
    assert(manifest_texts(listed.steps) + Seq::<Seq<char>>::empty() =~= manifest_texts(
        listed.steps,
    ));
}

/// The manifest keeps the order of the document: a document that is worked
/// through without failure puts the fragments of all its operations into
/// the manifest, in the order in which the walk lists them.
pub proof fn law_manifest_keeps_the_order(
    runtime: Runtime,
    store: Seq<(Seq<char>, Seq<char>)>,
    document: Tree,
)
    requires
        document_trace(runtime, store, document).failure is None,
    ensures
        manifest_texts(document_trace(runtime, store, document).steps) == fragments_of(
            runtime,
            store,
            walked(document).0,
        ),
{
    let ops = walked(document).0;
    lemma_document_texts(runtime, store, document);
    lemma_operations_texts(runtime, store, ops, 0);
    assert(fragments_of(runtime, store, ops).take(ops.len() as int) =~= fragments_of(
        runtime,
        store,
        ops,
    ));
}

/// Whatever ends a run, the manifest holds the fragments of the first
/// operations of the document, in their order, and nothing else.
pub proof fn law_manifest_holds_a_prefix(
    runtime: Runtime,
    store: Seq<(Seq<char>, Seq<char>)>,
    document: Tree,
)
    ensures
        manifest_texts(document_trace(runtime, store, document).steps).len() <= walked(
            document,
        ).0.len(),
        manifest_texts(document_trace(runtime, store, document).steps) == fragments_of(
            runtime,
            store,
            walked(document).0,
        ).take(manifest_texts(document_trace(runtime, store, document).steps).len() as int),
{
    lemma_document_texts(runtime, store, document);
    lemma_operations_texts(runtime, store, walked(document).0, 0);
}

/// For Node.js, an operation without a textual summary ends the run: what
/// the document gives rise to fails, and neither that operation nor one
/// behind it gets its fragment into the manifest.
pub proof fn law_missing_summary_ends_the_run(
    store: Seq<(Seq<char>, Seq<char>)>,
    document: Tree,
    k: int,
)
    requires
        0 <= k < walked(document).0.len(),
        text_of(field(walked(document).0[k].detail, "summary"@)) is None,
    ensures
        document_trace(Runtime::Nodejs, store, document).failure is Some,
        manifest_texts(document_trace(Runtime::Nodejs, store, document).steps).len() <= k,
{
    let ops = walked(document).0;
    lemma_operation_texts(Runtime::Nodejs, store, ops[k]);
    lemma_operations_texts(Runtime::Nodejs, store, ops, k);
    lemma_document_texts(Runtime::Nodejs, store, document);
}

/// The file that a step creates or writes into.
pub open spec fn step_path(step: Step) -> Seq<char> {
    match step {
        Step::Create { path } => path,
        Step::Append { path, text } => path,
    }
}

/// Whether the steps leave the file `path` alone: none of them creates it
/// or writes into it.
pub open spec fn spares(steps: Seq<Step>, path: Seq<char>) -> bool {
    forall|i: int| 0 <= i < steps.len() ==> step_path(#[trigger] steps[i]) != path
}

/// A project: its setup and then what its document gives rise to.
pub open spec fn project_trace(
    runtime: Runtime,
    store: Seq<(Seq<char>, Seq<char>)>,
    document: Tree,
) -> Trace {
    chain(setup_trace(runtime, store), document_trace(runtime, store, document))
}

/// Two parts of a run that leave a file alone leave it alone together.
proof fn lemma_chain_spares(a: Trace, b: Trace, path: Seq<char>)
    requires
        spares(a.steps, path),
        spares(b.steps, path),
    ensures
        spares(chain(a, b).steps, path),
{
}

/// Copying a template leaves every file but its own alone.
proof fn lemma_copy_spares(
    store: Seq<(Seq<char>, Seq<char>)>,
    name: Seq<char>,
    dest: Seq<char>,
    path: Seq<char>,
)
    requires
        dest != path,
    ensures
        spares(copy_trace(store, name, dest).steps, path),
{
}

/// An operation leaves the file on the API and the file on the models
/// alone.
proof fn lemma_operation_spares(runtime: Runtime, store: Seq<(Seq<char>, Seq<char>)>, op: Op)
    ensures
        spares(operation_trace(runtime, store, op).steps, API_YML@),
        spares(operation_trace(runtime, store, op).steps, MODELS_YML@),
{
    let name = function_name(op.path, op.method);
    reveal_strlit("serverless.yml");
    reveal_strlit("functions/");
    reveal_strlit("tests/");
    reveal_strlit("docs/functions/");
    reveal_strlit("docs/api.yml");
    reveal_strlit("docs/models.yml");
    assert(handler_path(name)[0] == 'f');
    assert(test_path(name)[0] == 't');
    assert(doc_path(name)[5] == 'f');
    assert(OUTPUT@[0] == 's');
    assert(API_YML@[0] == 'd' && API_YML@[5] == 'a');
    assert(MODELS_YML@[0] == 'd' && MODELS_YML@[5] == 'm');
    let copied = copy_trace(store, "node-function.js"@, handler_path(name));
    let tested = test_trace(store, name);
    let created = one(Step::Create { path: doc_path(name) });
    let documented = docs_trace(op, doc_path(name));
    let listed = one(
        Step::Append { path: OUTPUT@, text: framed(fragment_of(runtime, store, op)) },
    );
    assert forall|path: Seq<char>| path == API_YML@ || path == MODELS_YML@ implies spares(
        operation_trace(runtime, store, op).steps,
        path,
    ) by {
        lemma_copy_spares(store, "node-function.js"@, handler_path(name), path);
        assert(spares(tested.steps, path));
        assert(spares(created.steps, path));
        assert(spares(documented.steps, path));
        assert(spares(listed.steps, path));
        lemma_chain_spares(created, documented, path);
        lemma_chain_spares(tested, chain(created, documented), path);
        lemma_chain_spares(copied, chain(tested, chain(created, documented)), path);
        assert(spares(files_trace(runtime, store, op).steps, path));
        lemma_chain_spares(files_trace(runtime, store, op), listed, path);
    }
}

/// The operations leave the file on the API and the file on the models
/// alone.
proof fn lemma_operations_spare(
    runtime: Runtime,
    store: Seq<(Seq<char>, Seq<char>)>,
    ops: Seq<Op>,
)
    ensures
        spares(operations_trace(runtime, store, ops).steps, API_YML@),
        spares(operations_trace(runtime, store, ops).steps, MODELS_YML@),
    decreases ops.len(),
{
    if ops.len() > 0 {
        let before = operations_trace(runtime, store, ops.drop_last());
        let last = operation_trace(runtime, store, ops.last());
        lemma_operations_spare(runtime, store, ops.drop_last());
        lemma_operation_spares(runtime, store, ops.last());
        lemma_chain_spares(before, last, API_YML@);
        lemma_chain_spares(before, last, MODELS_YML@);
    }
}

/// What the setup puts into the manifest: its base, once the setup is
/// through; and it leaves the file on the API and the file on the models
/// alone.
proof fn lemma_setup(runtime: Runtime, store: Seq<(Seq<char>, Seq<char>)>)
    ensures
        setup_trace(runtime, store).failure is None ==> manifest_texts(
            setup_trace(runtime, store).steps,
        ) == seq![framed(template_text(store, base_name(runtime))->Some_0)],
        spares(setup_trace(runtime, store).steps, API_YML@),
        spares(setup_trace(runtime, store).steps, MODELS_YML@),
{
    reveal_strlit("serverless.yml");
    reveal_strlit("package.json");
    reveal_strlit("helpers/parse-response.js");
    reveal_strlit("docs/api.yml");
    reveal_strlit("docs/models.yml");
    assert(OUTPUT@[0] == 's');
    assert("package.json"@[0] == 'p');
    assert("helpers/parse-response.js"@[0] == 'h');
    assert(API_YML@[0] == 'd');
    assert(MODELS_YML@[0] == 'd');
    let created = one(Step::Create { path: OUTPUT@ });
    let packaged = copy_trace(store, "package.json"@, "package.json"@);
    let helped = copy_trace(store, "node-response.js"@, "helpers/parse-response.js"@);
    let copied = match runtime {
        Runtime::Nodejs => chain(packaged, helped),
        Runtime::Csharp => idle(),
    };
    let based = base_trace(store, base_name(runtime));
    assert forall|path: Seq<char>| path == API_YML@ || path == MODELS_YML@ implies spares(
        setup_trace(runtime, store).steps,
        path,
    ) by {
        lemma_copy_spares(store, "package.json"@, "package.json"@, path);
        lemma_copy_spares(store, "node-response.js"@, "helpers/parse-response.js"@, path);
        lemma_chain_spares(packaged, helped, path);
        assert(spares(copied.steps, path));
        assert(spares(based.steps, path));
        assert(spares(created.steps, path));
        lemma_chain_spares(copied, based, path);
        lemma_chain_spares(created, chain(copied, based), path);
    }
    if setup_trace(runtime, store).failure is None {
        let base = framed(template_text(store, base_name(runtime))->Some_0);
        let empty = Seq::<Seq<char>>::empty();
        assert(manifest_texts(Seq::<Step>::empty()) =~= empty);
        assert(created.steps.drop_last() == Seq::<Step>::empty());
        assert(manifest_texts(created.steps) =~= empty);
        lemma_file_is_quiet(
            "package.json"@,
            framed(template_text(store, "package.json"@)->Some_0),
        );
        lemma_file_is_quiet(
            "helpers/parse-response.js"@,
            framed(template_text(store, "node-response.js"@)->Some_0),
        );
        lemma_chain_is_quiet(packaged, helped);
        assert(manifest_texts(copied.steps) =~= empty);
        assert(based.steps.drop_last() == Seq::<Step>::empty());
        assert(manifest_texts(based.steps) =~= seq![base]);
        lemma_texts_add(copied.steps, based.steps);
        lemma_texts_add(created.steps, chain(copied, based).steps);
        assert(manifest_texts(setup_trace(runtime, store).steps) =~= seq![base]);
    }
}

/// Operations that do not fail, one after the other, do not fail together.
proof fn lemma_all_through(
    runtime: Runtime,
    store: Seq<(Seq<char>, Seq<char>)>,
    ops: Seq<Op>,
)
    requires
        forall|i: int| 0 <= i < ops.len() ==> operation_trace(runtime, store, #[trigger] ops[i]).failure is None,
    ensures
        operations_trace(runtime, store, ops).failure is None,
    decreases ops.len(),
{
    if ops.len() > 0 {
        assert forall|i: int| 0 <= i < ops.drop_last().len() implies operation_trace(
            runtime,
            store,
            #[trigger] ops.drop_last()[i],
        ).failure is None by {
            assert(ops.drop_last()[i] == ops[i]);
        }
        lemma_all_through(runtime, store, ops.drop_last());
        assert(ops.last() == ops[ops.len() - 1]);
    }
}

/// A run is a project: where the runtime is known and the text is that of
/// a document, the run sets the project up and then works through the
/// document.
pub proof fn law_run_is_a_project(
    runtime: Seq<char>,
    store: Seq<(Seq<char>, Seq<char>)>,
    text: Seq<char>,
)
    ensures
        runtime_of(runtime) is Some && parsed_yaml(text) is Some ==> run_trace(
            runtime,
            store,
            text,
        ) == project_trace(runtime_of(runtime)->Some_0, store, parsed_yaml(text)->Some_0),
{
}

/// What a plan holds for the manifest grows by what a part of a run puts
/// into it: the fragments come behind those that were there.
pub proof fn law_manifest_grows(before: Seq<Step>, steps: Seq<Step>)
    ensures
        manifest_texts(before + steps) == manifest_texts(before) + manifest_texts(steps),
{
    lemma_texts_add(before, steps);
}

/// A project that is written without failure has in its manifest the base
/// and, behind it, the fragments of all operations in the order in which
/// the walk lists them.
pub proof fn law_project_manifest(
    runtime: Runtime,
    store: Seq<(Seq<char>, Seq<char>)>,
    document: Tree,
)
    requires
        project_trace(runtime, store, document).failure is None,
    ensures
        manifest_texts(project_trace(runtime, store, document).steps) == seq![
            framed(template_text(store, base_name(runtime))->Some_0),
        ] + fragments_of(runtime, store, walked(document).0),
{
    lemma_setup(runtime, store);
    law_manifest_keeps_the_order(runtime, store, document);
    lemma_texts_add(
        setup_trace(runtime, store).steps,
        document_trace(runtime, store, document).steps,
    );
}

/// For Node.js, where the setup is through and the operation at `k` is the
/// first that fails, having no textual summary, the project fails; its
/// manifest holds the base and the fragments of the `k` operations before
/// that one, in their order, and nothing else; and neither the file on the
/// API nor the file on the models is created or written.
pub proof fn law_missing_summary_keeps_what_came_before(
    store: Seq<(Seq<char>, Seq<char>)>,
    document: Tree,
    k: int,
)
    requires
        setup_trace(Runtime::Nodejs, store).failure is None,
        0 <= k < walked(document).0.len(),
        text_of(field(walked(document).0[k].detail, "summary"@)) is None,
        forall|i: int|
            0 <= i < k ==> operation_trace(
                Runtime::Nodejs,
                store,
                #[trigger] walked(document).0[i],
            ).failure is None,
    ensures
        project_trace(Runtime::Nodejs, store, document).failure is Some,
        manifest_texts(project_trace(Runtime::Nodejs, store, document).steps) == seq![
            framed(template_text(store, base_name(Runtime::Nodejs))->Some_0),
        ] + fragments_of(Runtime::Nodejs, store, walked(document).0.take(k)),
        spares(project_trace(Runtime::Nodejs, store, document).steps, API_YML@),
        spares(project_trace(Runtime::Nodejs, store, document).steps, MODELS_YML@),
{
    let runtime = Runtime::Nodejs;
    let ops = walked(document).0;
    let first = ops.take(k);
    let upto = ops.take(k + 1);
    let setup = setup_trace(runtime, store);
    let listed = operations_trace(runtime, store, ops);
    assert forall|i: int| 0 <= i < first.len() implies operation_trace(
        runtime,
        store,
        #[trigger] first[i],
    ).failure is None by {
        assert(first[i] == ops[i]);
    }
    lemma_all_through(runtime, store, first);
    lemma_operations_texts(runtime, store, first, 0);
    assert(fragments_of(runtime, store, first).take(k) =~= fragments_of(runtime, store, first));
    lemma_operation_texts(runtime, store, ops[k]);
    assert(upto.drop_last() == first);
    assert(upto.last() == ops[k]);
    lemma_texts_add(
        operations_trace(runtime, store, first).steps,
        operation_trace(runtime, store, ops[k]).steps,
    );
    assert(manifest_texts(operations_trace(runtime, store, upto).steps) =~= fragments_of(
        runtime,
        store,
        first,
    ));
    lemma_operations_stop(runtime, store, ops, k + 1);
    assert(document_trace(runtime, store, document) == listed);
    lemma_operations_spare(runtime, store, ops);
    lemma_setup(runtime, store);
    lemma_chain_spares(setup, listed, API_YML@);
    lemma_chain_spares(setup, listed, MODELS_YML@);
    lemma_texts_add(setup.steps, listed.steps);
}

/// For Node.js, an operation whose files are written without failure has
/// exactly these: its handler, a copy of the handler template; its test,
/// the test template with the name of the function filled in; and its
/// documentation.
pub proof fn law_operation_files(store: Seq<(Seq<char>, Seq<char>)>, op: Op)
    requires
        files_trace(Runtime::Nodejs, store, op).failure is None,
    ensures
        ({
            let name = function_name(op.path, op.method);
            files_trace(Runtime::Nodejs, store, op).steps == seq![
                Step::Create { path: handler_path(name) },
                Step::Append {
                    path: handler_path(name),
                    text: framed(template_text(store, "node-function.js"@)->Some_0),
                },
                Step::Create { path: test_path(name) },
                Step::Append {
                    path: test_path(name),
                    text: framed(
                        test_text(template_text(store, "node-test.js"@)->Some_0, name),
                    ),
                },
                Step::Create { path: doc_path(name) },
                Step::Append { path: doc_path(name), text: framed(documentation(op)->Ok_0) },
            ]
        }),
{
    let name = function_name(op.path, op.method);
    let wanted = seq![
        Step::Create { path: handler_path(name) },
        Step::Append {
            path: handler_path(name),
            text: framed(template_text(store, "node-function.js"@)->Some_0),
        },
        Step::Create { path: test_path(name) },
        Step::Append {
            path: test_path(name),
            text: framed(test_text(template_text(store, "node-test.js"@)->Some_0, name)),
        },
        Step::Create { path: doc_path(name) },
        Step::Append { path: doc_path(name), text: framed(documentation(op)->Ok_0) },
    ];
    assert(files_trace(Runtime::Nodejs, store, op).steps =~= wanted);
}

} // verus!
