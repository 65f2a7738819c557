//! A run: from the arguments, the templates and the text of a document to
//! the writes that make up the project.
//!
//! A run stops at the first failure. The writes planned before it stay in
//! the plan, so that a sink which carries the plan out leaves behind what a
//! run that wrote as it went would have left.

use crate::docs::{documentation, render_documentation};
use crate::error::{Failure, GenError};
use crate::name::{function_name, resolve};
use crate::node::{field, Node, Tree};
use crate::params::{runtime_of, Params, Runtime};
use crate::plan::{framed, Plan, Step};
use crate::refs::{replace_model_references, rewritten};
use crate::render::{
    doc_file, doc_path, handler_file, handler_path, info_text, manifest_text, model_text,
    render_info, render_manifest, render_model, render_test, test_file, test_path, test_text,
};
use crate::template::{read_template, template_text, TemplateStore};
use crate::walk::{child, modelled, models, ops_of, shapes_of, walk, walked, Model, Op, Operation, Shape};
use crate::yaml::{emit, parse_document, parsed_yaml, yaml_text};
use vstd::prelude::*;

verus! {

/// The function manifest.
pub const OUTPUT: &'static str = "serverless.yml";

/// The file on the API.
pub const API_YML: &'static str = "docs/api.yml";

/// The file on the models.
pub const MODELS_YML: &'static str = "docs/models.yml";

/// What a part of a run does: the writes it plans, and the failure that
/// ends it, if one does.
pub struct Trace {
    pub steps: Seq<Step>,
    pub failure: Option<Failure>,
}

/// The trace of doing nothing.
pub open spec fn idle() -> Trace {
    Trace { steps: Seq::empty(), failure: None }
}

/// The trace of one write.
pub open spec fn one(step: Step) -> Trace {
    Trace { steps: seq![step], failure: None }
}

/// The trace of stopping, if there is a failure to stop for.
pub open spec fn halt(failure: Option<Failure>) -> Trace {
    Trace { steps: Seq::empty(), failure }
}

/// The trace of failing at once.
pub open spec fn failed(failure: Failure) -> Trace {
    halt(Some(failure))
}

/// The trace of `first` and, unless it fails, `second` after it.
pub open spec fn chain(first: Trace, second: Trace) -> Trace {
    if first.failure is Some {
        first
    } else {
        Trace { steps: first.steps + second.steps, failure: second.failure }
    }
}

/// Whether a call that took the plan from `before` to `after` and returned
/// `r` did what the trace says.
pub open spec fn performs<T>(
    before: Seq<Step>,
    after: Seq<Step>,
    r: Result<T, GenError>,
    trace: Trace,
) -> bool {
    &&& after == before + trace.steps
    &&& match trace.failure {
        Some(failure) => r matches Err(e) && e@ == failure,
        None => r is Ok,
    }
}

/// Copying a template into a file of its own.
pub open spec fn copy_trace(
    store: Seq<(Seq<char>, Seq<char>)>,
    name: Seq<char>,
    dest: Seq<char>,
) -> Trace {
    match template_text(store, name) {
        None => failed(Failure::MissingTemplate(name)),
        Some(text) => Trace {
            steps: seq![
                Step::Create { path: dest },
                Step::Append { path: dest, text: framed(text) },
            ],
            failure: None,
        },
    }
}

/// Writing the documentation of an operation into `file`.
pub open spec fn docs_trace(op: Op, file: Seq<char>) -> Trace {
    match documentation(op) {
        Err(failure) => failed(failure),
        Ok(text) => one(Step::Append { path: file, text: framed(text) }),
    }
}

/// Writing the test of a function.
pub open spec fn test_trace(store: Seq<(Seq<char>, Seq<char>)>, name: Seq<char>) -> Trace {
    match template_text(store, "node-test.js"@) {
        None => failed(Failure::MissingTemplate("node-test.js"@)),
        Some(template) => Trace {
            steps: seq![
                Step::Create { path: test_path(name) },
                Step::Append { path: test_path(name), text: framed(test_text(template, name)) },
            ],
            failure: None,
        },
    }
}

/// Writing the files of an operation: for Node.js its handler, its test and
/// its documentation, and for C# nothing.
pub open spec fn files_trace(runtime: Runtime, store: Seq<(Seq<char>, Seq<char>)>, op: Op) -> Trace {
    let name = function_name(op.path, op.method);
    match template_text(store, "function.yml"@) {
        None => failed(Failure::MissingTemplate("function.yml"@)),
        Some(_) => match runtime {
            Runtime::Csharp => idle(),
            Runtime::Nodejs => chain(
                copy_trace(store, "node-function.js"@, handler_path(name)),
                chain(
                    test_trace(store, name),
                    chain(
                        one(Step::Create { path: doc_path(name) }),
                        docs_trace(op, doc_path(name)),
                    ),
                ),
            ),
        },
    }
}

/// The manifest's fragment on an operation.
pub open spec fn fragment_of(runtime: Runtime, store: Seq<(Seq<char>, Seq<char>)>, op: Op) -> Seq<
    char,
> {
    manifest_text(
        runtime,
        template_text(store, "function.yml"@)->Some_0,
        op.path,
        op.method,
        function_name(op.path, op.method),
    )
}

/// Writing the files of an operation and, after them, its fragment into the
/// manifest.
pub open spec fn operation_trace(
    runtime: Runtime,
    store: Seq<(Seq<char>, Seq<char>)>,
    op: Op,
) -> Trace {
    chain(
        files_trace(runtime, store, op),
        one(Step::Append { path: OUTPUT@, text: framed(fragment_of(runtime, store, op)) }),
    )
}

/// Writing the operations one after the other.
pub open spec fn operations_trace(
    runtime: Runtime,
    store: Seq<(Seq<char>, Seq<char>)>,
    ops: Seq<Op>,
) -> Trace
    decreases ops.len(),
{
    if ops.len() == 0 {
        idle()
    } else {
        chain(
            operations_trace(runtime, store, ops.drop_last()),
            operation_trace(runtime, store, ops.last()),
        )
    }
}

/// Writing the file on the API.
pub open spec fn api_trace(info: Tree) -> Trace {
    chain(
        one(Step::Create { path: API_YML@ }),
        match yaml_text(info) {
            None => failed(Failure::NotSerializable),
            Some(yaml) => one(Step::Append { path: API_YML@, text: framed(info_text(yaml)) }),
        },
    )
}

/// Writing the fragment on one model.
pub open spec fn model_trace(shape: Shape) -> Trace {
    match yaml_text(rewritten(shape.schema)) {
        None => failed(Failure::NotSerializable),
        Some(yaml) => one(
            Step::Append { path: MODELS_YML@, text: framed(model_text(shape.name, yaml)) },
        ),
    }
}

/// Writing the fragments on the models one after the other.
pub open spec fn shapes_trace(shapes: Seq<Shape>) -> Trace
    decreases shapes.len(),
{
    if shapes.len() == 0 {
        idle()
    } else {
        chain(shapes_trace(shapes.drop_last()), model_trace(shapes.last()))
    }
}

/// Writing the file on the models.
pub open spec fn models_trace(document: Tree) -> Trace {
    chain(
        one(Step::Create { path: MODELS_YML@ }),
        chain(shapes_trace(modelled(document).0), halt(modelled(document).1)),
    )
}

/// What a document gives rise to: the files of its operations and their
/// fragments in the manifest, then the file on the API, then the file on
/// the models.
pub open spec fn document_trace(
    runtime: Runtime,
    store: Seq<(Seq<char>, Seq<char>)>,
    document: Tree,
) -> Trace {
    chain(
        chain(operations_trace(runtime, store, walked(document).0), halt(walked(document).1)),
        chain(api_trace(field(document, "info"@)), models_trace(document)),
    )
}

/// What the text of a document gives rise to.
pub open spec fn swagger_trace(
    runtime: Runtime,
    store: Seq<(Seq<char>, Seq<char>)>,
    text: Seq<char>,
) -> Trace {
    match parsed_yaml(text) {
        None => failed(Failure::NotYaml),
        Some(document) => document_trace(runtime, store, document),
    }
}

/// The template that opens the manifest.
pub open spec fn base_name(runtime: Runtime) -> Seq<char> {
    match runtime {
        Runtime::Nodejs => "base-nodejs.yml"@,
        Runtime::Csharp => "base-csharp.yml"@,
    }
}

/// Opening the manifest with its base template.
pub open spec fn base_trace(store: Seq<(Seq<char>, Seq<char>)>, name: Seq<char>) -> Trace {
    match template_text(store, name) {
        None => failed(Failure::MissingTemplate(name)),
        Some(text) => one(Step::Append { path: OUTPUT@, text: framed(text) }),
    }
}

/// Setting a project up: the empty manifest, for Node.js the package
/// descriptor and the response helper, and then the base of the manifest.
pub open spec fn setup_trace(runtime: Runtime, store: Seq<(Seq<char>, Seq<char>)>) -> Trace {
    chain(
        one(Step::Create { path: OUTPUT@ }),
        chain(
            match runtime {
                Runtime::Nodejs => chain(
                    copy_trace(store, "package.json"@, "package.json"@),
                    copy_trace(store, "node-response.js"@, "helpers/parse-response.js"@),
                ),
                Runtime::Csharp => idle(),
            },
            base_trace(store, base_name(runtime)),
        ),
    )
}

/// A whole run: nothing at all where the runtime is unknown, and otherwise
/// the setup and then the document.
pub open spec fn run_trace(
    runtime: Seq<char>,
    store: Seq<(Seq<char>, Seq<char>)>,
    text: Seq<char>,
) -> Trace {
    match runtime_of(runtime) {
        None => failed(Failure::UnknownRuntime),
        Some(selected) => chain(setup_trace(selected, store), swagger_trace(selected, store, text)),
    }
}

/// Plans the empty manifest that a run starts from.
pub fn setup_output(plan: &mut Plan)
    ensures
        final(plan)@ == old(plan)@.push(Step::Create { path: OUTPUT@ }),
{
    plan.create_file(OUTPUT);
}

/// Plans the copy of a template into the file `dest`.
pub fn copy_template(store: &TemplateStore, name: &str, dest: &str, plan: &mut Plan) -> (r: Result<
    (),
    GenError,
>)
    ensures
        performs(old(plan)@, final(plan)@, r, copy_trace(store@, name@, dest@)),
{
    match read_template(store, name) {
        Err(e) => {
            assert(plan@ =~= old(plan)@ + Seq::<Step>::empty());
            Err(e)
        },
        Ok(content) => {
            plan.create_file(dest);
            plan.write_output(dest, content.as_str());
            assert(plan@ =~= old(plan)@ + copy_trace(store@, name@, dest@).steps);
            Ok(())
        },
    }
}

/// Plans the documentation of an operation, to be written into `file`.
pub fn create_function_docs(operation: &Operation, file: &str, plan: &mut Plan) -> (r: Result<
    (),
    GenError,
>)
    ensures
        performs(old(plan)@, final(plan)@, r, docs_trace(operation@, file@)),
{
    match render_documentation(operation) {
        Err(e) => {
            assert(plan@ =~= old(plan)@ + Seq::<Step>::empty());
            Err(e)
        },
        Ok(text) => {
            plan.write_output(file, text.as_str());
            assert(plan@ =~= old(plan)@ + docs_trace(operation@, file@).steps);
            Ok(())
        },
    }
}

/// Plans the test of a function.
fn create_function_test(store: &TemplateStore, name: &str, plan: &mut Plan) -> (r: Result<
    (),
    GenError,
>)
    ensures
        performs(old(plan)@, final(plan)@, r, test_trace(store@, name@)),
{
    match read_template(store, "node-test.js") {
        Err(e) => {
            assert(plan@ =~= old(plan)@ + Seq::<Step>::empty());
            Err(e)
        },
        Ok(template) => {
            let dest = test_file(name);
            let content = render_test(template.as_str(), name);
            plan.create_file(dest.as_str());
            plan.write_output(dest.as_str(), content.as_str());
            assert(plan@ =~= old(plan)@ + test_trace(store@, name@).steps);
            Ok(())
        },
    }
}

/// Two parts of a run, one after the other, do what [`chain`] says.
proof fn lemma_chain(start: Seq<Step>, middle: Seq<Step>, end: Seq<Step>, a: Trace, b: Trace)
    requires
        middle == start + a.steps,
        a.failure is None,
        end == middle + b.steps,
    ensures
        end == start + chain(a, b).steps,
        chain(a, b).failure == b.failure,
{
    assert((start + a.steps) + b.steps =~= start + (a.steps + b.steps));
}

/// Plans the files of an operation and renders its fragment of the
/// manifest.
pub fn parse_yml(
    runtime: Runtime,
    store: &TemplateStore,
    operation: &Operation,
    plan: &mut Plan,
) -> (r: Result<String, GenError>)
    ensures
        performs(old(plan)@, final(plan)@, r, files_trace(runtime, store@, operation@)),
        r matches Ok(fragment) ==> fragment@ == fragment_of(runtime, store@, operation@),
{
    let ghost start = plan@;
    let template = match read_template(store, "function.yml") {
        Ok(template) => template,
        Err(e) => {
            assert(plan@ =~= start + Seq::<Step>::empty());
            return Err(e);
        },
    };
    let name = resolve(operation.path.as_str(), operation.method.as_str());
    let fragment = render_manifest(
        runtime,
        template.as_str(),
        operation.path.as_str(),
        operation.method.as_str(),
        name.as_str(),
    );
    match runtime {
        Runtime::Csharp => {
            assert(plan@ =~= start + Seq::<Step>::empty());
            Ok(fragment)
        },
        Runtime::Nodejs => {
            let ghost copied = copy_trace(store@, "node-function.js"@, handler_path(name@));
            let ghost tested = test_trace(store@, name@);
            let ghost created = one(Step::Create { path: doc_path(name@) });
            let ghost documented = docs_trace(operation@, doc_path(name@));
            let handler = handler_file(name.as_str());
            match copy_template(store, "node-function.js", handler.as_str(), plan) {
                Err(e) => {
                    return Err(e);
                },
                Ok(()) => {},
            }
            let ghost after_copy = plan@;
            match create_function_test(store, name.as_str(), plan) {
                Err(e) => {
                    proof {
                        lemma_chain(start, after_copy, plan@, copied, tested);
                    }
                    return Err(e);
                },
                Ok(()) => {},
            }
            let ghost after_test = plan@;
            let docs = doc_file(name.as_str());
            plan.create_file(docs.as_str());
            let ghost after_create = plan@;
            assert(after_create =~= after_test + created.steps);
            let written = create_function_docs(operation, docs.as_str(), plan);
            proof {
                lemma_chain(after_test, after_create, plan@, created, documented);
                lemma_chain(after_copy, after_test, plan@, tested, chain(created, documented));
                lemma_chain(
                    start,
                    after_copy,
                    plan@,
                    copied,
                    chain(tested, chain(created, documented)),
                );
            }
            match written {
                Err(e) => Err(e),
                Ok(()) => Ok(fragment),
            }
        },
    }
}

/// Plans the file on the API from the `info` block of the document.
pub fn create_api_yaml(info: &Node, plan: &mut Plan) -> (r: Result<(), GenError>)
    ensures
        performs(old(plan)@, final(plan)@, r, api_trace(info@)),
{
    let ghost start = plan@;
    plan.create_file(API_YML);
    match emit(info) {
        Err(e) => {
            assert(plan@ =~= start + api_trace(info@).steps);
            Err(e)
        },
        Ok(yaml) => {
            let fragment = render_info(yaml.as_str());
            plan.write_output(API_YML, fragment.as_str());
            assert(plan@ =~= start + api_trace(info@).steps);
            Ok(())
        },
    }
}

/// Plans the fragment on one model.
fn create_model(model: &Model, plan: &mut Plan) -> (r: Result<(), GenError>)
    ensures
        performs(old(plan)@, final(plan)@, r, model_trace(model@)),
{
    let schema = replace_model_references(model.schema);
    match emit(&schema) {
        Err(e) => {
            assert(plan@ =~= old(plan)@ + Seq::<Step>::empty());
            Err(e)
        },
        Ok(yaml) => {
            let fragment = render_model(model.name.as_str(), yaml.as_str());
            plan.write_output(MODELS_YML, fragment.as_str());
            assert(plan@ =~= old(plan)@ + model_trace(model@).steps);
            Ok(())
        },
    }
}

/// Plans the file on the models of the document.
pub fn create_models_yml(document: &Node, plan: &mut Plan) -> (r: Result<(), GenError>)
    ensures
        performs(old(plan)@, final(plan)@, r, models_trace(document@)),
{
    let ghost start = plan@;
    plan.create_file(MODELS_YML);
    let ghost created = plan@;
    let (listed, failure) = models(document);
    let ghost shapes = shapes_of(listed@);
    let mut i: usize = 0;
    assert(plan@ =~= created + Seq::<Step>::empty());
    assert(created =~= start + one(Step::Create { path: MODELS_YML@ }).steps);
    while i < listed.len()
        invariant
            i <= listed.len(),
            shapes == shapes_of(listed@),
            shapes == modelled(document@).0,
            start == old(plan)@,
            created == start + one(Step::Create { path: MODELS_YML@ }).steps,
            shapes_trace(shapes.take(i as int)).failure is None,
            plan@ == created + shapes_trace(shapes.take(i as int)).steps,
        decreases listed.len() - i,
    {
        let ghost before = plan@;
        let ghost upto = shapes.take(i + 1);
        assert(upto.drop_last() == shapes.take(i as int));
        assert(upto.last() == listed@[i as int]@);
        let made = create_model(&listed[i], plan);
        proof {
            lemma_chain(
                created,
                before,
                plan@,
                shapes_trace(shapes.take(i as int)),
                model_trace(listed@[i as int]@),
            );
        }
        match made {
            Err(e) => {
                proof {
                    lemma_shapes_stop(shapes, i + 1);
                    lemma_chain(
                        start,
                        created,
                        plan@,
                        one(Step::Create { path: MODELS_YML@ }),
                        chain(shapes_trace(shapes), halt(modelled(document@).1)),
                    );
                }
                return Err(e);
            },
            Ok(()) => {},
        }
        i += 1;
    }
    proof {
        assert(shapes.take(i as int) == shapes);
        assert(plan@ =~= plan@ + halt(modelled(document@).1).steps);
        lemma_chain(created, plan@, plan@, shapes_trace(shapes), halt(modelled(document@).1));
        lemma_chain(
            start,
            created,
            plan@,
            one(Step::Create { path: MODELS_YML@ }),
            chain(shapes_trace(shapes), halt(modelled(document@).1)),
        );
    }
    match failure {
        Some(e) => Err(e),
        None => Ok(()),
    }
}

/// Once a model has failed, further models change nothing.
proof fn lemma_shapes_stop(shapes: Seq<Shape>, n: int)
    requires
        0 <= n <= shapes.len(),
        shapes_trace(shapes.take(n)).failure is Some,
    ensures
        shapes_trace(shapes) == shapes_trace(shapes.take(n)),
    decreases shapes.len() - n,
{
    if n < shapes.len() {
        assert(shapes.take(n + 1).drop_last() == shapes.take(n));
        lemma_shapes_stop(shapes, n + 1);
    } else {
        assert(shapes.take(n) == shapes);
    }
}

/// Plans the files of the operations and their fragments in the manifest,
/// one operation after the other.
fn write_operations(
    runtime: Runtime,
    store: &TemplateStore,
    operations: &Vec<Operation>,
    plan: &mut Plan,
) -> (r: Result<(), GenError>)
    ensures
        performs(
            old(plan)@,
            final(plan)@,
            r,
            operations_trace(runtime, store@, ops_of(operations@)),
        ),
{
    let ghost start = plan@;
    let ghost ops = ops_of(operations@);
    let mut i: usize = 0;
    assert(plan@ =~= start + Seq::<Step>::empty());
    while i < operations.len()
        invariant
            i <= operations.len(),
            ops == ops_of(operations@),
            start == old(plan)@,
            operations_trace(runtime, store@, ops.take(i as int)).failure is None,
            plan@ == start + operations_trace(runtime, store@, ops.take(i as int)).steps,
        decreases operations.len() - i,
    {
        let ghost before = plan@;
        let ghost upto = ops.take(i + 1);
        let ghost op = operations@[i as int]@;
        let ghost files = files_trace(runtime, store@, op);
        let ghost listed = one(
            Step::Append { path: OUTPUT@, text: framed(fragment_of(runtime, store@, op)) },
        );
        assert(upto.drop_last() == ops.take(i as int));
        assert(upto.last() == op);
        match parse_yml(runtime, store, &operations[i], plan) {
            Err(e) => {
                proof {
                    lemma_chain(
                        start,
                        before,
                        plan@,
                        operations_trace(runtime, store@, ops.take(i as int)),
                        chain(files, listed),
                    );
                    lemma_operations_stop(runtime, store@, ops, i + 1);
                }
                return Err(e);
            },
            Ok(fragment) => {
                let ghost middle = plan@;
                plan.write_output(OUTPUT, fragment.as_str());
                proof {
                    assert(plan@ =~= middle + listed.steps);
                    lemma_chain(before, middle, plan@, files, listed);
                    lemma_chain(
                        start,
                        before,
                        plan@,
                        operations_trace(runtime, store@, ops.take(i as int)),
                        chain(files, listed),
                    );
                }
            },
        }
        i += 1;
    }
    assert(ops.take(i as int) == ops);
    Ok(())
}

/// Once an operation has failed, further operations change nothing.
pub(crate) proof fn lemma_operations_stop(
    runtime: Runtime,
    store: Seq<(Seq<char>, Seq<char>)>,
    ops: Seq<Op>,
    n: int,
)
    requires
        0 <= n <= ops.len(),
        operations_trace(runtime, store, ops.take(n)).failure is Some,
    ensures
        operations_trace(runtime, store, ops) == operations_trace(runtime, store, ops.take(n)),
    decreases ops.len() - n,
{
    if n < ops.len() {
        assert(ops.take(n + 1).drop_last() == ops.take(n));
        lemma_operations_stop(runtime, store, ops, n + 1);
    } else {
        assert(ops.take(n) == ops);
    }
}

/// Plans what a parsed document gives rise to.
pub fn write_document(
    runtime: Runtime,
    store: &TemplateStore,
    document: &Node,
    plan: &mut Plan,
) -> (r: Result<(), GenError>)
    ensures
        performs(old(plan)@, final(plan)@, r, document_trace(runtime, store@, document@)),
{
    let ghost start = plan@;
    let ghost listed = operations_trace(runtime, store@, walked(document@).0);
    let ghost halted = halt(walked(document@).1);
    let ghost api = api_trace(field(document@, "info"@));
    let ghost modelled = models_trace(document@);
    let (operations, failure) = walk(document);
    match write_operations(runtime, store, &operations, plan) {
        Err(e) => {
            return Err(e);
        },
        Ok(()) => {},
    }
    let ghost after_operations = plan@;
    assert(after_operations =~= start + chain(listed, halted).steps);
    match failure {
        Some(e) => {
            return Err(e);
        },
        None => {},
    }
    let null = Node::Null;
    let info = match child(document, "info") {
        Some(found) => found,
        None => &null,
    };
    let described = create_api_yaml(info, plan);
    let ghost after_api = plan@;
    match described {
        Err(e) => {
            proof {
                lemma_chain(start, after_operations, plan@, chain(listed, halted), chain(api, modelled));
            }
            return Err(e);
        },
        Ok(()) => {},
    }
    let r = create_models_yml(document, plan);
    proof {
        lemma_chain(after_operations, after_api, plan@, api, modelled);
        lemma_chain(start, after_operations, plan@, chain(listed, halted), chain(api, modelled));
    }
    r
}

/// Plans what the text of a Swagger document gives rise to: for every
/// operation, in the order of the document, its files and its fragment in
/// the manifest; then the file on the API; then the file on the models.
pub fn parse_swagger(runtime: Runtime, store: &TemplateStore, text: &str, plan: &mut Plan) -> (r:
    Result<(), GenError>)
    ensures
        performs(old(plan)@, final(plan)@, r, swagger_trace(runtime, store@, text@)),
{
    match parse_document(text) {
        Err(e) => {
            assert(plan@ =~= old(plan)@ + Seq::<Step>::empty());
            Err(e)
        },
        Ok(document) => write_document(runtime, store, &document, plan),
    }
}

/// Plans the start of a project.
pub fn setup(runtime: Runtime, store: &TemplateStore, plan: &mut Plan) -> (r: Result<(), GenError>)
    ensures
        performs(old(plan)@, final(plan)@, r, setup_trace(runtime, store@)),
{
    let ghost start = plan@;
    let ghost created = one(Step::Create { path: OUTPUT@ });
    let ghost packaged = copy_trace(store@, "package.json"@, "package.json"@);
    let ghost helped = copy_trace(store@, "node-response.js"@, "helpers/parse-response.js"@);
    let ghost copied = match runtime {
        Runtime::Nodejs => chain(packaged, helped),
        Runtime::Csharp => idle(),
    };
    let ghost based = base_trace(store@, base_name(runtime));
    setup_output(plan);
    let ghost after_create = plan@;
    assert(after_create =~= start + created.steps);
    let base = match runtime {
        Runtime::Nodejs => {
            match copy_template(store, "package.json", "package.json", plan) {
                Err(e) => {
                    proof {
                        lemma_chain(start, after_create, plan@, created, chain(copied, based));
                    }
                    return Err(e);
                },
                Ok(()) => {},
            }
            let ghost after_package = plan@;
            let helper = copy_template(
                store,
                "node-response.js",
                "helpers/parse-response.js",
                plan,
            );
            proof {
                lemma_chain(after_create, after_package, plan@, packaged, helped);
            }
            match helper {
                Err(e) => {
                    proof {
                        lemma_chain(start, after_create, plan@, created, chain(copied, based));
                    }
                    return Err(e);
                },
                Ok(()) => {},
            }
            "base-nodejs.yml"
        },
        Runtime::Csharp => {
            assert(plan@ =~= after_create + idle().steps);
            "base-csharp.yml"
        },
    };
    let ghost after_copies = plan@;
    let r = match read_template(store, base) {
        Err(e) => {
            assert(plan@ =~= after_copies + based.steps);
            Err(e)
        },
        Ok(content) => {
            plan.write_output(OUTPUT, content.as_str());
            assert(plan@ =~= after_copies + based.steps);
            Ok(())
        },
    };
    proof {
        lemma_chain(after_create, after_copies, plan@, copied, based);
        lemma_chain(start, after_create, plan@, created, chain(copied, based));
    }
    r
}

/// Plans a whole run.
///
/// Nothing is planned where the arguments name no runtime. Otherwise the
/// project is set up and the document is worked through; the first failure
/// ends the run, and the plan then holds the writes that came before it.
pub fn run(params: &Params, store: &TemplateStore, text: &str, plan: &mut Plan) -> (r: Result<
    (),
    GenError,
>)
    ensures
        performs(old(plan)@, final(plan)@, r, run_trace(params.runtime@, store@, text@)),
{
    let ghost start = plan@;
    let runtime = match params.selector() {
        Some(runtime) => runtime,
        None => {
            assert(plan@ =~= start + Seq::<Step>::empty());
            return Err(GenError::UnknownRuntime);
        },
    };
    match setup(runtime, store, plan) {
        Err(e) => {
            return Err(e);
        },
        Ok(()) => {},
    }
    let ghost after_setup = plan@;
    let r = parse_swagger(runtime, store, text, plan);
    proof {
        lemma_chain(
            start,
            after_setup,
            plan@,
            setup_trace(runtime, store@),
            swagger_trace(runtime, store@, text@),
        );
    }
    r
}

} // verus!
