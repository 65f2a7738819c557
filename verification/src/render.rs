//! The texts of the generated files.
//!
//! Every function here is a function of its arguments: no template is looked
//! up and no file is named.

use crate::error::{Failure, GenError};
use crate::params::Runtime;
use crate::text::{begins_with, indented, replace, replaced, same_text, skip_chars, starts_with};
use vstd::prelude::*;
use vstd::string::*;

verus! {

/// Whether a result is the wanted text, or the wanted failure.
pub open spec fn agrees(r: Result<String, GenError>, want: Result<Seq<char>, Failure>) -> bool {
    match want {
        Ok(text) => r matches Ok(made) && made@ == text,
        Err(failure) => r matches Err(e) && e@ == failure,
    }
}

/// The status code that a key of `responses` stands for: `200` for
/// `default`, and the key itself otherwise.
pub open spec fn status_code(key: Seq<char>) -> Seq<char> {
    if key == "default"@ {
        "200"@
    } else {
        key
    }
}

/// The status code that a key of `responses` stands for.
pub fn normalize_status(key: &str) -> (code: String)
    ensures
        code@ == status_code(key@),
{
    if same_text(key, "default") {
        "200".to_owned()
    } else {
        key.to_owned()
    }
}

/// A YAML text without the marker `---` that may open it.
pub open spec fn unmarked(text: Seq<char>) -> Seq<char> {
    if begins_with(text, "---"@) {
        text.skip("---"@.len() as int)
    } else {
        text
    }
}

/// Takes the opening marker off a YAML text.
pub fn strip_marker(text: &str) -> (bare: String)
    ensures
        bare@ == unmarked(text@),
{
    if starts_with(text, "---") {
        proof {
            reveal_strlit("---");
        }
        skip_chars(text, 3)
    } else {
        text.to_owned()
    }
}

/// What a YAML text says of a scalar: the text without its marker and
/// without line breaks.
pub open spec fn scalar_text(yaml: Seq<char>) -> Seq<char> {
    replaced(unmarked(yaml), seq!['\n'], Seq::empty())
}

/// Takes marker and line breaks off the YAML text of a scalar.
pub fn render_scalar(yaml: &str) -> (text: String)
    ensures
        text@ == scalar_text(yaml@),
{
    let bare = strip_marker(yaml);
    proof {
        reveal_strlit("\n");
        reveal_strlit("");
        assert("\n"@ =~= seq!['\n']);
        assert(""@ =~= Seq::<char>::empty());
    }
    replace(bare.as_str(), "\n", "")
}

/// A YAML text as the body of a key: without its marker, and every line
/// break followed by `pad`.
pub open spec fn nested(text: Seq<char>, pad: Seq<char>) -> Seq<char> {
    indented(unmarked(text), pad)
}

/// Nests a YAML text under a key.
pub fn nest(text: &str, pad: &str) -> (body: String)
    ensures
        body@ == nested(text@, pad@),
{
    let bare = strip_marker(text);
    let mut with = "\n".to_owned();
    with.append(pad);
    proof {
        reveal_strlit("\n");
        assert("\n"@ =~= seq!['\n']);
    }
    replace(bare.as_str(), "\n", with.as_str())
}

/// The fragment on the API: the YAML text of the `info` block under the key
/// `info`, one level in.
pub open spec fn info_text(yaml: Seq<char>) -> Seq<char> {
    "info:"@ + nested(yaml, "  "@)
}

/// Renders the fragment on the API from the YAML text of the `info` block.
pub fn render_info(yaml: &str) -> (fragment: String)
    ensures
        fragment@ == info_text(yaml@),
{
    let mut fragment = "info:".to_owned();
    let body = nest(yaml, "  ");
    fragment.append(body.as_str());
    fragment
}

/// The `headers` block of a response, from the YAML text of its headers.
pub open spec fn headers_text(yaml: Seq<char>) -> Seq<char> {
    "  headers:"@ + nested(yaml, "    "@) + "\n"@
}

/// Renders the `headers` block of a response.
pub fn render_headers(yaml: &str) -> (block: String)
    ensures
        block@ == headers_text(yaml@),
{
    let mut block = "  headers:".to_owned();
    let body = nest(yaml, "    ");
    block.append(body.as_str());
    block.append("\n");
    block
}

/// The fragment on a model: its name, its content type, and the YAML text
/// of its rewritten schema one level in; a placeholder that still carries
/// the mark `model:` loses it.
pub open spec fn model_text(name: Seq<char>, yaml: Seq<char>) -> Seq<char> {
    replaced(
        "- \n  name: "@ + name + "\n  contentType: 'application/json'"@ + "\n  schema: "@ + nested(
            yaml,
            "    "@,
        ),
        "{{model:"@,
        "{{"@,
    )
}

/// Renders the fragment on a model from the YAML text of its rewritten
/// schema.
pub fn render_model(name: &str, yaml: &str) -> (fragment: String)
    ensures
        fragment@ == model_text(name@, yaml@),
{
    let mut fragment = "- \n  name: ".to_owned();
    fragment.append(name);
    fragment.append("\n  contentType: 'application/json'");
    fragment.append("\n  schema: ");
    let body = nest(yaml, "    ");
    fragment.append(body.as_str());
    replace(fragment.as_str(), "{{model:", "{{")
}

/// Where the handler of a function is found.
pub open spec fn handler_reference(name: Seq<char>) -> Seq<char> {
    "functions/"@ + name + ".handler"@
}

/// The file that holds the handler of a function.
pub open spec fn handler_path(name: Seq<char>) -> Seq<char> {
    "functions/"@ + name + ".js"@
}

/// The file that holds the test of a function.
pub open spec fn test_path(name: Seq<char>) -> Seq<char> {
    "tests/"@ + name + ".test"@ + ".js"@
}

/// The file that holds the documentation of a function.
pub open spec fn doc_path(name: Seq<char>) -> Seq<char> {
    "docs/functions/"@ + name + ".yml"@
}

/// The manifest's fragment on a function: the template with its
/// placeholders for method, path and name filled in, one after the other,
/// and for the Node.js runtime those for the handler and the documentation
/// too.
pub open spec fn manifest_text(
    runtime: Runtime,
    template: Seq<char>,
    path: Seq<char>,
    method: Seq<char>,
    name: Seq<char>,
) -> Seq<char> {
    let named = replaced(
        replaced(replaced(template, "[method]"@, method), "[path]"@, path),
        "[function-name]"@,
        name,
    );
    match runtime {
        Runtime::Nodejs => replaced(
            replaced(named, "[function-handler]"@, handler_reference(name)),
            "[function-doc-path]"@,
            doc_path(name),
        ),
        Runtime::Csharp => named,
    }
}

/// Renders the manifest's fragment on a function.
pub fn render_manifest(
    runtime: Runtime,
    template: &str,
    path: &str,
    method: &str,
    name: &str,
) -> (fragment: String)
    ensures
        fragment@ == manifest_text(runtime, template@, path@, method@, name@),
{
    let with_method = replace(template, "[method]", method);
    let with_path = replace(with_method.as_str(), "[path]", path);
    let named = replace(with_path.as_str(), "[function-name]", name);
    match runtime {
        Runtime::Nodejs => {
            let mut handler = "functions/".to_owned();
            handler.append(name);
            handler.append(".handler");
            let with_handler = replace(named.as_str(), "[function-handler]", handler.as_str());
            let docs = doc_file(name);
            replace(with_handler.as_str(), "[function-doc-path]", docs.as_str())
        },
        Runtime::Csharp => named,
    }
}

/// The file that holds the handler of a function.
pub fn handler_file(name: &str) -> (path: String)
    ensures
        path@ == handler_path(name@),
{
    let mut path = "functions/".to_owned();
    path.append(name);
    path.append(".js");
    path
}

/// The file that holds the test of a function.
pub fn test_file(name: &str) -> (path: String)
    ensures
        path@ == test_path(name@),
{
    let mut path = "tests/".to_owned();
    path.append(name);
    path.append(".test");
    path.append(".js");
    path
}

/// The file that holds the documentation of a function.
pub fn doc_file(name: &str) -> (path: String)
    ensures
        path@ == doc_path(name@),
{
    let mut path = "docs/functions/".to_owned();
    path.append(name);
    path.append(".yml");
    path
}

/// The test of a function: the template with the function's name filled in.
pub open spec fn test_text(template: Seq<char>, name: Seq<char>) -> Seq<char> {
    replaced(template, "[function-name]"@, name)
}

/// Renders the test of a function.
pub fn render_test(template: &str, name: &str) -> (text: String)
    ensures
        text@ == test_text(template@, name@),
{
    replace(template, "[function-name]", name)
}

} // verus!
