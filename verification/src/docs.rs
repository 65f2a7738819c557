//! The documentation fragment of an operation.

use crate::error::{Failure, GenError};
use crate::node::{field, pairs_of, text_of, trees_of, Node, Tree};
use crate::render::{
    agrees, headers_text, normalize_status, render_headers, render_scalar, scalar_text,
    status_code,
};
use crate::text::{replace, replaced, same_text};
use crate::walk::{child, Op, Operation};
use crate::yaml::{emit, yaml_text};
use vstd::prelude::*;
use vstd::string::*;

verus! {

/// The lines of the tags, up to the first that is no text.
pub open spec fn tag_lines(tags: Seq<Tree>) -> Result<Seq<char>, Failure>
    decreases tags.len(),
{
    if tags.len() == 0 {
        Ok(Seq::empty())
    } else {
        match tag_lines(tags.drop_last()) {
            Err(failure) => Err(failure),
            Ok(before) => match tags.last() {
                Tree::Str(tag) => Ok(before + "  - "@ + tag + "\n"@),
                _ => Err(Failure::TagNotText),
            },
        }
    }
}

/// The section on the tags: nothing where the operation has no list of
/// them.
pub open spec fn tags_section(tags: Tree) -> Result<Seq<char>, Failure> {
    match tags {
        Tree::Sequence(items) => match tag_lines(items) {
            Ok(lines) => Ok("tags: \n"@ + lines),
            Err(failure) => Err(failure),
        },
        _ => Ok(Seq::empty()),
    }
}

/// The line of a parameter among those found in `place`: its name, if it is
/// found there and has a textual name, and nothing otherwise.
pub open spec fn parameter_line(parameter: Tree, place: Seq<char>) -> Seq<char> {
    if field(parameter, "in"@) == Tree::Str(place) {
        match field(parameter, "name"@) {
            Tree::Str(name) => "  - name: "@ + name + "\n"@,
            _ => Seq::empty(),
        }
    } else {
        Seq::empty()
    }
}

/// The lines of the parameters that are found in `place`.
pub open spec fn parameter_lines(parameters: Seq<Tree>, place: Seq<char>) -> Seq<char>
    decreases parameters.len(),
{
    if parameters.len() == 0 {
        Seq::empty()
    } else {
        parameter_lines(parameters.drop_last(), place) + parameter_line(parameters.last(), place)
    }
}

/// The section on the parameters, those of the path first and those of the
/// query after them: nothing where the operation has no list of parameters.
pub open spec fn parameters_section(parameters: Tree) -> Seq<char> {
    match parameters {
        Tree::Sequence(items) => "pathParameters:\n"@ + parameter_lines(items, "path"@)
            + "queryStringParameters:\n"@ + parameter_lines(items, "query"@),
        _ => Seq::empty(),
    }
}

/// The status code that a key of `responses` gives: for a text `200` in
/// place of `default` and else the text itself, for a number the number as
/// YAML writes it, and for any other key none.
pub open spec fn status_of(code: Tree) -> Result<Seq<char>, Failure> {
    match code {
        Tree::Str(key) => Ok(status_code(key)),
        Tree::Number(_) => match yaml_text(code) {
            Some(yaml) => Ok(scalar_text(yaml)),
            None => Err(Failure::NotSerializable),
        },
        _ => Err(Failure::StatusNotCode),
    }
}

/// The entry on one response: its status code, its description, and its
/// headers where it has any.
pub open spec fn response_entry(code: Tree, response: Tree) -> Result<Seq<char>, Failure> {
    match status_of(code) {
        Err(failure) => Err(failure),
        Ok(status) => match text_of(field(response, "description"@)) {
            None => Err(Failure::MissingResponseDescription),
            Some(description) => {
                let head = "-\n"@ + "  statusCode: "@ + status + "\n"@ + "  description: "@
                    + description + "\n"@;
                if field(response, "headers"@) is Null {
                    Ok(head)
                } else {
                    match yaml_text(field(response, "headers"@)) {
                        None => Err(Failure::NotSerializable),
                        Some(yaml) => Ok(head + headers_text(yaml)),
                    }
                }
            },
        },
    }
}

/// The entries on the responses, up to the first that fails.
pub open spec fn response_entries(responses: Seq<(Tree, Tree)>) -> Result<Seq<char>, Failure>
    decreases responses.len(),
{
    if responses.len() == 0 {
        Ok(Seq::empty())
    } else {
        match response_entries(responses.drop_last()) {
            Err(failure) => Err(failure),
            Ok(before) => match response_entry(responses.last().0, responses.last().1) {
                Err(failure) => Err(failure),
                Ok(entry) => Ok(before + entry),
            },
        }
    }
}

/// The section on the responses: nothing where the operation has no mapping
/// of them.
pub open spec fn responses_section(responses: Tree) -> Result<Seq<char>, Failure> {
    match responses {
        Tree::Mapping(entries) => response_entries(entries),
        _ => Ok(Seq::empty()),
    }
}

/// A fragment without the prefixes of references, and with the label of a
/// content type in place of the key `$ref`.
pub open spec fn polished(fragment: Seq<char>) -> Seq<char> {
    replaced(replaced(fragment, "#/definitions/"@, ""@), "$ref"@, "\"application/json\""@)
}

/// The documentation fragment of an operation, or the first thing that is
/// wrong with the operation: in this order its summary, its description,
/// its tags and its responses.
pub open spec fn documentation(op: Op) -> Result<Seq<char>, Failure> {
    match text_of(field(op.detail, "summary"@)) {
        None => Err(Failure::MissingSummary),
        Some(summary) => match text_of(field(op.detail, "description"@)) {
            None => Err(Failure::MissingDescription),
            Some(description) => match tags_section(field(op.detail, "tags"@)) {
                Err(failure) => Err(failure),
                Ok(tags) => match responses_section(field(op.detail, "responses"@)) {
                    Err(failure) => Err(failure),
                    Ok(responses) => Ok(
                        polished(
                            "summary: "@ + summary + "\n"@ + "description: "@ + description
                                + "\n"@ + tags + parameters_section(
                                field(op.detail, "parameters"@),
                            ) + "method: "@ + op.method + "\n"@ + "path: "@ + op.path + "\n"@
                                + "methodResponses: \n"@ + responses,
                        ),
                    ),
                },
            },
        },
    }
}

/// The text under `key`, if a text stands there.
pub fn text_field<'a>(node: &'a Node, key: &str) -> (r: Option<&'a String>)
    ensures
        match r {
            Some(text) => text_of(field(node@, key@)) == Some(text@),
            None => text_of(field(node@, key@)) is None,
        },
{
    match child(node, key) {
        Some(found) => found.as_str(),
        None => None,
    }
}

/// Renders the section on the tags.
pub fn render_tags(detail: &Node) -> (r: Result<String, GenError>)
    ensures
        agrees(r, tags_section(field(detail@, "tags"@))),
{
    let items = match child(detail, "tags") {
        Some(found) => match found.as_sequence() {
            Some(items) => items,
            None => {
                return Ok(String::new());
            },
        },
        None => {
            return Ok(String::new());
        },
    };
    let ghost all = trees_of(items@);
    let mut lines = String::new();
    let mut i: usize = 0;
    while i < items.len()
        invariant
            i <= items.len(),
            all == trees_of(items@),
            field(detail@, "tags"@) == Tree::Sequence(all),
            tag_lines(all.take(i as int)) == Ok::<Seq<char>, Failure>(lines@),
        decreases items.len() - i,
    {
        let ghost upto = all.take(i + 1);
        assert(upto.drop_last() == all.take(i as int));
        assert(upto.last() == items@[i as int]@);
        match items[i].as_str() {
            Some(tag) => {
                lines.append("  - ");
                lines.append(tag.as_str());
                lines.append("\n");
            },
            None => {
                proof {
                    lemma_tags_stop(all, i + 1);
                }
                return Err(GenError::TagNotText);
            },
        }
        i += 1;
    }
    assert(all.take(i as int) == all);
    let mut section = "tags: \n".to_owned();
    section.append(lines.as_str());
    Ok(section)
}

/// Once a tag has failed, further tags change nothing.
proof fn lemma_tags_stop(tags: Seq<Tree>, n: int)
    requires
        0 <= n <= tags.len(),
        tag_lines(tags.take(n)) is Err,
    ensures
        tag_lines(tags) == tag_lines(tags.take(n)),
    decreases tags.len() - n,
{
    if n < tags.len() {
        assert(tags.take(n + 1).drop_last() == tags.take(n));
        lemma_tags_stop(tags, n + 1);
    } else {
        assert(tags.take(n) == tags);
    }
}

/// Renders the lines of the parameters that are found in `place`.
fn render_parameter_lines(items: &Vec<Node>, place: &str) -> (lines: String)
    ensures
        lines@ == parameter_lines(trees_of(items@), place@),
{
    let ghost all = trees_of(items@);
    let mut lines = String::new();
    let mut i: usize = 0;
    while i < items.len()
        invariant
            i <= items.len(),
            all == trees_of(items@),
            lines@ == parameter_lines(all.take(i as int), place@),
        decreases items.len() - i,
    {
        let ghost upto = all.take(i + 1);
        let ghost before = lines@;
        assert(upto.drop_last() == all.take(i as int));
        assert(upto.last() == items@[i as int]@);
        let here = match text_field(&items[i], "in") {
            Some(found) => same_text(found.as_str(), place),
            None => false,
        };
        let mut line = String::new();
        if here {
            if let Some(name) = text_field(&items[i], "name") {
                line = "  - name: ".to_owned();
                line.append(name.as_str());
                line.append("\n");
            }
        }
        assert(line@ == parameter_line(items@[i as int]@, place@));
        lines.append(line.as_str());
        i += 1;
    }
    assert(all.take(i as int) == all);
    lines
}

/// Renders the section on the parameters.
pub fn render_parameters(detail: &Node) -> (section: String)
    ensures
        section@ == parameters_section(field(detail@, "parameters"@)),
{
    let items = match child(detail, "parameters") {
        Some(found) => match found.as_sequence() {
            Some(items) => items,
            None => {
                return String::new();
            },
        },
        None => {
            return String::new();
        },
    };
    let mut section = "pathParameters:\n".to_owned();
    let on_path = render_parameter_lines(items, "path");
    section.append(on_path.as_str());
    section.append("queryStringParameters:\n");
    let on_query = render_parameter_lines(items, "query");
    section.append(on_query.as_str());
    section
}

/// Renders the status code that a key of `responses` gives.
pub fn render_status(code: &Node) -> (r: Result<String, GenError>)
    ensures
        agrees(r, status_of(code@)),
{
    match code {
        Node::Str(key) => Ok(normalize_status(key.as_str())),
        Node::Number(_) => match emit(code) {
            Ok(yaml) => Ok(render_scalar(yaml.as_str())),
            Err(e) => Err(e),
        },
        _ => Err(GenError::StatusNotCode),
    }
}

/// Renders the entry on one response.
pub fn render_response(code: &Node, response: &Node) -> (r: Result<String, GenError>)
    ensures
        agrees(r, response_entry(code@, response@)),
{
    let status = match render_status(code) {
        Ok(status) => status,
        Err(e) => {
            return Err(e);
        },
    };
    let description = match text_field(response, "description") {
        Some(description) => description,
        None => {
            return Err(GenError::MissingResponseDescription);
        },
    };
    let mut entry = "-\n".to_owned();
    entry.append("  statusCode: ");
    entry.append(status.as_str());
    entry.append("\n");
    entry.append("  description: ");
    entry.append(description.as_str());
    entry.append("\n");
    match child(response, "headers") {
        None => Ok(entry),
        Some(headers) => match emit(headers) {
            Err(e) => Err(e),
            Ok(yaml) => {
                let block = render_headers(yaml.as_str());
                entry.append(block.as_str());
                Ok(entry)
            },
        },
    }
}

/// Renders the section on the responses.
pub fn render_responses(detail: &Node) -> (r: Result<String, GenError>)
    ensures
        agrees(r, responses_section(field(detail@, "responses"@))),
{
    let entries = match child(detail, "responses") {
        Some(found) => match found.as_mapping() {
            Some(entries) => entries,
            None => {
                return Ok(String::new());
            },
        },
        None => {
            return Ok(String::new());
        },
    };
    let ghost all = pairs_of(entries@);
    let mut section = String::new();
    let mut i: usize = 0;
    while i < entries.len()
        invariant
            i <= entries.len(),
            all == pairs_of(entries@),
            field(detail@, "responses"@) == Tree::Mapping(all),
            response_entries(all.take(i as int)) == Ok::<Seq<char>, Failure>(section@),
        decreases entries.len() - i,
    {
        let ghost upto = all.take(i + 1);
        assert(upto.drop_last() == all.take(i as int));
        assert(upto.last() == (entries@[i as int].0@, entries@[i as int].1@));
        match render_response(&entries[i].0, &entries[i].1) {
            Ok(entry) => {
                section.append(entry.as_str());
            },
            Err(e) => {
                proof {
                    lemma_responses_stop(all, i + 1);
                }
                return Err(e);
            },
        }
        i += 1;
    }
    assert(all.take(i as int) == all);
    Ok(section)
}

/// Once a response has failed, further responses change nothing.
proof fn lemma_responses_stop(responses: Seq<(Tree, Tree)>, n: int)
    requires
        0 <= n <= responses.len(),
        response_entries(responses.take(n)) is Err,
    ensures
        response_entries(responses) == response_entries(responses.take(n)),
    decreases responses.len() - n,
{
    if n < responses.len() {
        assert(responses.take(n + 1).drop_last() == responses.take(n));
        lemma_responses_stop(responses, n + 1);
    } else {
        assert(responses.take(n) == responses);
    }
}

/// Polishes a fragment.
pub fn polish(fragment: &str) -> (text: String)
    ensures
        text@ == polished(fragment@),
{
    let bare = replace(fragment, "#/definitions/", "");
    replace(bare.as_str(), "$ref", "\"application/json\"")
}

/// Renders the documentation fragment of an operation.
pub fn render_documentation(operation: &Operation) -> (r: Result<String, GenError>)
    ensures
        agrees(r, documentation(operation@)),
{
    let summary = match text_field(operation.detail, "summary") {
        Some(summary) => summary,
        None => {
            return Err(GenError::MissingSummary);
        },
    };
    let description = match text_field(operation.detail, "description") {
        Some(description) => description,
        None => {
            return Err(GenError::MissingDescription);
        },
    };
    let tags = match render_tags(operation.detail) {
        Ok(tags) => tags,
        Err(e) => {
            return Err(e);
        },
    };
    let responses = match render_responses(operation.detail) {
        Ok(responses) => responses,
        Err(e) => {
            return Err(e);
        },
    };
    let parameters = render_parameters(operation.detail);
    let mut fragment = "summary: ".to_owned();
    fragment.append(summary.as_str());
    fragment.append("\n");
    fragment.append("description: ");
    fragment.append(description.as_str());
    fragment.append("\n");
    fragment.append(tags.as_str());
    fragment.append(parameters.as_str());
    fragment.append("method: ");
    fragment.append(operation.method.as_str());
    fragment.append("\n");
    fragment.append("path: ");
    fragment.append(operation.path.as_str());
    fragment.append("\n");
    fragment.append("methodResponses: \n");
    fragment.append(responses.as_str());
    Ok(polish(fragment.as_str()))
}

} // verus!
