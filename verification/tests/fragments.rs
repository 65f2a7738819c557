use slsswag::params::Runtime;
use slsswag::plan::{Action, Plan};
use slsswag::render::{
    doc_file, handler_file, nest, normalize_status, render_headers, render_info, render_manifest,
    render_model, render_scalar, render_test, strip_marker, test_file,
};

#[test]
fn default_status_is_200() {
    assert_eq!(normalize_status("default"), "200");
}

#[test]
fn other_statuses_pass_through() {
    assert_eq!(normalize_status("404"), "404");
    assert_eq!(normalize_status("200"), "200");
    assert_eq!(normalize_status("Default"), "Default");
    assert_eq!(normalize_status("default "), "default ");
    assert_eq!(normalize_status(""), "");
    assert_eq!(normalize_status("2XX"), "2XX");
}

#[test]
fn the_opening_marker_is_taken_off() {
    assert_eq!(strip_marker("---\na: 1\n"), "\na: 1\n");
    assert_eq!(strip_marker("a: 1\n"), "a: 1\n");
    assert_eq!(strip_marker("---"), "");
    assert_eq!(strip_marker("--"), "--");
    assert_eq!(strip_marker(""), "");
}

#[test]
fn a_marker_inside_the_text_stays() {
    assert_eq!(strip_marker("---\na: x --- y\n"), "\na: x --- y\n");
    assert_eq!(strip_marker("a\n---\nb\n"), "a\n---\nb\n");
}

#[test]
fn a_scalar_loses_marker_and_line_breaks() {
    assert_eq!(render_scalar("---\n200\n"), "200");
    assert_eq!(render_scalar("200\n"), "200");
    assert_eq!(render_scalar("200"), "200");
    assert_eq!(render_scalar("---\n"), "");
    assert_eq!(render_scalar(""), "");
}

#[test]
fn nesting_pads_every_line_break() {
    assert_eq!(nest("---\na: 1\nb: 2\n", "  "), "\n  a: 1\n  b: 2\n  ");
    assert_eq!(nest("---\na:\n  b: 2\n", "    "), "\n    a:\n      b: 2\n    ");
    assert_eq!(nest("x", "  "), "x");
}

#[test]
fn the_info_block_goes_under_its_key() {
    assert_eq!(
        render_info("---\ntitle: Ping\nversion: 1.0.0\n"),
        "info:\n  title: Ping\n  version: 1.0.0\n  "
    );
    assert_eq!(render_info("---\n~\n"), "info:\n  ~\n  ");
}

#[test]
fn headers_go_one_level_in() {
    assert_eq!(
        render_headers("---\nX-Rate:\n  type: integer\n"),
        "  headers:\n    X-Rate:\n      type: integer\n    \n"
    );
}

#[test]
fn a_model_has_name_content_type_and_schema() {
    assert_eq!(
        render_model("Pet", "---\ntype: object\nproperties:\n  owner:\n    $ref: \"{{User}}\"\n"),
        "- \n  name: Pet\n  contentType: 'application/json'\n  schema: \n    type: object\n    properties:\n      owner:\n        $ref: \"{{User}}\"\n    "
    );
}

#[test]
fn a_marked_placeholder_loses_its_mark() {
    assert_eq!(
        render_model("Pet", "---\n$ref: \"{{model:User}}\"\n"),
        "- \n  name: Pet\n  contentType: 'application/json'\n  schema: \n    $ref: \"{{User}}\"\n    "
    );
}

#[test]
fn files_are_named_by_the_function() {
    assert_eq!(handler_file("pingget"), "functions/pingget.js");
    assert_eq!(test_file("pingget"), "tests/pingget.test.js");
    assert_eq!(doc_file("pingget"), "docs/functions/pingget.yml");
}

#[test]
fn the_manifest_fragment_fills_all_placeholders_for_nodejs() {
    let template = "[function-name]:\n  handler: [function-handler]\n  events:\n    - http:\n        path: [path]\n        method: [method]\n        documentation: ${file([function-doc-path])}";
    assert_eq!(
        render_manifest(Runtime::Nodejs, template, "/users/{id}", "get", "users-id-get"),
        "users-id-get:\n  handler: functions/users-id-get.handler\n  events:\n    - http:\n        path: /users/{id}\n        method: get\n        documentation: ${file(docs/functions/users-id-get.yml)}"
    );
}

#[test]
fn the_manifest_fragment_leaves_handler_and_documentation_open_for_csharp() {
    let template = "[function-name]: [function-handler] [path] [method] [function-doc-path]";
    assert_eq!(
        render_manifest(Runtime::Csharp, template, "/a", "put", "aput"),
        "aput: [function-handler] /a put [function-doc-path]"
    );
}

#[test]
fn a_placeholder_is_filled_wherever_it_stands() {
    assert_eq!(
        render_manifest(Runtime::Nodejs, "[method] [method] [path][path]", "/a", "get", "aget"),
        "get get /a/a"
    );
    assert_eq!(render_manifest(Runtime::Nodejs, "nothing to fill", "/a", "get", "aget"), "nothing to fill");
}

#[test]
fn placeholders_are_filled_one_after_the_other() {
    assert_eq!(render_manifest(Runtime::Nodejs, "[method]", "/p", "[path]", "n"), "/p");
}

#[test]
fn the_test_carries_the_name_of_the_function() {
    assert_eq!(
        render_test("describe('[function-name]', () => {});", "pingget"),
        "describe('pingget', () => {});"
    );
}

#[test]
fn a_fragment_is_written_with_an_empty_line_behind_it() {
    let mut plan = Plan::new();
    plan.create_file("serverless.yml");
    plan.write_output("serverless.yml", "functions:");
    plan.write_output("docs/api.yml", "");
    assert_eq!(
        plan.actions,
        vec![
            Action::Create { path: "serverless.yml".to_string() },
            Action::Append { path: "serverless.yml".to_string(), text: "functions:\n\n".to_string() },
            Action::Append { path: "docs/api.yml".to_string(), text: "\n\n".to_string() },
        ]
    );
}

#[test]
fn a_new_plan_is_empty() {
    assert!(Plan::new().actions.is_empty());
}
