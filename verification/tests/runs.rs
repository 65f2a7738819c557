use slsswag::error::GenError;
use slsswag::generate::{
    copy_template, create_api_yaml, create_function_docs, create_models_yml, parse_swagger, parse_yml,
    run, setup, setup_output, write_document, API_YML, MODELS_YML, OUTPUT,
};
use slsswag::node::Node;
use slsswag::params::{Params, Runtime};
use slsswag::plan::{Action, Plan};
use slsswag::template::TemplateStore;
use slsswag::walk::Operation;
use slsswag::yaml::parse_document;

const FUNCTION: &str = "  [function-name]:\n    handler: [function-handler]\n    events:\n      - http:\n          path: [path]\n          method: [method]\n          documentation: ${file([function-doc-path])}";

fn store() -> TemplateStore {
    let mut store = TemplateStore::new();
    store.add("function.yml", FUNCTION);
    store.add("node-function.js", "module.exports.handler = async () => {};");
    store.add("node-test.js", "test('[function-name]', () => {});");
    store.add("package.json", "{ \"name\": \"api\" }");
    store.add("node-response.js", "module.exports = (body) => body;");
    store.add("base-nodejs.yml", "service: api\nprovider:\n  runtime: nodejs\nfunctions:");
    store.add("base-csharp.yml", "service: api\nprovider:\n  runtime: dotnet\nfunctions:");
    store
}

fn without(name: &str) -> TemplateStore {
    let full = store();
    let mut store = TemplateStore::new();
    for template in full.templates.iter() {
        if template.name != name {
            store.add(&template.name, &template.text);
        }
    }
    store
}

fn params(runtime: &str) -> Params {
    Params { input: "api.yml".to_string(), runtime: runtime.to_string() }
}

fn create(path: &str) -> Action {
    Action::Create { path: path.to_string() }
}

fn append(path: &str, content: &str) -> Action {
    Action::Append { path: path.to_string(), text: format!("{}\n\n", content) }
}

fn fragment(name: &str, path: &str, method: &str) -> String {
    format!(
        "  {0}:\n    handler: functions/{0}.handler\n    events:\n      - http:\n          path: {1}\n          method: {2}\n          documentation: ${{file(docs/functions/{0}.yml)}}",
        name, path, method
    )
}

fn nodejs_setup() -> Vec<Action> {
    vec![
        create("serverless.yml"),
        create("package.json"),
        append("package.json", "{ \"name\": \"api\" }"),
        create("helpers/parse-response.js"),
        append("helpers/parse-response.js", "module.exports = (body) => body;"),
        append("serverless.yml", "service: api\nprovider:\n  runtime: nodejs\nfunctions:"),
    ]
}

fn nodejs_files(name: &str, doc: &str) -> Vec<Action> {
    vec![
        create(&format!("functions/{}.js", name)),
        append(&format!("functions/{}.js", name), "module.exports.handler = async () => {};"),
        create(&format!("tests/{}.test.js", name)),
        append(&format!("tests/{}.test.js", name), &format!("test('{}', () => {{}});", name)),
        create(&format!("docs/functions/{}.yml", name)),
        append(&format!("docs/functions/{}.yml", name), doc),
    ]
}

fn manifest_fragments(plan: &Plan) -> Vec<String> {
    plan.actions
        .iter()
        .filter_map(|action| match action {
            Action::Append { path, text } if path == "serverless.yml" => Some(text.clone()),
            _ => None,
        })
        .collect()
}

const PING: &str = "swagger: '2.0'\ninfo:\n  title: Ping\npaths:\n  /ping:\n    get:\n      summary: ping\n      description: health check\n      responses:\n        '200':\n          description: ok\ndefinitions: {}\n";

const PING_DOC: &str = "summary: ping\ndescription: health check\nmethod: get\npath: /ping\nmethodResponses: \n-\n  statusCode: 200\n  description: ok\n";

#[test]
fn the_files_have_their_fixed_places() {
    assert_eq!(OUTPUT, "serverless.yml");
    assert_eq!(API_YML, "docs/api.yml");
    assert_eq!(MODELS_YML, "docs/models.yml");
}

#[test]
fn a_document_with_one_operation_gives_the_whole_project() {
    let mut plan = Plan::new();
    let result = run(&params("nodejs"), &store(), PING, &mut plan);
    assert_eq!(result, Ok(()));
    let mut expected = nodejs_setup();
    expected.extend(nodejs_files("pingget", PING_DOC));
    expected.push(append("serverless.yml", &fragment("pingget", "/ping", "get")));
    expected.push(create("docs/api.yml"));
    expected.push(append("docs/api.yml", "info:\n  title: Ping\n  "));
    expected.push(create("docs/models.yml"));
    assert_eq!(plan.actions, expected);
}

#[test]
fn the_one_operation_is_served_by_its_handler() {
    let mut plan = Plan::new();
    run(&params("nodejs"), &store(), PING, &mut plan).unwrap();
    let fragments = manifest_fragments(&plan);
    assert_eq!(fragments.len(), 2);
    assert!(fragments[1].contains("handler: functions/pingget.handler"));
    let docs: Vec<&Action> = plan
        .actions
        .iter()
        .filter(|a| matches!(a, Action::Append { path, .. } if path == "docs/functions/pingget.yml"))
        .collect();
    assert_eq!(docs.len(), 1);
    if let Action::Append { text, .. } = docs[0] {
        assert!(text.contains("method: get\n"));
        assert!(text.contains("path: /ping\n"));
        assert!(text.contains("methodResponses: \n-\n  statusCode: 200\n  description: ok\n"));
    }
    let models: Vec<&Action> = plan
        .actions
        .iter()
        .filter(|a| match a {
            Action::Create { path } => path == "docs/models.yml",
            Action::Append { path, .. } => path == "docs/models.yml",
        })
        .collect();
    assert_eq!(models, vec![&create("docs/models.yml")]);
}

#[test]
fn a_status_without_quotes_is_documented_as_it_stands() {
    let text = "info:\n  title: t\npaths:\n  /ping:\n    get:\n      summary: ping\n      description: health check\n      responses:\n        200:\n          description: ok\ndefinitions: {}\n";
    let mut plan = Plan::new();
    assert_eq!(run(&params("nodejs"), &store(), text, &mut plan), Ok(()));
    let mut expected = nodejs_setup();
    expected.extend(nodejs_files("pingget", PING_DOC));
    expected.push(append("serverless.yml", &fragment("pingget", "/ping", "get")));
    expected.push(create("docs/api.yml"));
    expected.push(append("docs/api.yml", "info:\n  title: t\n  "));
    expected.push(create("docs/models.yml"));
    assert_eq!(plan.actions, expected);
}

#[test]
fn fragments_reach_the_manifest_in_the_order_of_the_document() {
    let text = "paths:\n  /a:\n    get:\n      summary: s\n      description: d\n  /b:\n    get:\n      summary: s\n      description: d\ndefinitions: {}\n";
    let mut plan = Plan::new();
    assert_eq!(run(&params("nodejs"), &store(), text, &mut plan), Ok(()));
    assert_eq!(
        manifest_fragments(&plan),
        vec![
            "service: api\nprovider:\n  runtime: nodejs\nfunctions:\n\n".to_string(),
            format!("{}\n\n", fragment("aget", "/a", "get")),
            format!("{}\n\n", fragment("bget", "/b", "get")),
        ]
    );
}

#[test]
fn the_order_of_the_document_wins_over_the_order_of_the_letters() {
    let text = "paths:\n  /zebra:\n    put:\n      summary: s\n      description: d\n    get:\n      summary: s\n      description: d\n  /ant:\n    post:\n      summary: s\n      description: d\ndefinitions: {}\n";
    let mut plan = Plan::new();
    assert_eq!(run(&params("nodejs"), &store(), text, &mut plan), Ok(()));
    let fragments = manifest_fragments(&plan);
    assert_eq!(fragments.len(), 4);
    assert_eq!(fragments[1], format!("{}\n\n", fragment("zebraput", "/zebra", "put")));
    assert_eq!(fragments[2], format!("{}\n\n", fragment("zebraget", "/zebra", "get")));
    assert_eq!(fragments[3], format!("{}\n\n", fragment("antpost", "/ant", "post")));
}

#[test]
fn the_same_run_plans_the_same_writes() {
    let mut first = Plan::new();
    let mut second = Plan::new();
    assert_eq!(run(&params("nodejs"), &store(), PING, &mut first), Ok(()));
    assert_eq!(run(&params("nodejs"), &store(), PING, &mut second), Ok(()));
    assert_eq!(first.actions, second.actions);
}

#[test]
fn a_missing_summary_ends_the_run_and_keeps_what_came_before() {
    let text = "info: {}\npaths:\n  /a:\n    get:\n      summary: s\n      description: d\n  /b:\n    get:\n      description: no summary\n  /c:\n    get:\n      summary: s\n      description: d\ndefinitions: {}\n";
    let mut plan = Plan::new();
    let result = run(&params("nodejs"), &store(), text, &mut plan);
    assert_eq!(result, Err(GenError::MissingSummary));
    let mut expected = nodejs_setup();
    expected.extend(nodejs_files("aget", "summary: s\ndescription: d\nmethod: get\npath: /a\nmethodResponses: \n"));
    expected.push(append("serverless.yml", &fragment("aget", "/a", "get")));
    expected.push(create("functions/bget.js"));
    expected.push(append("functions/bget.js", "module.exports.handler = async () => {};"));
    expected.push(create("tests/bget.test.js"));
    expected.push(append("tests/bget.test.js", "test('bget', () => {});"));
    expected.push(create("docs/functions/bget.yml"));
    assert_eq!(plan.actions, expected);
    assert_eq!(manifest_fragments(&plan).len(), 2);
}

#[test]
fn a_missing_summary_on_the_first_operation_leaves_the_manifest_at_its_base() {
    let text = "paths:\n  /a:\n    get:\n      description: d\ndefinitions: {}\n";
    let mut plan = Plan::new();
    assert_eq!(run(&params("nodejs"), &store(), text, &mut plan), Err(GenError::MissingSummary));
    assert_eq!(
        manifest_fragments(&plan),
        vec!["service: api\nprovider:\n  runtime: nodejs\nfunctions:\n\n".to_string()]
    );
    assert!(!plan.actions.iter().any(|a| matches!(a, Action::Create { path } if path == "docs/api.yml")));
}

#[test]
fn an_unknown_runtime_plans_nothing() {
    let mut plan = Plan::new();
    assert_eq!(run(&params("python"), &store(), PING, &mut plan), Err(GenError::UnknownRuntime));
    assert!(plan.actions.is_empty());
}

#[test]
fn a_run_adds_to_the_plan_it_is_given() {
    let mut plan = Plan::new();
    plan.create_file("kept");
    assert_eq!(run(&params("go"), &store(), PING, &mut plan), Err(GenError::UnknownRuntime));
    assert_eq!(plan.actions, vec![create("kept")]);
    assert_eq!(run(&params("nodejs"), &store(), PING, &mut plan), Ok(()));
    assert_eq!(plan.actions[0], create("kept"));
    assert_eq!(plan.actions[1], create("serverless.yml"));
    assert_eq!(plan.actions.len(), 1 + 6 + 6 + 1 + 2 + 1);
}

#[test]
fn csharp_gets_a_manifest_and_no_files_of_its_own() {
    let mut plan = Plan::new();
    let result = run(&params("csharp"), &store(), PING, &mut plan);
    assert_eq!(result, Ok(()));
    assert_eq!(
        plan.actions,
        vec![
            create("serverless.yml"),
            append("serverless.yml", "service: api\nprovider:\n  runtime: dotnet\nfunctions:"),
            append(
                "serverless.yml",
                "  pingget:\n    handler: [function-handler]\n    events:\n      - http:\n          path: /ping\n          method: get\n          documentation: ${file([function-doc-path])}"
            ),
            create("docs/api.yml"),
            append("docs/api.yml", "info:\n  title: Ping\n  "),
            create("docs/models.yml"),
        ]
    );
}

#[test]
fn csharp_does_not_ask_for_a_summary() {
    let text = "paths:\n  /a:\n    get: {}\ndefinitions: {}\n";
    let mut plan = Plan::new();
    assert_eq!(run(&params("csharp"), &store(), text, &mut plan), Ok(()));
    assert_eq!(manifest_fragments(&plan).len(), 2);
}

#[test]
fn text_that_is_no_yaml_ends_the_run_after_the_setup() {
    let mut plan = Plan::new();
    assert_eq!(run(&params("nodejs"), &store(), "paths: [", &mut plan), Err(GenError::NotYaml));
    assert_eq!(plan.actions, nodejs_setup());
}

#[test]
fn missing_paths_end_the_run_after_the_setup() {
    let mut plan = Plan::new();
    assert_eq!(
        run(&params("nodejs"), &store(), "definitions: {}\n", &mut plan),
        Err(GenError::PathsNotMapping)
    );
    assert_eq!(plan.actions, nodejs_setup());
}

#[test]
fn a_path_without_methods_ends_the_run_behind_the_paths_before_it() {
    let text = "paths:\n  /a:\n    get:\n      summary: s\n      description: d\n  /b: 5\ndefinitions: {}\n";
    let mut plan = Plan::new();
    assert_eq!(run(&params("nodejs"), &store(), text, &mut plan), Err(GenError::MethodsNotMapping));
    let mut expected = nodejs_setup();
    expected.extend(nodejs_files("aget", "summary: s\ndescription: d\nmethod: get\npath: /a\nmethodResponses: \n"));
    expected.push(append("serverless.yml", &fragment("aget", "/a", "get")));
    assert_eq!(plan.actions, expected);
}

#[test]
fn missing_definitions_end_the_run_behind_the_file_on_the_api() {
    let text = "info:\n  title: T\npaths: {}\n";
    let mut plan = Plan::new();
    assert_eq!(
        run(&params("nodejs"), &store(), text, &mut plan),
        Err(GenError::DefinitionsNotMapping)
    );
    let mut expected = nodejs_setup();
    expected.push(create("docs/api.yml"));
    expected.push(append("docs/api.yml", "info:\n  title: T\n  "));
    expected.push(create("docs/models.yml"));
    assert_eq!(plan.actions, expected);
}

#[test]
fn a_missing_info_block_is_written_as_null() {
    let mut plan = Plan::new();
    assert_eq!(
        parse_swagger(Runtime::Nodejs, &store(), "paths: {}\ndefinitions: {}\n", &mut plan),
        Ok(())
    );
    assert_eq!(
        plan.actions,
        vec![create("docs/api.yml"), append("docs/api.yml", "info:\n  ~\n  "), create("docs/models.yml")]
    );
}

#[test]
fn models_are_written_with_their_references_rewritten() {
    let text = "paths: {}\ndefinitions:\n  Pet:\n    type: object\n    properties:\n      owner:\n        $ref: '#/definitions/User'\n      friends:\n        type: array\n        items:\n          $ref: '#/definitions/Pet'\n  User:\n    type: object\n";
    let document = parse_document(text).unwrap();
    let mut plan = Plan::new();
    assert_eq!(create_models_yml(&document, &mut plan), Ok(()));
    assert_eq!(
        plan.actions,
        vec![
            create("docs/models.yml"),
            append(
                "docs/models.yml",
                "- \n  name: Pet\n  contentType: 'application/json'\n  schema: \n    type: object\n    properties:\n      owner:\n        $ref: \"{{User}}\"\n      friends:\n        type: array\n        items:\n          $ref: \"{{Pet}}\"\n    "
            ),
            append(
                "docs/models.yml",
                "- \n  name: User\n  contentType: 'application/json'\n  schema: \n    type: object\n    "
            ),
        ]
    );
    assert_eq!(document, parse_document(text).unwrap());
}

#[test]
fn a_malformed_definition_ends_the_run_behind_the_models_before_it() {
    let document = parse_document("definitions:\n  A:\n    type: object\n  B: 5\n  C:\n    type: object\n").unwrap();
    let mut plan = Plan::new();
    assert_eq!(create_models_yml(&document, &mut plan), Err(GenError::MalformedDefinition));
    assert_eq!(
        plan.actions,
        vec![
            create("docs/models.yml"),
            append("docs/models.yml", "- \n  name: A\n  contentType: 'application/json'\n  schema: \n    type: object\n    "),
        ]
    );
}

#[test]
fn the_file_on_the_api_holds_the_info_block() {
    let info = parse_document("title: Pets\nversion: 1.0.0\ncontact:\n  name: me\n").unwrap();
    let mut plan = Plan::new();
    assert_eq!(create_api_yaml(&info, &mut plan), Ok(()));
    assert_eq!(
        plan.actions,
        vec![
            create("docs/api.yml"),
            append("docs/api.yml", "info:\n  title: Pets\n  version: 1.0.0\n  contact:\n    name: me\n  "),
        ]
    );
}

#[test]
fn a_template_is_copied_into_a_file_of_its_own() {
    let mut plan = Plan::new();
    assert_eq!(copy_template(&store(), "package.json", "package.json", &mut plan), Ok(()));
    assert_eq!(plan.actions, vec![create("package.json"), append("package.json", "{ \"name\": \"api\" }")]);
}

#[test]
fn a_template_that_is_missing_is_not_copied() {
    let mut plan = Plan::new();
    assert_eq!(
        copy_template(&store(), "nothing", "somewhere", &mut plan),
        Err(GenError::MissingTemplate("nothing".to_string()))
    );
    assert!(plan.actions.is_empty());
}

#[test]
fn every_template_is_needed_where_it_is_used() {
    let cases = vec![
        ("package.json", 1),
        ("node-response.js", 3),
        ("base-nodejs.yml", 5),
        ("function.yml", 6),
        ("node-function.js", 6),
        ("node-test.js", 8),
    ];
    for (name, planned) in cases {
        let mut plan = Plan::new();
        assert_eq!(
            run(&params("nodejs"), &without(name), PING, &mut plan),
            Err(GenError::MissingTemplate(name.to_string()))
        );
        assert_eq!(plan.actions.len(), planned);
    }
    let mut plan = Plan::new();
    assert_eq!(run(&params("nodejs"), &without("base-csharp.yml"), PING, &mut plan), Ok(()));
    let mut plan = Plan::new();
    assert_eq!(
        run(&params("csharp"), &without("base-csharp.yml"), PING, &mut plan),
        Err(GenError::MissingTemplate("base-csharp.yml".to_string()))
    );
    assert_eq!(plan.actions, vec![create("serverless.yml")]);
}

#[test]
fn the_setup_starts_with_an_empty_manifest() {
    let mut plan = Plan::new();
    setup_output(&mut plan);
    assert_eq!(plan.actions, vec![create("serverless.yml")]);
    let mut plan = Plan::new();
    assert_eq!(setup(Runtime::Nodejs, &store(), &mut plan), Ok(()));
    assert_eq!(plan.actions, nodejs_setup());
}

#[test]
fn the_documentation_of_an_operation_goes_into_its_file() {
    let detail = parse_document("summary: s\ndescription: d\n").unwrap();
    let operation = Operation { path: "/a".to_string(), method: "get".to_string(), detail: &detail };
    let mut plan = Plan::new();
    assert_eq!(create_function_docs(&operation, "docs/functions/aget.yml", &mut plan), Ok(()));
    assert_eq!(
        plan.actions,
        vec![append("docs/functions/aget.yml", "summary: s\ndescription: d\nmethod: get\npath: /a\nmethodResponses: \n")]
    );
    let broken = Operation { path: "/a".to_string(), method: "get".to_string(), detail: &Node::Null };
    let mut plan = Plan::new();
    assert_eq!(
        create_function_docs(&broken, "docs/functions/aget.yml", &mut plan),
        Err(GenError::MissingSummary)
    );
    assert!(plan.actions.is_empty());
}

#[test]
fn an_operation_gives_its_files_and_its_fragment() {
    let detail = parse_document("summary: s\ndescription: d\n").unwrap();
    let operation = Operation { path: "/users/{id}".to_string(), method: "get".to_string(), detail: &detail };
    let mut plan = Plan::new();
    let made = parse_yml(Runtime::Nodejs, &store(), &operation, &mut plan);
    assert_eq!(made, Ok(fragment("users-id-get", "/users/{id}", "get")));
    assert_eq!(
        plan.actions,
        nodejs_files("users-id-get", "summary: s\ndescription: d\nmethod: get\npath: /users/{id}\nmethodResponses: \n")
    );
}

#[test]
fn a_parsed_document_is_written_like_its_text() {
    let document = parse_document(PING).unwrap();
    let mut from_tree = Plan::new();
    let mut from_text = Plan::new();
    assert_eq!(write_document(Runtime::Nodejs, &store(), &document, &mut from_tree), Ok(()));
    assert_eq!(parse_swagger(Runtime::Nodejs, &store(), PING, &mut from_text), Ok(()));
    assert_eq!(from_tree.actions, from_text.actions);
}
