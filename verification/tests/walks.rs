use slsswag::error::GenError;
use slsswag::node::Node;
use slsswag::walk::{child, models, walk};
use slsswag::yaml::parse_document;

fn pairs(document: &Node) -> Vec<(String, String)> {
    walk(document).0.iter().map(|o| (o.path.clone(), o.method.clone())).collect()
}

fn pair(path: &str, method: &str) -> (String, String) {
    (path.to_string(), method.to_string())
}

#[test]
fn operations_come_in_the_order_of_the_document() {
    let document = parse_document(
        "paths:\n  /b:\n    post: {}\n    get: {}\n  /a:\n    get: {}\n  /c:\n    delete: {}\n    put: {}\n",
    )
    .unwrap();
    assert_eq!(
        pairs(&document),
        vec![pair("/b", "post"), pair("/b", "get"), pair("/a", "get"), pair("/c", "delete"), pair("/c", "put")]
    );
    assert_eq!(walk(&document).1, None);
}

#[test]
fn two_paths_with_one_method_each_keep_their_order() {
    let document = parse_document("paths:\n  /a:\n    get: {}\n  /b:\n    get: {}\n").unwrap();
    assert_eq!(pairs(&document), vec![pair("/a", "get"), pair("/b", "get")]);
}

#[test]
fn an_operation_carries_what_stands_under_its_method() {
    let document = parse_document("paths:\n  /a:\n    get:\n      summary: s\n").unwrap();
    let (operations, failure) = walk(&document);
    assert_eq!(failure, None);
    assert_eq!(operations.len(), 1);
    assert_eq!(operations[0].detail, &parse_document("summary: s\n").unwrap());
}

#[test]
fn a_path_that_is_no_text_counts_as_the_root() {
    let document = parse_document("paths:\n  7:\n    get: {}\n  [x, y]:\n    put: {}\n").unwrap();
    assert_eq!(pairs(&document), vec![pair("/", "get"), pair("/", "put")]);
}

#[test]
fn a_method_that_is_no_text_counts_as_get() {
    let document = parse_document("paths:\n  /a:\n    7: {}\n    ~: {}\n    post: {}\n").unwrap();
    assert_eq!(pairs(&document), vec![pair("/a", "get"), pair("/a", "get"), pair("/a", "post")]);
}

#[test]
fn paths_that_are_missing_are_fatal() {
    let document = parse_document("info: {}\n").unwrap();
    let (operations, failure) = walk(&document);
    assert!(operations.is_empty());
    assert_eq!(failure, Some(GenError::PathsNotMapping));
}

#[test]
fn paths_that_are_no_mapping_are_fatal() {
    for text in ["paths: ~\n", "paths: [a, b]\n", "paths: text\n", "- a\n", "just text\n"] {
        let document = parse_document(text).unwrap();
        let (operations, failure) = walk(&document);
        assert!(operations.is_empty());
        assert_eq!(failure, Some(GenError::PathsNotMapping));
    }
}

#[test]
fn empty_paths_give_no_operation() {
    let document = parse_document("paths: {}\n").unwrap();
    let (operations, failure) = walk(&document);
    assert!(operations.is_empty());
    assert_eq!(failure, None);
}

#[test]
fn the_walk_ends_at_a_path_without_methods() {
    let document = parse_document(
        "paths:\n  /a:\n    get: {}\n    put: {}\n  /b: nothing\n  /c:\n    get: {}\n",
    )
    .unwrap();
    assert_eq!(pairs(&document), vec![pair("/a", "get"), pair("/a", "put")]);
    assert_eq!(walk(&document).1, Some(GenError::MethodsNotMapping));
}

#[test]
fn a_path_with_an_empty_mapping_has_no_operation() {
    let document = parse_document("paths:\n  /a: {}\n  /b:\n    get: {}\n").unwrap();
    assert_eq!(pairs(&document), vec![pair("/b", "get")]);
    assert_eq!(walk(&document).1, None);
}

#[test]
fn models_come_in_the_order_of_the_document() {
    let document = parse_document(
        "definitions:\n  Zebra:\n    type: object\n  Ant:\n    type: object\n    properties: {}\n",
    )
    .unwrap();
    let (listed, failure) = models(&document);
    assert_eq!(failure, None);
    let names: Vec<&str> = listed.iter().map(|m| m.name.as_str()).collect();
    assert_eq!(names, vec!["Zebra", "Ant"]);
    assert_eq!(listed[0].schema, &parse_document("type: object\n").unwrap());
}

#[test]
fn definitions_may_be_empty() {
    let document = parse_document("definitions: {}\n").unwrap();
    let (listed, failure) = models(&document);
    assert!(listed.is_empty());
    assert_eq!(failure, None);
}

#[test]
fn definitions_that_are_missing_or_no_mapping_are_fatal() {
    for text in ["paths: {}\n", "definitions: ~\n", "definitions: [a]\n", "definitions: text\n"] {
        let document = parse_document(text).unwrap();
        let (listed, failure) = models(&document);
        assert!(listed.is_empty());
        assert_eq!(failure, Some(GenError::DefinitionsNotMapping));
    }
}

#[test]
fn the_walk_ends_at_a_malformed_definition() {
    let document = parse_document(
        "definitions:\n  Good:\n    type: object\n  Bad: text\n  Late:\n    type: object\n",
    )
    .unwrap();
    let (listed, failure) = models(&document);
    let names: Vec<&str> = listed.iter().map(|m| m.name.as_str()).collect();
    assert_eq!(names, vec!["Good"]);
    assert_eq!(failure, Some(GenError::MalformedDefinition));
}

#[test]
fn a_definition_needs_a_textual_name() {
    let document = parse_document("definitions:\n  7:\n    type: object\n").unwrap();
    let (listed, failure) = models(&document);
    assert!(listed.is_empty());
    assert_eq!(failure, Some(GenError::MalformedDefinition));
}

#[test]
fn a_child_that_is_null_counts_as_missing() {
    let document = parse_document("a: ~\nb: 1\n").unwrap();
    assert_eq!(child(&document, "a"), None);
    assert_eq!(child(&document, "c"), None);
    assert_eq!(child(&document, "b"), Some(&Node::Number(serde_yaml::Number::from(1u64))));
}
