use slsswag::node::Node;
use slsswag::refs::replace_model_references;
use slsswag::yaml::parse_document;

fn text(s: &str) -> Node {
    Node::Str(s.to_string())
}

fn mapping(entries: Vec<(&str, Node)>) -> Node {
    Node::Mapping(entries.into_iter().map(|(k, v)| (text(k), v)).collect())
}

fn reference(name: &str) -> Node {
    mapping(vec![("$ref", text(&format!("#/definitions/{}", name)))])
}

fn placeholder(name: &str) -> Node {
    mapping(vec![("$ref", text(&format!("{{{{{}}}}}", name)))])
}

fn count(node: &Node, hit: &dyn Fn(&str) -> bool) -> usize {
    match node {
        Node::Sequence(items) => items.iter().map(|item| count(item, hit)).sum(),
        Node::Mapping(entries) => entries
            .iter()
            .map(|(key, value)| {
                let here = match (key, value) {
                    (Node::Str(k), Node::Str(v)) if k == "$ref" && hit(v) => 1,
                    _ => 0,
                };
                here + count(value, hit)
            })
            .sum(),
        _ => 0,
    }
}

fn references(node: &Node) -> usize {
    count(node, &|v| v.starts_with("#/definitions/"))
}

fn placeholders(node: &Node) -> usize {
    count(node, &|v| v.len() >= 4 && v.starts_with("{{") && v.ends_with("}}"))
}

#[test]
fn a_reference_becomes_a_placeholder() {
    assert_eq!(replace_model_references(&reference("Pet")), placeholder("Pet"));
}

#[test]
fn a_reference_without_a_name_becomes_an_empty_placeholder() {
    assert_eq!(replace_model_references(&reference("")), placeholder(""));
}

#[test]
fn references_are_rewritten_at_every_depth() {
    let model = mapping(vec![
        ("type", text("object")),
        ("allOf", Node::Sequence(vec![reference("Base"), mapping(vec![("type", text("object"))])])),
        (
            "properties",
            mapping(vec![
                ("owner", reference("User")),
                (
                    "tags",
                    mapping(vec![("type", text("array")), ("items", reference("Tag"))]),
                ),
                (
                    "grid",
                    Node::Sequence(vec![Node::Sequence(vec![reference("Cell")])]),
                ),
            ]),
        ),
    ]);
    let before = model.clone();
    let made = replace_model_references(&model);
    let expected = mapping(vec![
        ("type", text("object")),
        ("allOf", Node::Sequence(vec![placeholder("Base"), mapping(vec![("type", text("object"))])])),
        (
            "properties",
            mapping(vec![
                ("owner", placeholder("User")),
                (
                    "tags",
                    mapping(vec![("type", text("array")), ("items", placeholder("Tag"))]),
                ),
                (
                    "grid",
                    Node::Sequence(vec![Node::Sequence(vec![placeholder("Cell")])]),
                ),
            ]),
        ),
    ]);
    assert_eq!(made, expected);
    assert_eq!(references(&before), 4);
    assert_eq!(placeholders(&before), 0);
    assert_eq!(placeholders(&made), 4);
    assert_eq!(references(&made), 0);
    assert_eq!(model, before);
}

#[test]
fn what_is_no_reference_stays() {
    let model = mapping(vec![
        ("$ref", text("http://example.com/schema")),
        ("ref", text("#/definitions/A")),
        ("$ref2", text("#/definitions/B")),
        ("description", text("see #/definitions/C")),
        ("count", Node::Number(serde_yaml::Number::from(3u64))),
        ("flag", Node::Bool(true)),
        ("none", Node::Null),
    ]);
    assert_eq!(replace_model_references(&model), model);
}

#[test]
fn a_reference_key_over_a_mapping_is_no_reference() {
    let model = mapping(vec![("$ref", reference("Inner"))]);
    let expected = mapping(vec![("$ref", placeholder("Inner"))]);
    assert_eq!(replace_model_references(&model), expected);
}

#[test]
fn keys_are_left_as_they_are() {
    let model = Node::Mapping(vec![(reference("Key"), reference("Value"))]);
    let expected = Node::Mapping(vec![(reference("Key"), placeholder("Value"))]);
    assert_eq!(replace_model_references(&model), expected);
}

#[test]
fn placeholders_that_were_there_are_counted_with_the_new_ones() {
    let model = Node::Sequence(vec![placeholder("Old"), reference("New")]);
    let made = replace_model_references(&model);
    assert_eq!(references(&model) + placeholders(&model), 2);
    assert_eq!(placeholders(&made), 2);
    assert_eq!(references(&made), 0);
}

#[test]
fn rewriting_twice_changes_nothing_more() {
    let model = parse_document(
        "properties:\n  a:\n    $ref: '#/definitions/A'\n  b:\n    items:\n      - $ref: '#/definitions/B'\n",
    )
    .unwrap();
    let once = replace_model_references(&model);
    let twice = replace_model_references(&once);
    assert_eq!(once, twice);
    assert_eq!(placeholders(&once), 2);
}

#[test]
fn scalars_and_empty_trees_are_copied() {
    assert_eq!(replace_model_references(&Node::Null), Node::Null);
    assert_eq!(replace_model_references(&text("#/definitions/A")), text("#/definitions/A"));
    assert_eq!(replace_model_references(&Node::Sequence(vec![])), Node::Sequence(vec![]));
    assert_eq!(replace_model_references(&Node::Mapping(vec![])), Node::Mapping(vec![]));
}
