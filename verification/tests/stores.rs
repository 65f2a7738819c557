use slsswag::error::GenError;
use slsswag::template::{read_template, TemplateStore};

#[test]
fn a_template_is_read_by_its_name() {
    let mut store = TemplateStore::new();
    store.add("function.yml", "[function-name]:");
    store.add("package.json", "{}");
    assert_eq!(read_template(&store, "package.json"), Ok("{}".to_string()));
    assert_eq!(read_template(&store, "function.yml"), Ok("[function-name]:".to_string()));
}

#[test]
fn a_missing_template_is_fatal_and_named() {
    let mut store = TemplateStore::new();
    store.add("function.yml", "x");
    assert_eq!(
        read_template(&store, "node-test.js"),
        Err(GenError::MissingTemplate("node-test.js".to_string()))
    );
    assert_eq!(
        read_template(&TemplateStore::new(), "function.yml"),
        Err(GenError::MissingTemplate("function.yml".to_string()))
    );
}

#[test]
fn names_are_compared_exactly() {
    let mut store = TemplateStore::new();
    store.add("function.yml", "x");
    assert!(read_template(&store, "Function.yml").is_err());
    assert!(read_template(&store, "function.yml ").is_err());
    assert!(read_template(&store, "function").is_err());
}

#[test]
fn the_first_of_two_templates_with_one_name_is_read() {
    let mut store = TemplateStore::new();
    store.add("a", "first");
    store.add("a", "second");
    assert_eq!(read_template(&store, "a"), Ok("first".to_string()));
}

#[test]
fn an_empty_template_is_a_template() {
    let mut store = TemplateStore::new();
    store.add("empty", "");
    assert_eq!(read_template(&store, "empty"), Ok(String::new()));
}

#[test]
fn every_failure_has_its_message() {
    assert_eq!(GenError::UnknownRuntime.message(), "runtime must be nodejs or csharp");
    assert_eq!(GenError::NotYaml.message(), "the document is not valid YAML");
    assert_eq!(GenError::PathsNotMapping.message(), "paths is not a mapping or malformed");
    assert_eq!(GenError::MethodsNotMapping.message(), "the methods of a path are not a mapping");
    assert_eq!(GenError::DefinitionsNotMapping.message(), "definitions is not a mapping or malformed");
    assert_eq!(GenError::MalformedDefinition.message(), "a definition is malformed");
    assert_eq!(GenError::MissingSummary.message(), "an operation has no summary");
    assert_eq!(GenError::MissingDescription.message(), "an operation has no description");
    assert_eq!(GenError::TagNotText.message(), "a tag is not a string");
    assert_eq!(
        GenError::StatusNotCode.message(),
        "a response status is neither a string nor a number"
    );
    assert_eq!(GenError::MissingResponseDescription.message(), "a response has no description");
    assert_eq!(
        GenError::MissingTemplate("function.yml".to_string()).message(),
        "template not found: function.yml"
    );
    assert_eq!(GenError::NotSerializable.message(), "a value could not be written as YAML");
}
