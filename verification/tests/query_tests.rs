use docgen::model::{Class, Docs, Field, Method, Overload, Parameter};
use docgen::query::{get_pages, get_types, unique};

fn class_named(name: &str) -> Class {
    Class {
        name: name.to_string(),
        description: String::new(),
        methods: Vec::new(),
        fields: Vec::new(),
    }
}

fn field_with(name: &str, type_tag: &str, children: Vec<Class>) -> Field {
    Field {
        name: name.to_string(),
        description: String::new(),
        type_tag: type_tag.to_string(),
        editable: false,
        children,
    }
}

fn typed_method(name: &str, param_types: Vec<&str>, returns: Vec<&str>) -> Method {
    Method {
        aliases: Vec::new(),
        description: String::new(),
        name: name.to_string(),
        parameters: vec![Overload(
            param_types
                .into_iter()
                .enumerate()
                .map(|(i, t)| Parameter { name: format!("p{i}"), type_tag: t.to_string() })
                .collect(),
        )],
        returns: returns.into_iter().map(|s| s.to_string()).collect(),
        is_static: false,
    }
}

fn docs_with_fields(fields: Vec<Field>) -> Docs {
    Docs {
        globals: Class {
            name: "globals".to_string(),
            description: String::new(),
            methods: Vec::new(),
            fields,
        },
        math: class_named("math"),
    }
}

#[test]
fn utils_scenario_list_pages() {
    let docs = docs_with_fields(vec![field_with(
        "Utils",
        "Namespace",
        vec![class_named("Utils")],
    )]);
    assert_eq!(get_pages(&docs), vec!["Utils".to_string()]);
}

#[test]
fn function_field_excluded_from_pages_and_types() {
    let mut hidden = class_named("Hidden");
    hidden.methods.push(typed_method("h", vec!["Vertex"], vec!["Biome"]));
    let mut shown = class_named("Shown");
    shown.methods.push(typed_method("s", vec!["Number"], vec!["String"]));
    let docs = docs_with_fields(vec![
        field_with("helper", "Function", vec![hidden]),
        field_with("Shown", "Namespace", vec![shown]),
    ]);
    assert_eq!(get_pages(&docs), vec!["Shown".to_string()]);
    let types = get_types(&docs);
    assert_eq!(types, vec!["Number".to_string(), "String".to_string()]);
    assert!(!types.contains(&"Vertex".to_string()));
    assert!(!types.contains(&"Biome".to_string()));
}

#[test]
fn pages_preserve_declaration_order() {
    let docs = docs_with_fields(vec![
        field_with("B", "Namespace", vec![class_named("Beta"), class_named("Alpha")]),
        field_with("A", "Namespace", vec![class_named("Gamma")]),
    ]);
    assert_eq!(
        get_pages(&docs),
        vec!["Beta".to_string(), "Alpha".to_string(), "Gamma".to_string()]
    );
}

#[test]
fn types_are_sorted_and_deduplicated() {
    let mut c = class_named("C");
    c.methods.push(typed_method("a", vec!["String", "Number"], vec!["Number"]));
    c.methods.push(typed_method("b", vec!["Biome"], vec!["String"]));
    let docs = docs_with_fields(vec![field_with("F", "Namespace", vec![c])]);
    let types = get_types(&docs);
    assert_eq!(
        types,
        vec!["Biome".to_string(), "Number".to_string(), "String".to_string()]
    );
    let again = get_types(&docs);
    assert_eq!(types, again);
}

#[test]
fn all_types_keeps_traversal_order_and_duplicates() {
    let mut c = class_named("C");
    c.methods.push(typed_method("a", vec!["String"], vec!["Number", "Number"]));
    let collected = c.all_types();
    assert_eq!(
        collected,
        vec!["Number".to_string(), "Number".to_string(), "String".to_string()]
    );
}

#[test]
fn unique_sorts_by_code_point_and_drops_duplicates() {
    let input = vec![
        "b".to_string(),
        "a".to_string(),
        "b".to_string(),
        "Z".to_string(),
        "ab".to_string(),
        "a".to_string(),
    ];
    let out = unique(input);
    assert_eq!(
        out,
        vec!["Z".to_string(), "a".to_string(), "ab".to_string(), "b".to_string()]
    );
}

#[test]
fn unique_of_empty_is_empty() {
    let out = unique(Vec::new());
    assert_eq!(out.len(), 0);
}

#[test]
fn find_page_resolves_reserved_math_name() {
    let docs = docs_with_fields(vec![field_with(
        "Utils",
        "Namespace",
        vec![class_named("Utils")],
    )]);
    let page = docs.find_page("math").unwrap();
    assert_eq!(page.name, "math");
}

#[test]
fn find_page_is_case_sensitive() {
    let docs = docs_with_fields(vec![field_with(
        "Utils",
        "Namespace",
        vec![class_named("Utils")],
    )]);
    assert!(docs.find_page("Utils").is_some());
    assert!(docs.find_page("utils").is_none());
}

#[test]
fn find_page_skips_function_fields() {
    let docs = docs_with_fields(vec![field_with(
        "helper",
        "Function",
        vec![class_named("Hidden")],
    )]);
    assert!(docs.find_page("Hidden").is_none());
}
