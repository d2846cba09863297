use docgen::model::{Class, Docs, Field, Method, Overload, Parameter};
use docgen::query::generate;

fn empty_class(name: &str) -> Class {
    Class {
        name: name.to_string(),
        description: String::new(),
        methods: Vec::new(),
        fields: Vec::new(),
    }
}

fn param(name: &str, type_tag: &str) -> Parameter {
    Parameter { name: name.to_string(), type_tag: type_tag.to_string() }
}

fn method(name: &str, desc: &str, overloads: Vec<Vec<Parameter>>, returns: Vec<&str>) -> Method {
    Method {
        aliases: Vec::new(),
        description: desc.to_string(),
        name: name.to_string(),
        parameters: overloads.into_iter().map(Overload).collect(),
        returns: returns.into_iter().map(|s| s.to_string()).collect(),
        is_static: false,
    }
}

fn utils_docs() -> Docs {
    let add = method(
        "add",
        "Adds numbers",
        vec![vec![param("a", "Number")], vec![param("a", "Number"), param("b", "Number")]],
        vec!["Number", "Number"],
    );
    let utils_class = Class {
        name: "Utils".to_string(),
        description: "Utility helpers".to_string(),
        methods: vec![add],
        fields: Vec::new(),
    };
    let utils_field = Field {
        name: "Utils".to_string(),
        description: String::new(),
        type_tag: "Namespace".to_string(),
        editable: false,
        children: vec![utils_class],
    };
    Docs {
        globals: Class {
            name: "globals".to_string(),
            description: String::new(),
            methods: Vec::new(),
            fields: vec![utils_field],
        },
        math: empty_class("math"),
    }
}

#[test]
fn utils_scenario_render_tab_group() {
    let docs = utils_docs();
    let (outs, diags) = generate(&docs, &vec!["Utils".to_string()]);
    assert_eq!(diags.len(), 0);
    assert_eq!(outs.len(), 1);
    let page = &outs[0];
    assert!(page.starts_with("import Tabs from '@theme/Tabs'\nimport TabItem from '@theme/TabItem'\n\n"));
    assert!(page.contains("<Tabs>"));
    assert!(page.contains("</Tabs>"));
    assert!(page.contains("<TabItem value=\"overload-1\" label=\"Overload 1\">"));
    assert!(page.contains("<TabItem value=\"overload-2\" label=\"Overload 2\">"));
    assert!(page.contains("```lua\nadd(a)\n```"));
    assert!(page.contains("```lua\nadd(a, b)\n```"));
    assert!(page.contains("**Returns:**"));
    assert!(page.contains("<code>[Number](#)</code>"));
    let first_tab = page.split("<TabItem value=\"overload-2\"").next().unwrap();
    let one_row = first_tab.matches("\n| a ").count();
    assert_eq!(one_row, 1);
    let second_tab = page.split("<TabItem value=\"overload-2\"").nth(1).unwrap();
    assert!(second_tab.contains("\n| a "));
    assert!(second_tab.contains("\n| b "));
}

#[test]
fn missing_page_reports_diagnostic() {
    let docs = utils_docs();
    let (outs, diags) = generate(&docs, &vec!["Missing".to_string()]);
    assert_eq!(outs.len(), 0);
    assert_eq!(diags, vec!["Page not found: Missing".to_string()]);
}

#[test]
fn missing_page_does_not_stop_remaining_selections() {
    let docs = utils_docs();
    let (outs, diags) = generate(&docs, &vec!["Missing".to_string(), "Utils".to_string()]);
    assert_eq!(outs.len(), 1);
    assert_eq!(diags, vec!["Page not found: Missing".to_string()]);
}

#[test]
fn render_exact_single_overload_page() {
    let get_name = method("getName", "Desc", vec![vec![]], vec!["String"]);
    let host = Class {
        name: "Host".to_string(),
        description: "Hi\nThere".to_string(),
        methods: vec![get_name],
        fields: vec![Field {
            name: "version".to_string(),
            description: "V".to_string(),
            type_tag: "String".to_string(),
            editable: false,
            children: Vec::new(),
        }],
    };
    let text = host.render().unwrap();
    let expected = "Hi\n\nThere\n\n\
## Methods\n\n\
### <code>getName()</code> \\{#getName}\n\n\
Desc\n\n\
```lua\ngetName()\n```\n\n\
**Returns:**\n\
| Type                     | Description |\n\
|--------------------------|-------------|\n\
| <code>[String](#)</code> | -           |\n\n\
**Example:**\n\n\
```lua\n--todo\n```\n\n\
---\n\n\
## Fields\n\n\
### <code>version</code> \\{#version}\n\nV\n\n---";
    assert_eq!(text, expected);
}

#[test]
fn rendering_is_deterministic() {
    let docs = utils_docs();
    let (outs1, diags1) = generate(&docs, &vec!["Utils".to_string()]);
    let (outs2, diags2) = generate(&docs, &vec!["Utils".to_string()]);
    assert_eq!(outs1, outs2);
    assert_eq!(diags1, diags2);
}

#[test]
fn single_overload_method_emits_no_tab_group() {
    let m = method("go", "", vec![vec![param("x", "Number")]], vec!["nil"]);
    let c = Class {
        name: "P".to_string(),
        description: "D".to_string(),
        methods: vec![m],
        fields: Vec::new(),
    };
    let text = c.render().unwrap();
    assert!(!text.contains("import Tabs"));
    assert!(!text.contains("<Tabs>"));
    assert!(!text.contains("<TabItem"));
}

#[test]
fn one_multi_overload_method_gates_page_imports() {
    let single = method("a", "", vec![vec![]], vec!["nil"]);
    let multi = method("b", "", vec![vec![], vec![param("x", "Number")]], vec!["nil", "nil"]);
    let c = Class {
        name: "P".to_string(),
        description: "D".to_string(),
        methods: vec![single, multi],
        fields: Vec::new(),
    };
    let text = c.render().unwrap();
    assert!(text.starts_with("import Tabs from '@theme/Tabs'\nimport TabItem from '@theme/TabItem'\n\n"));
    let single_block = text.split("### <code>b()</code>").next().unwrap();
    assert!(!single_block.contains("<Tabs>"));
    let multi_block = text.split("### <code>b()</code>").nth(1).unwrap();
    assert!(multi_block.contains("<Tabs>"));
    assert!(multi_block.contains("</Tabs>"));
}

#[test]
fn returns_entry_pairs_with_overload_index() {
    let m = method(
        "make",
        "",
        vec![vec![param("n", "Number")], vec![param("s", "String")]],
        vec!["Vertex", "Biome"],
    );
    let text = m.render().unwrap();
    let first = text.split("<TabItem value=\"overload-2\"").next().unwrap();
    let second = text.split("<TabItem value=\"overload-2\"").nth(1).unwrap();
    assert!(first.contains("<code>[Vertex](/globals/Models/Vertex)</code>"));
    assert!(!first.contains("Biome"));
    assert!(second.contains("<code>[Biome](/globals/World/Biome)</code>"));
    assert!(!second.contains("Vertex"));
}

#[test]
fn overload_return_count_mismatch_fails_page() {
    let bad = method("add", "", vec![vec![], vec![param("a", "Number")]], vec!["Number"]);
    let c = Class {
        name: "P".to_string(),
        description: String::new(),
        methods: vec![bad],
        fields: Vec::new(),
    };
    let err = c.render().unwrap_err();
    assert_eq!(err.message(), "Method add: overload and return counts differ");
}

#[test]
fn function_field_with_children_fails_page() {
    let c = Class {
        name: "P".to_string(),
        description: String::new(),
        methods: Vec::new(),
        fields: vec![Field {
            name: "helper".to_string(),
            description: String::new(),
            type_tag: "Function".to_string(),
            editable: false,
            children: vec![empty_class("Hidden")],
        }],
    };
    let err = c.render().unwrap_err();
    assert_eq!(err.message(), "Field helper: a Function field cannot carry documentation pages");
}

#[test]
fn faulty_page_reports_diagnostic_through_generate() {
    let bad = method("add", "", vec![vec![], vec![param("a", "Number")]], vec!["Number"]);
    let broken_class = Class {
        name: "Broken".to_string(),
        description: String::new(),
        methods: vec![bad],
        fields: Vec::new(),
    };
    let docs = Docs {
        globals: Class {
            name: "globals".to_string(),
            description: String::new(),
            methods: Vec::new(),
            fields: vec![Field {
                name: "Broken".to_string(),
                description: String::new(),
                type_tag: "Namespace".to_string(),
                editable: false,
                children: vec![broken_class],
            }],
        },
        math: empty_class("math"),
    };
    let (outs, diags) = generate(&docs, &vec!["Broken".to_string()]);
    assert_eq!(outs.len(), 0);
    assert_eq!(diags, vec!["Method add: overload and return counts differ".to_string()]);
}

#[test]
fn reserved_math_page_renders_through_generate() {
    let docs = utils_docs();
    let (outs, diags) = generate(&docs, &vec!["math".to_string()]);
    assert_eq!(diags.len(), 0);
    assert_eq!(outs, vec!["\n\n## Methods\n\n## Fields".to_string()]);
}

#[test]
fn description_line_breaks_become_paragraph_breaks() {
    let c = Class {
        name: "P".to_string(),
        description: "a\nb\nc".to_string(),
        methods: Vec::new(),
        fields: Vec::new(),
    };
    let text = c.render().unwrap();
    assert!(text.starts_with("a\n\nb\n\nc\n\n## Methods"));
}
