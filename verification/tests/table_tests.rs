use docgen::resolver::type_to_slug;
use docgen::table::Table;
use docgen::text::{dashes, dec_string, expand_newlines, pad, str_eq, str_lex_lt};

fn strings(items: &[&str]) -> Vec<String> {
    items.iter().map(|s| s.to_string()).collect()
}

#[test]
fn table_renders_exact_fixed_width_text() {
    let t = Table::new(
        "Parameters:".to_string(),
        strings(&["Name", "Type"]),
        vec![strings(&["a", "Number"]), strings(&["bb", "nil"])],
    );
    let expected = "**Parameters:**\n\
| Name | Type   |\n\
|------|--------|\n\
| a    | Number |\n\
| bb   | nil    |";
    assert_eq!(t.render(), expected);
}

#[test]
fn table_rows_share_one_printed_width_per_column() {
    let t = Table::new(
        "T:".to_string(),
        strings(&["Name", "Type", "Description", "Default"]),
        vec![
            strings(&["alpha", "<code>[Number](#)</code>", "-", "-"]),
            strings(&["b", "x", "-", "-"]),
        ],
    );
    let text = t.render();
    let lines: Vec<&str> = text.lines().collect();
    let header = lines[1];
    let separator = lines[2];
    assert_eq!(header.chars().count(), separator.chars().count());
    for row in &lines[3..] {
        assert_eq!(header.chars().count(), row.chars().count());
    }
    let header_cols: Vec<&str> = header.split('|').collect();
    let sep_cols: Vec<&str> = separator.split('|').collect();
    assert_eq!(header_cols.len(), sep_cols.len());
    for (h, s) in header_cols.iter().zip(sep_cols.iter()) {
        assert_eq!(h.chars().count(), s.chars().count());
        assert!(s.chars().all(|c| c == '-'));
    }
}

#[test]
fn column_width_follows_widest_cell() {
    let t = Table::new(
        "T:".to_string(),
        strings(&["H"]),
        vec![strings(&["wide-cell-entry"])],
    );
    let text = t.render();
    let lines: Vec<&str> = text.lines().collect();
    assert_eq!(lines[1], "| H               |");
    assert_eq!(lines[2], "|-----------------|");
    assert_eq!(lines[3], "| wide-cell-entry |");
}

#[test]
fn resolver_maps_known_types_to_destinations() {
    assert_eq!(type_to_slug("Action"), "/globals/Action-Wheel/Action");
    assert_eq!(type_to_slug("Vertex"), "/globals/Models/Vertex");
    assert_eq!(type_to_slug("HostAPI"), "/globals/Host");
    assert_eq!(type_to_slug("ModelPart"), "/globals/Models");
    assert_eq!(type_to_slug("java.util.Objects"), "#");
}

#[test]
fn resolver_maps_primitives_and_unknowns_to_placeholder() {
    assert_eq!(type_to_slug("Boolean"), "#");
    assert_eq!(type_to_slug("nil"), "#");
    assert_eq!(type_to_slug("AnyType"), "#");
    assert_eq!(type_to_slug("SomethingNeverDocumented"), "#");
    assert_eq!(type_to_slug(""), "#");
}

#[test]
fn pad_extends_to_width_and_keeps_wide_text() {
    assert_eq!(pad("x", 4), "x   ");
    assert_eq!(pad("wide", 2), "wide");
    assert_eq!(pad("", 3), "   ");
}

#[test]
fn dashes_build_exact_runs() {
    assert_eq!(dashes(0), "");
    assert_eq!(dashes(5), "-----");
}

#[test]
fn dec_string_renders_decimal() {
    assert_eq!(dec_string(0), "0");
    assert_eq!(dec_string(7), "7");
    assert_eq!(dec_string(12), "12");
    assert_eq!(dec_string(230), "230");
}

#[test]
fn expand_newlines_doubles_each_break() {
    assert_eq!(expand_newlines("a\nb"), "a\n\nb");
    assert_eq!(expand_newlines("\n"), "\n\n");
    assert_eq!(expand_newlines("plain"), "plain");
    assert_eq!(expand_newlines(""), "");
}

#[test]
fn str_helpers_compare_by_content() {
    assert!(str_eq("abc", "abc"));
    assert!(!str_eq("abc", "abd"));
    assert!(str_lex_lt("abc", "abd"));
    assert!(str_lex_lt("ab", "abc"));
    assert!(!str_lex_lt("abc", "abc"));
    assert!(str_lex_lt("Z", "a"));
}
