use std::collections::hash_map::DefaultHasher;
use std::collections::HashMap;
use std::hash::{Hash, Hasher};

use indexmap::IndexMap;
use sych::config::{Meta, SychConfig};
use sych::indexer::{create_index, index_documents_in_order};
use sych::markup::{Block, Span};
use sych::transpiler::Doc;

fn text(t: &str) -> Span {
    Span::Text(t.to_string())
}

fn para(t: &str) -> Block {
    Block::Paragraph(vec![text(t)])
}

fn h(level: usize, t: &str) -> Block {
    Block::Header(vec![text(t)], level)
}

fn hashed(s: &str) -> String {
    let mut hasher = DefaultHasher::new();
    s.to_string().hash(&mut hasher);
    hasher.finish().to_string()
}

fn config(extensions: Option<HashMap<String, String>>) -> SychConfig {
    SychConfig {
        meta: Meta {
            title: "proj".to_string(),
            authors: vec!["ann".to_string(), "bo".to_string()],
            version: "1.2.0".to_string(),
            description: "about it".to_string(),
        },
        doc: None,
        refs: None,
        extensions,
    }
}

#[test]
fn no_section_heading_leaves_map_empty() {
    let mut m: IndexMap<String, Vec<Block>> = IndexMap::new();
    create_index(vec![h(1, "Title"), para("a"), h(3, "sub"), Block::CodeBlock(None, "c".to_string())], &mut m);
    assert!(m.is_empty());
}

#[test]
fn same_title_in_two_files_merges_in_order() {
    let m = index_documents_in_order(vec![
        vec![h(2, "Intro"), para("a1"), para("a2")],
        vec![h(2, "Intro"), para("b1")],
    ]);
    assert_eq!(m.len(), 1);
    assert_eq!(m["Intro"], vec![para("a1"), para("a2"), para("b1")]);
}

#[test]
fn header_with_two_spans_stops_the_file() {
    let mut m: IndexMap<String, Vec<Block>> = IndexMap::new();
    create_index(
        vec![
            h(2, "S"),
            para("kept"),
            Block::Header(vec![text("a"), text("b")], 2),
            para("dropped"),
            h(2, "T"),
        ],
        &mut m,
    );
    assert_eq!(m.len(), 1);
    assert_eq!(m["S"], vec![para("kept")]);
}

#[test]
fn header_with_non_text_span_stops_the_file() {
    let mut m: IndexMap<String, Vec<Block>> = IndexMap::new();
    create_index(
        vec![Block::Header(vec![Span::Code("x".to_string())], 2), h(2, "Later"), para("p")],
        &mut m,
    );
    assert!(m.is_empty());
}

#[test]
fn stopped_file_does_not_stop_the_next() {
    let m = index_documents_in_order(vec![
        vec![h(2, "A"), Block::Header(vec![], 2), para("lost")],
        vec![h(2, "B"), para("b")],
    ]);
    let keys: Vec<&String> = m.keys().collect();
    assert_eq!(keys, vec!["A", "B"]);
    assert!(m["A"].is_empty());
    assert_eq!(m["B"], vec![para("b")]);
}

#[test]
fn content_is_filed_under_current_section() {
    let mut m: IndexMap<String, Vec<Block>> = IndexMap::new();
    create_index(
        vec![
            para("before"),
            h(1, "top"),
            h(2, "One"),
            h(1, "ignored"),
            h(3, "three"),
            Block::Raw("raw".to_string()),
            Block::Hr,
            Block::CodeBlock(Some("dot".to_string()), "a;".to_string()),
            h(2, "Two"),
            Block::Blockquote(vec![para("q")]),
        ],
        &mut m,
    );
    let keys: Vec<&String> = m.keys().collect();
    assert_eq!(keys, vec!["One", "Two"]);
    assert_eq!(m["One"], vec![h(3, "three"), Block::CodeBlock(Some("dot".to_string()), "a;".to_string())]);
    assert_eq!(m["Two"], vec![Block::Blockquote(vec![para("q")])]);
}

#[test]
fn existing_section_keeps_its_place() {
    let m = index_documents_in_order(vec![
        vec![h(2, "A"), para("1")],
        vec![h(2, "B"), para("2")],
        vec![h(2, "A"), para("3")],
    ]);
    let keys: Vec<&String> = m.keys().collect();
    assert_eq!(keys, vec!["A", "B"]);
    assert_eq!(m["A"], vec![para("1"), para("3")]);
}

#[test]
fn two_files_end_to_end() {
    let m = index_documents_in_order(vec![
        vec![h(2, "Intro"), para("Hello")],
        vec![h(2, "Intro"), para("World")],
    ]);
    let doc = Doc::generate(&config(None), m);
    let id = hashed("Intro");
    assert_eq!(doc.titles, vec![("Intro".to_string(), id.clone(), "active".to_string())]);
    assert_eq!(doc.contents.len(), 1);
    assert_eq!(doc.contents[0], ("Hello<br /><br />World".to_string(), id, "true".to_string()));
    assert_eq!(doc.script_content, "");
    assert!(doc.render_targets.is_empty());
}

#[test]
fn generate_copies_metadata_and_marks_first_active() {
    let mut reg = HashMap::new();
    reg.insert("chart".to_string(), "chart-id".to_string());
    let m = index_documents_in_order(vec![vec![
        h(2, "First"),
        para("f"),
        h(2, "Second"),
        Block::CodeBlock(Some("dot".to_string()), "A->B;".to_string()),
        h(2, "Third"),
        Block::CodeBlock(Some("dot".to_string()), "A->B;".to_string()),
        Block::CodeBlock(Some("chart".to_string()), "1\n2".to_string()),
    ]]);
    let doc = Doc::generate(&config(Some(reg.clone())), m);
    assert_eq!(doc.project, "proj");
    assert_eq!(doc.version, "1.2.0");
    assert_eq!(doc.about, "about it");
    assert_eq!(doc.authors, vec!["ann".to_string(), "bo".to_string()]);
    assert!(doc.commands.is_empty());
    assert_eq!(doc.extensions, reg);
    let flags: Vec<&str> = doc.titles.iter().map(|t| t.2.as_str()).collect();
    assert_eq!(flags, vec!["active", "", ""]);
    let shown: Vec<&str> = doc.contents.iter().map(|c| c.2.as_str()).collect();
    assert_eq!(shown, vec!["true", "false", "false"]);
    for (t, c) in doc.titles.iter().zip(doc.contents.iter()) {
        assert_eq!(t.1, hashed(&t.0));
        assert_eq!(t.1, c.1);
    }
    let viz1 = format!("viz-{}", hashed("A->B;--1--"));
    let viz2 = format!("viz-{}", hashed("A->B;--2--"));
    assert_eq!(doc.contents[1].0, format!("<div id='{}'>Loading...</div>", viz1));
    assert_eq!(
        doc.script_content,
        format!(
            "draw_into_element(`A->B;`, '{}');\n\n    draw_into_element(`A->B;`, '{}');\n\n    ",
            viz1, viz2
        )
    );
    let container = format!("chart-{}", hashed("1\n2"));
    assert_eq!(doc.render_targets, vec![("chart".to_string(), container, "12".to_string())]);
}

#[test]
fn generate_without_sections_is_empty() {
    let doc = Doc::generate(&config(None), IndexMap::new());
    assert!(doc.titles.is_empty());
    assert!(doc.contents.is_empty());
    assert!(doc.extensions.is_empty());
    assert_eq!(doc.script_content, "");
}
