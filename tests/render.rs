use std::collections::hash_map::DefaultHasher;
use std::collections::HashMap;
use std::hash::{Hash, Hasher};

use sych::markup::{Block, ListItem, Span};
use sych::transpiler::{get_html, spans_to_html};

fn text(t: &str) -> Span {
    Span::Text(t.to_string())
}

fn para(t: &str) -> Block {
    Block::Paragraph(vec![text(t)])
}

fn hashed(s: &str) -> u64 {
    let mut hasher = DefaultHasher::new();
    s.to_string().hash(&mut hasher);
    hasher.finish()
}

struct Out {
    html: String,
    script: String,
    targets: Vec<(String, String, String)>,
}

fn render(blocks: &Vec<Block>, uid: usize, ext: &Option<HashMap<String, String>>) -> Out {
    let mut script = String::new();
    let mut targets = Vec::new();
    let html = get_html(blocks, &mut script, uid, ext, &mut targets);
    Out { html, script, targets }
}

#[test]
fn spans_render_each_kind() {
    let spans = vec![
        text("a"),
        Span::Break,
        Span::Code("x < y".to_string()),
        Span::Link("docs".to_string(), "https://e.org".to_string(), None),
        Span::Image("alt".to_string(), "p.png".to_string(), None),
        Span::Emphasis(vec![text("it")]),
        Span::Strong(vec![Span::Emphasis(vec![text("both")])]),
    ];
    assert_eq!(
        spans_to_html(&spans),
        "a<br /><code>x < y</code><a href=\"https://e.org\" target=\"_blank\">docs</a><i>it</i><b><i>both</i></b>"
    );
}

#[test]
fn comment_text_is_hidden() {
    assert_eq!(spans_to_html(&vec![text("<!-- note -->")]), "");
    assert_eq!(spans_to_html(&vec![text("a <!-- b")]), "a <!-- b");
    assert_eq!(spans_to_html(&vec![text("x"), text("<!--y"), text("z")]), "xz");
    assert_eq!(spans_to_html(&vec![]), "");
}

#[test]
fn plain_texts_are_concatenated() {
    let spans = vec![text("one "), text("two")];
    assert_eq!(spans_to_html(&spans), "one two");
    assert_eq!(spans_to_html(&spans), spans_to_html(&spans));
}

#[test]
fn adjacent_paragraphs_get_two_breaks() {
    let out = render(&vec![para("a"), para("b")], 0, &None);
    assert_eq!(out.html, "a<br /><br />b");
}

#[test]
fn paragraph_before_other_block_gets_no_break() {
    let blocks = vec![para("a"), Block::Header(vec![text("h")], 3), para("b")];
    assert_eq!(render(&blocks, 0, &None).html, "a<h4>h</h4>b");
}

#[test]
fn headers_render_at_one_level() {
    let blocks = vec![Block::Header(vec![text("deep")], 6)];
    assert_eq!(render(&blocks, 0, &None).html, "<h4>deep</h4>");
}

#[test]
fn plain_code_blocks_are_preformatted() {
    let blocks = vec![
        Block::CodeBlock(None, "x<y".to_string()),
        Block::CodeBlock(Some("rust".to_string()), "fn f() {}".to_string()),
    ];
    let out = render(&blocks, 0, &None);
    assert_eq!(out.html, "<pre>x<y</pre><pre>fn f() {}</pre>");
    assert_eq!(out.script, "");
    assert!(out.targets.is_empty());
}

#[test]
fn extension_code_block_becomes_placeholder() {
    let mut reg = HashMap::new();
    reg.insert("mermaid".to_string(), "mermaid-loader".to_string());
    let code = "graph\nA-->B\n".to_string();
    let blocks = vec![Block::CodeBlock(Some("mermaid".to_string()), code.clone())];
    let out = render(&blocks, 0, &Some(reg));
    let container = format!("mermaid-{}", hashed(&code));
    assert_eq!(
        out.html,
        format!("<div style='margin: 1em' id='{}'>Loading extension mermaid ...</div>", container)
    );
    assert!(!out.html.contains("<pre>"));
    assert_eq!(
        out.targets,
        vec![("mermaid".to_string(), container, "graphA-->B".to_string())]
    );
    assert_eq!(out.script, "");
}

#[test]
fn unregistered_fence_is_not_an_extension() {
    let mut reg = HashMap::new();
    reg.insert("mermaid".to_string(), "m".to_string());
    let blocks = vec![Block::CodeBlock(Some("plot".to_string()), "p".to_string())];
    let out = render(&blocks, 0, &Some(reg));
    assert_eq!(out.html, "<pre>p</pre>");
    assert!(out.targets.is_empty());
}

#[test]
fn dot_block_defers_to_diagram_script() {
    let blocks = vec![Block::CodeBlock(Some("dot".to_string()), "A->B;".to_string())];
    let out = render(&blocks, 2, &None);
    let viz = format!("viz-{}", hashed("A->B;--2--"));
    assert_eq!(out.html, format!("<div id='{}'>Loading...</div>", viz));
    assert_eq!(out.script, format!("draw_into_element(`A->B;`, '{}');\n\n    ", viz));
    assert!(out.script.contains("A->B;"));
    assert!(out.targets.is_empty());
    let again = render(&blocks, 2, &None);
    assert_eq!(again.html, out.html);
    assert_eq!(again.script, out.script);
    let elsewhere = render(&blocks, 3, &None);
    assert_ne!(elsewhere.html, out.html);
}

#[test]
fn lists_and_quotes_nest() {
    let blocks = vec![
        Block::OrderedList(
            vec![ListItem::Simple(vec![text("a")]), ListItem::Paragraph(vec![para("b"), para("c")])],
            "1".to_string(),
        ),
        Block::UnorderedList(vec![ListItem::Simple(vec![text("u")])]),
        Block::Blockquote(vec![para("q")]),
        Block::Raw("<hr>".to_string()),
        Block::Hr,
    ];
    assert_eq!(
        render(&blocks, 0, &None).html,
        "<ol><li>a</li><li>b<br /><br />c</li></ol><ul><li>u</li></ul><div class=\"bq\">q</div>"
    );
}

#[test]
fn nested_dot_block_reaches_script() {
    let blocks = vec![Block::Blockquote(vec![Block::CodeBlock(
        Some("dot".to_string()),
        "x;".to_string(),
    )])];
    let out = render(&blocks, 0, &None);
    let viz = format!("viz-{}", hashed("x;--0--"));
    assert_eq!(out.html, format!("<div class=\"bq\"><div id='{}'>Loading...</div></div>", viz));
    assert_eq!(out.script, format!("draw_into_element(`x;`, '{}');\n\n    ", viz));
}
