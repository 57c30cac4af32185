//! Rendering of the markup tree to HTML fragments, and assembly of the page model.
use crate::config::SychConfig;
use crate::markup::{Block, ListItem, Span};
use crate::sections::{section_at, section_count, sections_of, Sections};
use indexmap::IndexMap;
use crate::text::{lemma_remove_char, decimal, decimal_string, fingerprint, get_hashed_id, is_prefix, replace_all, replaced, starts_with};
use std::collections::HashMap;
use vstd::prelude::*;

verus! {

broadcast use vstd::seq::group_seq_axioms, vstd::std_specs::vec::group_vec_axioms;

/// A text span that starts like an HTML comment is not shown.
pub open spec fn is_hidden_text(t: Seq<char>) -> bool {
    is_prefix("<!--"@, t)
}

/// The HTML of a sequence of inline nodes.
pub open spec fn spans_html(ss: Seq<Span>) -> Seq<char>
    decreases ss,
{
    if ss.len() == 0 {
        Seq::empty()
    } else {
        let last = ss[ss.len() - 1];
        let piece = match last {
            Span::Break => "<br />"@,
            Span::Text(t) => if is_hidden_text(t@) { Seq::empty() } else { t@ },
            Span::Code(c) => "<code>"@ + c@ + "</code>"@,
            Span::Link(text, href, _) => "<a href=\""@ + href@ + "\" target=\"_blank\">"@ + text@ + "</a>"@,
            Span::Image(_, _, _) => Seq::empty(),
            Span::Emphasis(inner) => "<i>"@ + spans_html(inner@) + "</i>"@,
            Span::Strong(inner) => "<b>"@ + spans_html(inner@) + "</b>"@,
        };
        spans_html(ss.subrange(0, ss.len() - 1)) + piece
    }
}

/// Renders inline nodes to HTML; no text is escaped.
pub fn spans_to_html(spans: &Vec<Span>) -> (r: String)
    ensures
        r@ == spans_html(spans@),
    decreases spans,
{
    let mut html = String::new();
    let mut i: usize = 0;
    while i < spans.len()
        invariant
            i <= spans.len(),
            html@ == spans_html(spans@.subrange(0, i as int)),
        decreases spans.len() - i,
    {
        proof {
            assert(spans@.subrange(0, i + 1).subrange(0, i as int) == spans@.subrange(0, i as int));
        }
        match &spans[i] {
            Span::Break => {
                html.append("<br />");
            },
            Span::Text(t) => {
                if !starts_with(t.as_str(), "<!--") {
                    html.append(t.as_str());
                }
            },
            Span::Code(c) => {
                html.append("<code>");
                html.append(c.as_str());
                html.append("</code>");
            },
            Span::Link(text, href, _) => {
                html.append("<a href=\"");
                html.append(href.as_str());
                html.append("\" target=\"_blank\">");
                html.append(text.as_str());
                html.append("</a>");
            },
            Span::Image(_, _, _) => {},
            Span::Emphasis(inner) => {
                let inner_html = spans_to_html(inner);
                html.append("<i>");
                html.append(inner_html.as_str());
                html.append("</i>");
            },
            Span::Strong(inner) => {
                let inner_html = spans_to_html(inner);
                html.append("<b>");
                html.append(inner_html.as_str());
                html.append("</b>");
            },
        }
        proof {
            assert(html@ == spans_html(spans@.subrange(0, i + 1)));
        }
        i = i + 1;
    }
    proof {
        assert(spans@.subrange(0, spans.len() as int) == spans@);
    }
    html
}

/// A deferred rendering instruction: extension name, container id, payload.
pub type Target = (Seq<char>, Seq<char>, Seq<char>);

/// The three outputs of rendering: HTML, script text, render targets.
pub struct Rendered {
    pub html: Seq<char>,
    pub script: Seq<char>,
    pub targets: Seq<Target>,
}

impl Rendered {
    pub open spec fn empty() -> Rendered {
        Rendered { html: Seq::empty(), script: Seq::empty(), targets: Seq::empty() }
    }

    pub open spec fn of_html(html: Seq<char>) -> Rendered {
        Rendered { html, script: Seq::empty(), targets: Seq::empty() }
    }

    /// `self` followed by `o`.
    pub open spec fn followed_by(self, o: Rendered) -> Rendered {
        Rendered {
            html: self.html + o.html,
            script: self.script + o.script,
            targets: self.targets + o.targets,
        }
    }

    /// The HTML enclosed by `pre` and `post`.
    pub open spec fn wrap(self, pre: Seq<char>, post: Seq<char>) -> Rendered {
        Rendered { html: pre + self.html + post, script: self.script, targets: self.targets }
    }
}

/// The views of a list of string triples.
pub open spec fn triples_view(v: Seq<(String, String, String)>) -> Seq<Target> {
    v.map_values(|t: (String, String, String)| (t.0@, t.1@, t.2@))
}

/// The extension registry as a map, if there is one.
pub open spec fn registry(ext: Option<HashMap<String, String>>) -> Option<Map<String, String>> {
    match ext {
        Some(m) => Some(m@),
        None => None,
    }
}

pub open spec fn is_extension(reg: Option<Map<String, String>>, name: String) -> bool {
    match reg {
        Some(m) => m.dom().contains(name),
        None => false,
    }
}

/// The id of the placeholder that an extension renders `code` into.
pub open spec fn extension_container(name: Seq<char>, code: Seq<char>) -> Seq<char> {
    name + "-"@ + decimal(fingerprint(code) as nat)
}

/// The id of the placeholder that a diagram of `code` in section `uid` is drawn into.
pub open spec fn diagram_element(code: Seq<char>, uid: nat) -> Seq<char> {
    "viz-"@ + decimal(fingerprint(code + "--"@ + decimal(uid) + "--"@) as nat)
}

/// The statement that draws the diagram `code` into element `viz` once the page loads.
pub open spec fn diagram_script(viz: Seq<char>, code: Seq<char>) -> Seq<char> {
    "draw_into_element(`"@ + code + "`, '"@ + viz + "');\n\n    "@
}

/// Output of a code block: an extension placeholder, a diagram placeholder, or
/// the code verbatim in a `pre` element.
pub open spec fn code_block_out(
    info: Option<String>,
    code: Seq<char>,
    uid: nat,
    reg: Option<Map<String, String>>,
) -> Rendered {
    let pre = Rendered::of_html("<pre>"@ + code + "</pre>"@);
    match info {
        Some(m) => if is_extension(reg, m) {
            let container = extension_container(m@, code);
            Rendered {
                html: "<div style='margin: 1em' id='"@ + container + "'>Loading extension "@ + m@
                    + " ...</div>"@,
                script: Seq::empty(),
                targets: seq![(m@, container, replaced(code, "\n"@, ""@))],
            }
        } else if m@ == "dot"@ {
            let viz = diagram_element(code, uid);
            Rendered {
                html: "<div id='"@ + viz + "'>Loading...</div>"@,
                script: diagram_script(viz, code),
                targets: Seq::empty(),
            }
        } else {
            pre
        },
        None => pre,
    }
}

/// Output of the first `k` blocks of `bs`; a paragraph directly followed by
/// another paragraph gets two line breaks after it.
pub open spec fn blocks_upto(bs: Seq<Block>, k: int, uid: nat, reg: Option<Map<String, String>>) -> Rendered
    decreases bs, k,
{
    if k <= 0 || k > bs.len() {
        Rendered::empty()
    } else {
        let piece = match bs[k - 1] {
            Block::Blockquote(c) => blocks_upto(c@, c@.len() as int, uid, reg).wrap(
                "<div class=\"bq\">"@,
                "</div>"@,
            ),
            Block::Header(h, _) => Rendered::of_html("<h4>"@ + spans_html(h@) + "</h4>"@),
            Block::Paragraph(s) => Rendered::of_html(
                spans_html(s@) + if k < bs.len() && bs[k] is Paragraph {
                    "<br /><br />"@
                } else {
                    Seq::empty()
                },
            ),
            Block::CodeBlock(info, code) => code_block_out(info, code@, uid, reg),
            Block::OrderedList(items, _) => items_upto(items@, items@.len() as int, uid, reg).wrap(
                "<ol>"@,
                "</ol>"@,
            ),
            Block::UnorderedList(items) => items_upto(items@, items@.len() as int, uid, reg).wrap(
                "<ul>"@,
                "</ul>"@,
            ),
            _ => Rendered::empty(),
        };
        blocks_upto(bs, k - 1, uid, reg).followed_by(piece)
    }
}

/// Output of the first `k` list items, each in an `li` element.
pub open spec fn items_upto(items: Seq<ListItem>, k: int, uid: nat, reg: Option<Map<String, String>>) -> Rendered
    decreases items, k,
{
    if k <= 0 || k > items.len() {
        Rendered::empty()
    } else {
        let piece = match items[k - 1] {
            ListItem::Simple(t) => Rendered::of_html("<li>"@ + spans_html(t@) + "</li>"@),
            ListItem::Paragraph(p) => blocks_upto(p@, p@.len() as int, uid, reg).wrap("<li>"@, "</li>"@),
        };
        items_upto(items, k - 1, uid, reg).followed_by(piece)
    }
}

/// Output of a whole block sequence rendered in section `uid`.
pub open spec fn blocks_out(bs: Seq<Block>, uid: nat, reg: Option<Map<String, String>>) -> Rendered {
    blocks_upto(bs, bs.len() as int, uid, reg)
}

proof fn lemma_triples_push(v: Seq<(String, String, String)>, t: (String, String, String))
    ensures
        triples_view(v.push(t)) == triples_view(v).push((t.0@, t.1@, t.2@)),
{
    assert(triples_view(v.push(t)) =~= triples_view(v).push((t.0@, t.1@, t.2@)));
}

/// Relies on `HashMap::contains_key`: whether the registry holds that name.
#[verifier::external_body]
fn is_registered(reg: &HashMap<String, String>, name: &String) -> (r: bool)
    ensures
        r == reg@.dom().contains(*name),
{
    reg.contains_key(name)
}

/// Appends the statement that draws diagram `cblock` into `viz_element`.
fn append_dot_script_block(viz_element: &String, script_content: &mut String, cblock: &str)
    ensures
        final(script_content)@ == old(script_content)@ + diagram_script(viz_element@, cblock@),
{
    script_content.append("draw_into_element(`");
    script_content.append(cblock);
    script_content.append("`, '");
    script_content.append(viz_element.as_str());
    script_content.append("');\n\n    ");
}

/// Renders one code block, adding to the HTML, the script text and the render targets.
fn code_block_to_html(
    html: &mut String,
    script_content: &mut String,
    meta: &Option<String>,
    cblock: &String,
    uid: usize,
    extensions: &Option<HashMap<String, String>>,
    render_targets: &mut Vec<(String, String, String)>,
)
    ensures
        ({
            let out = code_block_out(*meta, cblock@, uid as nat, registry(*extensions));
            &&& final(html)@ == old(html)@ + out.html
            &&& final(script_content)@ == old(script_content)@ + out.script
            &&& triples_view(final(render_targets)@) == triples_view(old(render_targets)@) + out.targets
        }),
{
    let ghost out = code_block_out(*meta, cblock@, uid as nat, registry(*extensions));
    let mut verbatim = true;
    if let Some(m) = meta {
        let known = match extensions {
            Some(reg) => is_registered(reg, m),
            None => false,
        };
        let dot = String::from_str("dot");
        if known {
            let mut container = m.clone();
            container.append("-");
            let hashed = decimal_string(get_hashed_id(cblock.as_str()));
            container.append(hashed.as_str());
            let payload = replace_all(cblock.as_str(), "\n", "");
            html.append("<div style='margin: 1em' id='");
            html.append(container.as_str());
            html.append("'>Loading extension ");
            html.append(m.as_str());
            html.append(" ...</div>");
            let ghost before = render_targets@;
            let target = (m.clone(), container, payload);
            render_targets.push(target);
            proof {
                lemma_triples_push(before, target);
            }
            verbatim = false;
        } else if *m == dot {
            let mut uid_cblock = cblock.clone();
            uid_cblock.append("--");
            let position = decimal_string(uid as u64);
            uid_cblock.append(position.as_str());
            uid_cblock.append("--");
            let mut viz_element = String::from_str("viz-");
            let hashed = decimal_string(get_hashed_id(uid_cblock.as_str()));
            viz_element.append(hashed.as_str());
            html.append("<div id='");
            html.append(viz_element.as_str());
            html.append("'>Loading...</div>");
            append_dot_script_block(&viz_element, script_content, cblock.as_str());
            verbatim = false;
        }
    }
    if verbatim {
        html.append("<pre>");
        html.append(cblock.as_str());
        html.append("</pre>");
    }
    proof {
        assert(html@ =~= old(html)@ + out.html);
        assert(script_content@ =~= old(script_content)@ + out.script);
        assert(triples_view(render_targets@) =~= triples_view(old(render_targets)@) + out.targets);
    }
}

/// Renders blocks of section `uid`, adding to the HTML, the script text and the
/// render targets.
fn blocks_to_html(
    html: &mut String,
    script_content: &mut String,
    blocks: &Vec<Block>,
    uid: usize,
    extensions: &Option<HashMap<String, String>>,
    render_targets: &mut Vec<(String, String, String)>,
)
    ensures
        ({
            let out = blocks_out(blocks@, uid as nat, registry(*extensions));
            &&& final(html)@ == old(html)@ + out.html
            &&& final(script_content)@ == old(script_content)@ + out.script
            &&& triples_view(final(render_targets)@) == triples_view(old(render_targets)@) + out.targets
        }),
    decreases blocks,
{
    let ghost reg = registry(*extensions);
    let ghost bs = blocks@;
    let mut i: usize = 0;
    while i < blocks.len()
        invariant
            i <= blocks.len(),
            bs == blocks@,
            reg == registry(*extensions),
            html@ == old(html)@ + blocks_upto(bs, i as int, uid as nat, reg).html,
            script_content@ == old(script_content)@ + blocks_upto(bs, i as int, uid as nat, reg).script,
            triples_view(render_targets@) == triples_view(old(render_targets)@) + blocks_upto(
                bs,
                i as int,
                uid as nat,
                reg,
            ).targets,
        decreases blocks.len() - i,
    {
        match &blocks[i] {
            Block::Blockquote(bq) => {
                html.append("<div class=\"bq\">");
                blocks_to_html(html, script_content, bq, uid, extensions, render_targets);
                html.append("</div>");
            },
            Block::Header(h, _) => {
                html.append("<h4>");
                let inner = spans_to_html(h);
                html.append(inner.as_str());
                html.append("</h4>");
            },
            Block::Paragraph(spans) => {
                let inner = spans_to_html(spans);
                html.append(inner.as_str());
                if i + 1 < blocks.len() && matches!(blocks[i + 1], Block::Paragraph(_)) {
                    html.append("<br /><br />");
                }
            },
            Block::CodeBlock(meta, cblock) => {
                code_block_to_html(html, script_content, meta, cblock, uid, extensions, render_targets);
            },
            Block::OrderedList(items, _) => {
                html.append("<ol>");
                items_to_html(html, script_content, items, uid, extensions, render_targets);
                html.append("</ol>");
            },
            Block::UnorderedList(items) => {
                html.append("<ul>");
                items_to_html(html, script_content, items, uid, extensions, render_targets);
                html.append("</ul>");
            },
            _ => {},
        }
        proof {
            let next = blocks_upto(bs, i + 1, uid as nat, reg);
            assert(html@ =~= old(html)@ + next.html);
            assert(script_content@ =~= old(script_content)@ + next.script);
            assert(triples_view(render_targets@) =~= triples_view(old(render_targets)@) + next.targets);
        }
        i = i + 1;
    }
}

/// Renders list items, each in an `li` element.
fn items_to_html(
    html: &mut String,
    script_content: &mut String,
    items: &Vec<ListItem>,
    uid: usize,
    extensions: &Option<HashMap<String, String>>,
    render_targets: &mut Vec<(String, String, String)>,
)
    ensures
        ({
            let out = items_upto(items@, items@.len() as int, uid as nat, registry(*extensions));
            &&& final(html)@ == old(html)@ + out.html
            &&& final(script_content)@ == old(script_content)@ + out.script
            &&& triples_view(final(render_targets)@) == triples_view(old(render_targets)@) + out.targets
        }),
    decreases items,
{
    let ghost reg = registry(*extensions);
    let ghost its = items@;
    let mut i: usize = 0;
    while i < items.len()
        invariant
            i <= items.len(),
            its == items@,
            reg == registry(*extensions),
            html@ == old(html)@ + items_upto(its, i as int, uid as nat, reg).html,
            script_content@ == old(script_content)@ + items_upto(its, i as int, uid as nat, reg).script,
            triples_view(render_targets@) == triples_view(old(render_targets)@) + items_upto(
                its,
                i as int,
                uid as nat,
                reg,
            ).targets,
        decreases items.len() - i,
    {
        match &items[i] {
            ListItem::Simple(t) => {
                let inner = spans_to_html(t);
                html.append("<li>");
                html.append(inner.as_str());
                html.append("</li>");
            },
            ListItem::Paragraph(p) => {
                html.append("<li>");
                blocks_to_html(html, script_content, p, uid, extensions, render_targets);
                html.append("</li>");
            },
        }
        proof {
            let next = items_upto(its, i + 1, uid as nat, reg);
            assert(html@ =~= old(html)@ + next.html);
            assert(script_content@ =~= old(script_content)@ + next.script);
            assert(triples_view(render_targets@) =~= triples_view(old(render_targets)@) + next.targets);
        }
        i = i + 1;
    }
}

/// The rendered page model handed to the page template.
pub struct Doc {
    pub version: String,
    pub project: String,
    /// Script text of all sections, in section order.
    pub script_content: String,
    /// Navigation entries: title, section id, `active` for the first section else empty.
    pub titles: Vec<(String, String, String)>,
    /// Section contents: HTML, section id, `true` for the first section else `false`.
    pub contents: Vec<(String, String, String)>,
    pub about: String,
    pub commands: Vec<(String, String)>,
    pub authors: Vec<String>,
    pub extensions: HashMap<String, String>,
    /// Extension name, container id, payload.
    pub render_targets: Vec<(String, String, String)>,
}

/// The DOM id of the section titled `t`.
pub open spec fn section_id(t: Seq<char>) -> Seq<char> {
    decimal(fingerprint(t) as nat)
}

/// The navigation entries of the sections.
pub open spec fn nav_entries(s: Sections) -> Seq<Target> {
    Seq::new(
        s.len(),
        |i: int| (s[i].0, section_id(s[i].0), if i == 0 { "active"@ } else { Seq::empty() }),
    )
}

/// The content entries of the sections; section `i` is rendered with `i` as its position.
pub open spec fn content_entries(s: Sections, reg: Option<Map<String, String>>) -> Seq<Target> {
    Seq::new(
        s.len(),
        |i: int|
            (
                blocks_out(s[i].1, i as nat, reg).html,
                section_id(s[i].0),
                if i == 0 { "true"@ } else { "false"@ },
            ),
    )
}

/// The outputs of the first `k` sections, one after another.
pub open spec fn sections_out(s: Sections, k: int, reg: Option<Map<String, String>>) -> Rendered
    decreases k,
{
    if k <= 0 || k > s.len() {
        Rendered::empty()
    } else {
        sections_out(s, k - 1, reg).followed_by(blocks_out(s[k - 1].1, (k - 1) as nat, reg))
    }
}

/// Renders one section's blocks in position `uid`; the script text and render
/// targets are added to the two accumulators.
pub fn get_html(
    blocks: &Vec<Block>,
    script_content: &mut String,
    uid: usize,
    extensions: &Option<HashMap<String, String>>,
    render_targets: &mut Vec<(String, String, String)>,
) -> (html: String)
    ensures
        ({
            let out = blocks_out(blocks@, uid as nat, registry(*extensions));
            &&& html@ == out.html
            &&& final(script_content)@ == old(script_content)@ + out.script
            &&& triples_view(final(render_targets)@) == triples_view(old(render_targets)@) + out.targets
        }),
{
    let mut html = String::new();
    blocks_to_html(&mut html, script_content, blocks, uid, extensions, render_targets);
    html
}

impl Doc {
    /// Assembles the page model from the configuration and the sections.
    pub fn generate(value: &SychConfig, docs: IndexMap<String, Vec<Block>>) -> (doc: Doc)
        ensures
            doc.version@ == value.meta.version@,
            doc.project@ == value.meta.title@,
            doc.about@ == value.meta.description@,
            doc.authors@ == value.meta.authors@,
            doc.commands@.len() == 0,
            doc.extensions@ == match value.extensions {
                Some(m) => m@,
                None => Map::empty(),
            },
            triples_view(doc.titles@) == nav_entries(sections_of(docs)),
            triples_view(doc.contents@) == content_entries(
                sections_of(docs),
                registry(value.extensions),
            ),
            doc.script_content@ == sections_out(
                sections_of(docs),
                sections_of(docs).len() as int,
                registry(value.extensions),
            ).script,
            triples_view(doc.render_targets@) == sections_out(
                sections_of(docs),
                sections_of(docs).len() as int,
                registry(value.extensions),
            ).targets,
    {
        let ghost secs = sections_of(docs);
        let ghost reg = registry(value.extensions);
        let mut authors: Vec<String> = Vec::new();
        let mut a: usize = 0;
        while a < value.meta.authors.len()
            invariant
                a <= value.meta.authors.len(),
                authors@ == value.meta.authors@.subrange(0, a as int),
            decreases value.meta.authors.len() - a,
        {
            authors.push(value.meta.authors[a].clone());
            proof {
                assert(authors@ =~= value.meta.authors@.subrange(0, a + 1));
            }
            a = a + 1;
        }
        proof {
            assert(authors@ =~= value.meta.authors@);
        }
        let extensions = match &value.extensions {
            Some(m) => m.clone(),
            None => HashMap::new(),
        };
        let mut script_content = String::new();
        let mut titles: Vec<(String, String, String)> = Vec::new();
        let mut contents: Vec<(String, String, String)> = Vec::new();
        let mut render_targets: Vec<(String, String, String)> = Vec::new();
        let n = section_count(&docs);
        let mut i: usize = 0;
        while i < n
            invariant
                n == secs.len(),
                secs == sections_of(docs),
                reg == registry(value.extensions),
                i <= n,
                triples_view(titles@) == nav_entries(secs).subrange(0, i as int),
                triples_view(contents@) == content_entries(secs, reg).subrange(0, i as int),
                script_content@ == sections_out(secs, i as int, reg).script,
                triples_view(render_targets@) == sections_out(secs, i as int, reg).targets,
            decreases n - i,
        {
            let (title, blocks) = section_at(&docs, i);
            let id = decimal_string(get_hashed_id(title.as_str()));
            let active = if i == 0 {
                String::from_str("active")
            } else {
                String::new()
            };
            let ghost t0 = titles@;
            let entry = (title.clone(), id.clone(), active);
            titles.push(entry);
            let mut chunk = String::new();
            let html = get_html(blocks, &mut chunk, i, &value.extensions, &mut render_targets);
            script_content.append(chunk.as_str());
            let shown = if i == 0 {
                String::from_str("true")
            } else {
                String::from_str("false")
            };
            let ghost c0 = contents@;
            let item = (html, id, shown);
            contents.push(item);
            proof {
                lemma_triples_push(t0, entry);
                lemma_triples_push(c0, item);
                assert(triples_view(titles@) =~= nav_entries(secs).subrange(0, i + 1));
                assert(triples_view(contents@) =~= content_entries(secs, reg).subrange(0, i + 1));
            }
            i = i + 1;
        }
        proof {
            assert(nav_entries(secs).subrange(0, n as int) =~= nav_entries(secs));
            assert(content_entries(secs, reg).subrange(0, n as int) =~= content_entries(secs, reg));
        }
        Doc {
            version: value.meta.version.clone(),
            project: value.meta.title.clone(),
            script_content,
            titles,
            contents,
            about: value.meta.description.clone(),
            commands: Vec::new(),
            authors,
            extensions,
            render_targets,
        }
    }
}

/// Rendering inline nodes is compositional: the HTML of two sequences one after
/// the other is the HTML of the first followed by that of the second.
pub proof fn lemma_spans_html_concat(a: Seq<Span>, b: Seq<Span>)
    ensures
        spans_html(a + b) == spans_html(a) + spans_html(b),
    decreases b.len(),
{
    if b.len() == 0 {
        assert(a + b =~= a);
        assert(spans_html(b) =~= Seq::<char>::empty());
        assert(spans_html(a) + spans_html(b) =~= spans_html(a));
    } else {
        let ab = a + b;
        let b0 = b.subrange(0, b.len() - 1);
        assert(ab.subrange(0, ab.len() - 1) =~= a + b0);
        assert(ab[ab.len() - 1] == b[b.len() - 1]);
        lemma_spans_html_concat(a, b0);
    }
}

/// A text span is shown as it is, unless it starts with `<!--`: then it is not shown at all.
pub proof fn lemma_text_span_html(t: String)
    ensures
        spans_html(seq![Span::Text(t)]) == if is_hidden_text(t@) {
            Seq::<char>::empty()
        } else {
            t@
        },
{
    let ss = seq![Span::Text(t)];
    assert(ss.subrange(0, 0) =~= Seq::<Span>::empty());
    assert(spans_html(ss.subrange(0, 0)) =~= Seq::<char>::empty());
    assert(Seq::<char>::empty() + t@ =~= t@);
    assert(Seq::<char>::empty() + Seq::<char>::empty() =~= Seq::<char>::empty());
}

/// Two paragraphs in a row are separated by exactly two line breaks.
pub proof fn lemma_paragraphs_in_a_row(a: Vec<Span>, b: Vec<Span>, uid: nat, reg: Option<Map<String, String>>)
    ensures
        blocks_out(seq![Block::Paragraph(a), Block::Paragraph(b)], uid, reg).html == spans_html(a@)
            + "<br /><br />"@ + spans_html(b@),
{
    let bs = seq![Block::Paragraph(a), Block::Paragraph(b)];
    assert(bs[1] is Paragraph);
    let r1 = blocks_upto(bs, 1, uid, reg);
    let p1 = Rendered::of_html(spans_html(a@) + "<br /><br />"@);
    assert(blocks_upto(bs, 0, uid, reg) == Rendered::empty());
    assert(r1 == Rendered::empty().followed_by(p1));
    assert(r1.html =~= spans_html(a@) + "<br /><br />"@);
    assert(blocks_upto(bs, 2, uid, reg).html =~= spans_html(a@) + "<br /><br />"@ + spans_html(b@));
}

/// A paragraph followed by a block that is not a paragraph gets no line breaks.
pub proof fn lemma_paragraph_then_other(a: Vec<Span>, x: Block, uid: nat, reg: Option<Map<String, String>>)
    requires
        !(x is Paragraph),
    ensures
        blocks_out(seq![Block::Paragraph(a), x], uid, reg).html == spans_html(a@) + blocks_out(
            seq![x],
            uid,
            reg,
        ).html,
{
    let bs = seq![Block::Paragraph(a), x];
    let one = seq![x];
    assert(bs[1] == x);
    assert(one[0] == x);
    let p1 = Rendered::of_html(spans_html(a@) + Seq::<char>::empty());
    assert(blocks_upto(bs, 0, uid, reg) == Rendered::empty());
    assert(blocks_upto(bs, 1, uid, reg) == Rendered::empty().followed_by(p1));
    assert(blocks_upto(bs, 1, uid, reg).html =~= spans_html(a@));
    assert(blocks_upto(one, 0, uid, reg).html =~= Seq::<char>::empty());
    assert(blocks_upto(bs, 2, uid, reg).html =~= spans_html(a@) + blocks_upto(one, 1, uid, reg).html);
}

/// A code block whose fence info names a registered extension becomes a
/// placeholder, never a `pre` element, and hands the extension exactly one
/// render target: the code without its line feeds.
pub proof fn lemma_extension_code_block(m: String, code: String, uid: nat, reg: Option<Map<String, String>>)
    requires
        is_extension(reg, m),
    ensures
        ({
            let out = blocks_out(seq![Block::CodeBlock(Some(m), code)], uid, reg);
            let container = extension_container(m@, code@);
            &&& out.html == "<div style='margin: 1em' id='"@ + container + "'>Loading extension "@ + m@
                + " ...</div>"@
            &&& out.script.len() == 0
            &&& out.targets == seq![(m@, container, replaced(code@, "\n"@, ""@))]
            &&& out.targets[0].2 == code@.filter(|c: char| c != '\n')
        }),
{
    reveal_strlit("\n");
    reveal_strlit("");
    lemma_remove_char(code@, '\n');
    assert("\n"@ =~= seq!['\n']);
    assert(""@ =~= Seq::<char>::empty());
    let bs = seq![Block::CodeBlock(Some(m), code)];
    assert(bs[0] == Block::CodeBlock(Some(m), code));
    let out = blocks_out(bs, uid, reg);
    let piece = code_block_out(Some(m), code@, uid, reg);
    assert(blocks_upto(bs, 0, uid, reg) == Rendered::empty());
    assert(out == Rendered::empty().followed_by(piece));
    assert(Seq::<char>::empty() + piece.html =~= piece.html);
    assert(Seq::<char>::empty() + piece.script =~= piece.script);
    assert(Seq::<Target>::empty() + piece.targets =~= piece.targets);
    assert(out.html =~= piece.html);
    assert(out.script =~= piece.script);
    assert(out.targets =~= piece.targets);
}

/// A `dot` code block becomes a placeholder whose id comes from the code and the
/// section position, and a statement that draws the code into it; equal inputs
/// give equal ids.
pub proof fn lemma_dot_code_block(m: String, code: String, uid: nat, reg: Option<Map<String, String>>)
    requires
        m@ == "dot"@,
        !is_extension(reg, m),
    ensures
        ({
            let out = blocks_out(seq![Block::CodeBlock(Some(m), code)], uid, reg);
            let viz = diagram_element(code@, uid);
            &&& viz == "viz-"@ + decimal(fingerprint(code@ + "--"@ + decimal(uid) + "--"@) as nat)
            &&& out.html == "<div id='"@ + viz + "'>Loading...</div>"@
            &&& out.script == diagram_script(viz, code@)
            &&& out.targets.len() == 0
        }),
{
    let bs = seq![Block::CodeBlock(Some(m), code)];
    assert(bs[0] == Block::CodeBlock(Some(m), code));
    let out = blocks_out(bs, uid, reg);
    let piece = code_block_out(Some(m), code@, uid, reg);
    assert(blocks_upto(bs, 0, uid, reg) == Rendered::empty());
    assert(out == Rendered::empty().followed_by(piece));
    assert(Seq::<char>::empty() + piece.html =~= piece.html);
    assert(Seq::<char>::empty() + piece.script =~= piece.script);
    assert(Seq::<Target>::empty() + piece.targets =~= piece.targets);
    assert(out.html =~= piece.html);
    assert(out.script =~= piece.script);
    assert(out.targets =~= piece.targets);
}

} // verus!
