//! Folding parsed documents into sections: each level-2 heading opens a section,
//! and the content blocks that follow it are filed under it.
use crate::markup::{Block, Span};
use crate::sections::{
    new_section_map, open_section, position_of, push_to_section, sections_of, with_block,
    with_section, Sections,
};
use indexmap::IndexMap;
use vstd::prelude::*;

verus! {

broadcast use vstd::seq::group_seq_axioms;

/// The title that a level-2 heading with inline content `h` names: its text when
/// the content is exactly one text span, else none.
pub open spec fn section_title(h: Seq<Span>) -> Option<Seq<char>> {
    if h.len() == 1 {
        match h[0] {
            Span::Text(t) => Some(t@),
            _ => None,
        }
    } else {
        None
    }
}

/// Blocks that are filed under the current section.
pub open spec fn is_content(b: Block) -> bool {
    match b {
        Block::Header(_, level) => level > 2,
        Block::Paragraph(_) | Block::CodeBlock(_, _) | Block::OrderedList(_, _)
        | Block::UnorderedList(_) | Block::Blockquote(_) => true,
        _ => false,
    }
}

/// `s` after filing `b` under the current section, if there is one.
pub open spec fn file_under(s: Sections, current: Option<Seq<char>>, b: Block) -> Sections {
    match current {
        Some(t) => with_block(s, t, b),
        None => s,
    }
}

/// The sections after indexing `blocks` from state `current` on top of `s`.
/// A level-2 heading that names no title ends the indexing of the document.
pub open spec fn index_blocks(blocks: Seq<Block>, current: Option<Seq<char>>, s: Sections) -> Sections
    decreases blocks.len(),
{
    if blocks.len() == 0 {
        s
    } else {
        let b = blocks[0];
        let rest = blocks.subrange(1, blocks.len() as int);
        match b {
            Block::Header(h, level) if level == 2 => match section_title(h@) {
                Some(t) => index_blocks(rest, Some(t), with_section(s, t)),
                None => s,
            },
            _ => if is_content(b) {
                index_blocks(rest, current, file_under(s, current, b))
            } else {
                index_blocks(rest, current, s)
            },
        }
    }
}

/// The sections after indexing each document of `docs` in turn on top of `s`.
pub open spec fn index_documents(docs: Seq<Seq<Block>>, s: Sections) -> Sections
    decreases docs.len(),
{
    if docs.len() == 0 {
        s
    } else {
        index_documents(docs.subrange(1, docs.len() as int), index_blocks(docs[0], None, s))
    }
}

pub open spec fn opt_view(o: Option<String>) -> Option<Seq<char>> {
    match o {
        Some(t) => Some(t@),
        None => None,
    }
}

/// Files the blocks of one document into the shared section map.
pub fn create_index(blocks: Vec<Block>, docs_index: &mut IndexMap<String, Vec<Block>>)
    ensures
        sections_of(*final(docs_index)) == index_blocks(blocks@, None, sections_of(*old(docs_index))),
{
    let ghost all = blocks@;
    let mut doc_section: Option<String> = None;
    let mut n: usize = 0;
    proof {
        assert(all.subrange(0, all.len() as int) == all);
    }
    for block in iter: blocks
        invariant
            n == iter.index(),
            all.len() == blocks.len(),
            n <= all.len(),
            iter.seq() == all,
            index_blocks(all, None, sections_of(*old(docs_index))) == index_blocks(
                all.subrange(n as int, all.len() as int),
                opt_view(doc_section),
                sections_of(*docs_index),
            ),
    {
        proof {
            assert(all.subrange(n as int, all.len() as int)[0] == block);
            assert(all.subrange(n as int, all.len() as int).subrange(1, all.len() - n)
                == all.subrange(n + 1, all.len() as int));
        }
        match block {
            Block::Header(h, level) => {
                if level == 2 {
                    let title = if h.len() == 1 {
                        match &h[0] {
                            Span::Text(t) => Some(t.clone()),
                            _ => None,
                        }
                    } else {
                        None
                    };
                    match title {
                        Some(t) => {
                            open_section(docs_index, t.clone());
                            doc_section = Some(t);
                        },
                        None => {
                            return;
                        },
                    }
                } else if level > 2 {
                    if let Some(t) = &doc_section {
                        push_to_section(docs_index, t.clone(), Block::Header(h, level));
                    }
                }
            },
            Block::Paragraph(_) | Block::CodeBlock(_, _) | Block::OrderedList(_, _)
            | Block::UnorderedList(_) | Block::Blockquote(_) => {
                if let Some(t) = &doc_section {
                    push_to_section(docs_index, t.clone(), block);
                }
            },
            _ => {},
        }
        n = n + 1;
    }
    proof {
        assert(all.subrange(n as int, all.len() as int).len() == 0);
    }
}

/// The views of a list of documents.
pub open spec fn documents_view(docs: Seq<Vec<Block>>) -> Seq<Seq<Block>> {
    docs.map_values(|d: Vec<Block>| d@)
}

/// Indexes documents in order into a new section map; a title met again in a
/// later document adds to the section it already names.
pub fn index_documents_in_order(docs: Vec<Vec<Block>>) -> (m: IndexMap<String, Vec<Block>>)
    ensures
        sections_of(m) == index_documents(documents_view(docs@), Seq::empty()),
{
    let ghost all = documents_view(docs@);
    let mut m = new_section_map();
    let mut n: usize = 0;
    proof {
        assert(all.subrange(0, all.len() as int) == all);
    }
    for doc in iter: docs
        invariant
            n == iter.index(),
            documents_view(iter.seq()) == all,
            all.len() == iter.seq().len(),
            all.len() == docs.len(),
            n <= all.len(),
            index_documents(all, Seq::empty()) == index_documents(
                all.subrange(n as int, all.len() as int),
                sections_of(m),
            ),
    {
        proof {
            assert(all.subrange(n as int, all.len() as int)[0] == doc@);
            assert(all.subrange(n as int, all.len() as int).subrange(1, all.len() - n)
                == all.subrange(n + 1, all.len() as int));
        }
        create_index(doc, &mut m);
        n = n + 1;
    }
    proof {
        assert(all.subrange(n as int, all.len() as int).len() == 0);
    }
    m
}

/// With no level-2 heading among the blocks, indexing changes nothing: blocks
/// before any section are dropped.
pub proof fn lemma_no_section_heading_no_change(blocks: Seq<Block>, s: Sections)
    requires
        forall|i: int| 0 <= i < blocks.len() ==> !(#[trigger] blocks[i] matches Block::Header(_, 2)),
    ensures
        index_blocks(blocks, None, s) == s,
    decreases blocks.len(),
{
    if blocks.len() > 0 {
        let rest = blocks.subrange(1, blocks.len() as int);
        assert forall|i: int| 0 <= i < rest.len() implies !(#[trigger] rest[i] matches Block::Header(_, 2)) by {
            assert(rest[i] == blocks[i + 1]);
        }
        assert(!(blocks[0] matches Block::Header(_, 2)));
        lemma_no_section_heading_no_change(rest, s);
    }
}

/// Once a level-2 heading names no title, nothing after it in the document is indexed.
pub proof fn lemma_untitled_heading_ends_document(
    before: Seq<Block>,
    h: Vec<Span>,
    after: Seq<Block>,
    current: Option<Seq<char>>,
    s: Sections,
)
    requires
        section_title(h@) is None,
    ensures
        index_blocks(before + seq![Block::Header(h, 2)] + after, current, s) == index_blocks(
            before + seq![Block::Header(h, 2)],
            current,
            s,
        ),
    decreases before.len(),
{
    let bad = Block::Header(h, 2);
    let full = before + seq![bad] + after;
    let short = before + seq![bad];
    if before.len() == 0 {
        assert(full[0] == bad);
        assert(short[0] == bad);
    } else {
        let tail = before.subrange(1, before.len() as int);
        assert(full[0] == before[0]);
        assert(short[0] == before[0]);
        assert(full.subrange(1, full.len() as int) == tail + seq![bad] + after);
        assert(short.subrange(1, short.len() as int) == tail + seq![bad]);
        let b = before[0];
        match b {
            Block::Header(hh, level) if level == 2 => {
                match section_title(hh@) {
                    Some(t) => lemma_untitled_heading_ends_document(tail, h, after, Some(t), with_section(s, t)),
                    None => {},
                }
            },
            _ => {
                if is_content(b) {
                    lemma_untitled_heading_ends_document(tail, h, after, current, file_under(s, current, b));
                } else {
                    lemma_untitled_heading_ends_document(tail, h, after, current, s);
                }
            },
        }
    }
}

proof fn lemma_position_after_update(s: Sections, t: Seq<char>, x: Seq<Block>)
    requires
        position_of(s, t) >= 0,
    ensures
        position_of(s.update(position_of(s, t), (t, x)), t) == position_of(s, t),
    decreases s.len(),
{
    lemma_position_in_range(s, t);
    let p = position_of(s, t);
    let u = s.update(p, (t, x));
    if s[0].0 != t {
        let tail = s.subrange(1, s.len() as int);
        lemma_position_in_range(tail, t);
        assert(u.subrange(1, u.len() as int) =~= tail.update(p - 1, (t, x)));
        lemma_position_after_update(tail, t, x);
    }
}

proof fn lemma_position_in_range(s: Sections, t: Seq<char>)
    ensures
        -1 <= position_of(s, t) < s.len(),
        position_of(s, t) >= 0 ==> s[position_of(s, t)].0 == t,
    decreases s.len(),
{
    if s.len() > 0 && s[0].0 != t {
        lemma_position_in_range(s.subrange(1, s.len() as int), t);
    }
}

/// Content blocks that follow a section heading all go, in order, to the end of that section.
proof fn lemma_content_goes_to_section(c: Seq<Block>, t: Seq<char>, s: Sections)
    requires
        position_of(s, t) >= 0,
        forall|i: int| 0 <= i < c.len() ==> is_content(#[trigger] c[i]),
    ensures
        index_blocks(c, Some(t), s) == s.update(position_of(s, t), (t, s[position_of(s, t)].1 + c)),
    decreases c.len(),
{
    let p = position_of(s, t);
    lemma_position_in_range(s, t);
    if c.len() == 0 {
        assert(s[p].1 + c == s[p].1);
        assert(s.update(p, (t, s[p].1)) == s);
    } else {
        let rest = c.subrange(1, c.len() as int);
        assert(is_content(c[0]));
        assert(!(c[0] matches Block::Header(_, 2)));
        let s1 = with_block(s, t, c[0]);
        assert(s1 == s.update(p, (t, s[p].1.push(c[0]))));
        lemma_position_after_update(s, t, s[p].1.push(c[0]));
        assert forall|i: int| 0 <= i < rest.len() implies is_content(#[trigger] rest[i]) by {
            assert(rest[i] == c[i + 1]);
        }
        lemma_content_goes_to_section(rest, t, s1);
        assert(s[p].1.push(c[0]) + rest == s[p].1 + c);
        assert(s1.update(p, (t, s[p].1 + c)) == s.update(p, (t, s[p].1 + c)));
    }
}

/// Two documents that each open the same section, then hold only content
/// blocks, give one section with the first document's blocks and then the second's.
pub proof fn lemma_same_title_merges_in_order(
    h1: Vec<Span>,
    c1: Seq<Block>,
    h2: Vec<Span>,
    c2: Seq<Block>,
    t: Seq<char>,
)
    requires
        section_title(h1@) == Some(t),
        section_title(h2@) == Some(t),
        forall|i: int| 0 <= i < c1.len() ==> is_content(#[trigger] c1[i]),
        forall|i: int| 0 <= i < c2.len() ==> is_content(#[trigger] c2[i]),
    ensures
        index_documents(
            seq![seq![Block::Header(h1, 2)] + c1, seq![Block::Header(h2, 2)] + c2],
            Seq::empty(),
        ) == seq![(t, c1 + c2)],
{
    let d1 = seq![Block::Header(h1, 2)] + c1;
    let d2 = seq![Block::Header(h2, 2)] + c2;
    let docs = seq![d1, d2];
    assert(d1[0] == Block::Header(h1, 2));
    assert(d1.subrange(1, d1.len() as int) =~= c1);
    assert(d2[0] == Block::Header(h2, 2));
    assert(d2.subrange(1, d2.len() as int) =~= c2);
    let e: Sections = Seq::empty();
    let s0 = with_section(e, t);
    assert(s0 =~= seq![(t, Seq::<Block>::empty())]);
    assert(position_of(s0, t) == 0);
    lemma_content_goes_to_section(c1, t, s0);
    let s1 = index_blocks(d1, None, e);
    assert(Seq::<Block>::empty() + c1 =~= c1);
    assert(s1 =~= seq![(t, c1)]);
    assert(position_of(s1, t) == 0);
    assert(with_section(s1, t) == s1);
    lemma_content_goes_to_section(c2, t, s1);
    let s2 = index_blocks(d2, None, s1);
    assert(s2 =~= seq![(t, c1 + c2)]);
    let tail = docs.subrange(1, 2);
    assert(docs[0] == d1);
    assert(tail[0] == d2);
    assert(tail.subrange(1, 1) =~= Seq::<Seq<Block>>::empty());
    assert(index_documents(tail.subrange(1, 1), s2) == s2);
    assert(index_documents(tail, s1) == s2);
}

} // verus!
