//! The parsed markdown tree that the indexer and the renderer consume.
use vstd::prelude::*;

verus! {

/// An inline node.
#[derive(Debug, PartialEq)]
pub enum Span {
    Break,
    Text(String),
    Code(String),
    /// Display text, target, optional title.
    Link(String, String, Option<String>),
    /// Alternative text, source, optional title.
    Image(String, String, Option<String>),
    Emphasis(Vec<Span>),
    Strong(Vec<Span>),
}

/// One entry of a list.
#[derive(Debug, PartialEq)]
pub enum ListItem {
    Simple(Vec<Span>),
    Paragraph(Vec<Block>),
}

/// A block node.
#[derive(Debug, PartialEq)]
pub enum Block {
    /// Inline content and heading level.
    Header(Vec<Span>, usize),
    Paragraph(Vec<Span>),
    Blockquote(Vec<Block>),
    /// Optional fence info and the raw code.
    CodeBlock(Option<String>, String),
    /// Items and the numbering style (`1`, `a`, `A`, `i` or `I`).
    OrderedList(Vec<ListItem>, String),
    UnorderedList(Vec<ListItem>),
    Raw(String),
    Hr,
}

} // verus!
