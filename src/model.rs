//! The document model: blocks, list items and inline spans.
use vstd::prelude::*;

verus! {

/// A document element at paragraph granularity.
#[derive(Debug, PartialEq)]
pub enum Block {
    /// A heading: its content and its level (`# Header` is level 1).
    Header(Vec<Span>, usize),
    /// A run of inline content.
    Paragraph(Vec<Span>),
    /// Quoted content, itself made of blocks.
    Blockquote(Vec<Block>),
    /// Fenced code: a language label, which may be empty, and the literal text.
    CodeBlock(String, String),
    /// A numbered list.
    OrderedList(Vec<ListItem>),
    /// A bulleted list.
    UnorderedList(Vec<ListItem>),
    /// Passthrough content, emitted verbatim.
    Raw(String),
    /// A horizontal rule.
    Hr,
}

/// One entry of a list.
#[derive(Debug, PartialEq)]
pub enum ListItem {
    /// A one-line item.
    Simple(Vec<Span>),
    /// An item holding nested block content.
    Paragraph(Vec<Block>),
}

/// Inline content.
#[derive(Debug, PartialEq)]
pub enum Span {
    /// A forced line break.
    Break,
    /// Plain text.
    Text(String),
    /// An inline literal.
    Code(String),
    /// A link: its text, its url and an optional tool-tip.
    Link(String, String, Option<String>),
    /// An image: its alt text, its url and an optional title.
    Image(String, String, Option<String>),
    /// Emphasised content.
    Emphasis(Vec<Span>),
    /// Strong content.
    Strong(Vec<Span>),
    /// Struck-through content.
    Strikethrough(Vec<Span>),
}

} // verus!
