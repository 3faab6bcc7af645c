use md_confluence::model::{Block, ListItem, Span};
use md_confluence::render::{
    format_blockquote, format_codeblock, format_header, format_ordered_list, format_paragraph,
    format_spans, format_unordered_list, to_confluence,
};

fn text(s: &str) -> Span {
    Span::Text(s.to_string())
}

#[test]
fn paragraph_renders_its_text() {
    let doc = vec![Block::Paragraph(vec![text("hello")])];
    assert_eq!(to_confluence(&doc), "hello\n");
}

#[test]
fn header_renders_level_and_text() {
    let doc = vec![Block::Header(vec![text("Title")], 2)];
    assert_eq!(to_confluence(&doc), "h2. Title\n");
}

#[test]
fn header_level_is_not_checked() {
    let doc = vec![Block::Header(vec![text("Zero")], 0)];
    assert_eq!(to_confluence(&doc), "h0. Zero\n");
    assert_eq!(format_header(&[text("x")], 123), "h123. x\n");
}

#[test]
fn blockquote_is_wrapped_in_noformat() {
    let doc = vec![Block::Blockquote(vec![Block::Paragraph(vec![text("q")])])];
    let out = to_confluence(&doc);
    assert_eq!(out, "{noformat}\nq\n\n{noformat}\n");
    assert!(out.contains("q\n"));
    assert_eq!(
        format_blockquote(&[Block::Paragraph(vec![text("q")])]),
        "{noformat}\nq\n\n{noformat}\n"
    );
}

#[test]
fn unordered_list_keeps_item_order() {
    let doc = vec![Block::UnorderedList(vec![
        ListItem::Simple(vec![text("a")]),
        ListItem::Simple(vec![text("b")]),
    ])];
    assert_eq!(to_confluence(&doc), "- a\n- b\n");
}

#[test]
fn ordered_list_numbers_from_one() {
    let items = vec![
        ListItem::Simple(vec![text("a")]),
        ListItem::Simple(vec![text("b")]),
        ListItem::Simple(vec![text("c")]),
    ];
    assert_eq!(format_ordered_list(&items), "1. a\n2. b\n3. c\n");
    let doc = vec![Block::OrderedList(items)];
    assert_eq!(to_confluence(&doc), "1. a\n2. b\n3. c\n");
}

#[test]
fn ordered_list_markers_past_nine() {
    let items: Vec<ListItem> = (0..11).map(|_| ListItem::Simple(vec![text("x")])).collect();
    let out = format_ordered_list(&items);
    assert!(out.ends_with("10. x\n11. x\n"));
}

#[test]
fn list_item_with_blocks_is_rendered_in_full() {
    let items = vec![ListItem::Paragraph(vec![
        Block::Paragraph(vec![text("one")]),
        Block::Paragraph(vec![text("two")]),
    ])];
    assert_eq!(format_unordered_list(&items), "- one\ntwo\n\n");
}

#[test]
fn codeblock_is_verbatim_without_language() {
    let doc = vec![Block::CodeBlock("rust".to_string(), "a < b && c".to_string())];
    assert_eq!(to_confluence(&doc), "a < b && c\n");
    assert_eq!(format_codeblock("x"), "x\n");
}

#[test]
fn raw_and_rule() {
    let doc = vec![
        Block::Raw("<div>".to_string()),
        Block::Hr,
        Block::Paragraph(vec![text("p")]),
    ];
    assert_eq!(to_confluence(&doc), "<div><hr>p\n");
}

#[test]
fn empty_document_is_one_newline() {
    let doc: Vec<Block> = Vec::new();
    assert_eq!(to_confluence(&doc), "\n");
    let blank = vec![Block::Raw("  \n\t ".to_string())];
    assert_eq!(to_confluence(&blank), "\n");
}

#[test]
fn surrounding_whitespace_is_trimmed() {
    let doc = vec![
        Block::Raw("\n  ".to_string()),
        Block::Paragraph(vec![text("x  ")]),
        Block::Raw("\n\n".to_string()),
    ];
    assert_eq!(to_confluence(&doc), "x\n");
}

#[test]
fn output_ends_in_exactly_one_newline() {
    let docs = vec![
        vec![Block::Paragraph(vec![text("a"), Span::Break])],
        vec![Block::CodeBlock(String::new(), "x\n\n".to_string())],
        vec![Block::Hr],
    ];
    for doc in docs {
        let out = to_confluence(&doc);
        assert!(out.ends_with('\n'));
        let body = &out[..out.len() - 1];
        assert_eq!(body, body.trim_end());
    }
}

#[test]
fn rendering_twice_gives_the_same_text() {
    let make = || {
        vec![
            Block::Header(vec![text("T")], 1),
            Block::Blockquote(vec![Block::Paragraph(vec![text("q")])]),
        ]
    };
    let doc = make();
    let copy = make();
    let first = to_confluence(&doc);
    let second = to_confluence(&doc);
    assert_eq!(first, second);
    assert_eq!(doc, copy);
}

#[test]
fn text_spans_are_escaped() {
    assert_eq!(format_spans(&[text("a<b>&\"'")]), "a&lt;b&gt;&amp;&quot;&#8217;");
    assert_eq!(format_paragraph(&[text("x & y")]), "x &amp; y\n");
}

#[test]
fn inline_spans() {
    assert_eq!(format_spans(&[Span::Code("a<b".to_string())]), "{code}a<b{code}");
    assert_eq!(
        format_spans(&[Span::Link("t".to_string(), "u".to_string(), None)]),
        "[t|u]"
    );
    assert_eq!(
        format_spans(&[Span::Link("t".to_string(), "u".to_string(), Some("tip".to_string()))]),
        "[t|u|tip]"
    );
    assert_eq!(
        format_spans(&[Span::Image("alt".to_string(), "u".to_string(), None)]),
        "!u|alt=alt!"
    );
    assert_eq!(
        format_spans(&[Span::Image("alt".to_string(), "u".to_string(), Some("ti".to_string()))]),
        "!u|title=ti,alt=alt!"
    );
    assert_eq!(format_spans(&[Span::Break]), "\n");
}

#[test]
fn nested_inline_spans() {
    let spans = vec![
        text("a "),
        Span::Emphasis(vec![text("b")]),
        Span::Strong(vec![text("c"), Span::Emphasis(vec![text("d")])]),
        Span::Strikethrough(vec![text("e")]),
    ];
    assert_eq!(format_spans(&spans), "a _b_*c_d_*-e-");
}

fn nested_doc(depth: usize) -> Vec<Block> {
    if depth == 0 {
        vec![Block::Paragraph(vec![text("q")])]
    } else {
        vec![Block::Blockquote(vec![Block::UnorderedList(vec![ListItem::Paragraph(
            nested_doc(depth - 1),
        )])])]
    }
}

fn nested_expected(depth: usize) -> String {
    if depth == 0 {
        "q\n".to_string()
    } else {
        let list = format!("- {}\n", nested_expected(depth - 1));
        let list = format!("{}\n", list.trim());
        let quote = format!("{{noformat}}\n{}\n{{noformat}}\n", list);
        format!("{}\n", quote.trim())
    }
}

#[test]
fn deep_nesting_keeps_structure() {
    let doc = nested_doc(50);
    let out = to_confluence(&doc);
    assert_eq!(out, nested_expected(50));
    assert_eq!(out.matches("{noformat}").count(), 100);
    assert!(out.starts_with("{noformat}\n- {noformat}\n- "));
    assert!(out.contains("- q\n"));
}
