//! Rendering of the document model into Confluence wiki markup.
use vstd::prelude::*;
use crate::model::{Block, ListItem, Span};
use crate::text::{decimal, is_ws, lemma_trimmed_end, escape, escape_seq, push_char, push_decimal, trim, trimmed};

verus! {

/// The markup of one inline span.
pub open spec fn span_out(sp: Span) -> Seq<char>
    decreases sp,
{
    match sp {
        Span::Break => seq!['\n'],
        Span::Text(t) => escape_seq(t@),
        Span::Code(t) => "{code}"@ + t@ + "{code}"@,
        Span::Link(t, u, None) => seq!['['] + t@ + seq!['|'] + u@ + seq![']'],
        Span::Link(t, u, Some(tip)) => seq!['['] + t@ + seq!['|'] + u@ + seq!['|'] + tip@ + seq![
            ']',
        ],
        Span::Image(a, u, None) => seq!['!'] + u@ + "|alt="@ + a@ + seq!['!'],
        Span::Image(a, u, Some(title)) => seq!['!'] + u@ + "|title="@ + title@ + ",alt="@ + a@
            + seq!['!'],
        Span::Emphasis(v) => seq!['_'] + spans_out(v@) + seq!['_'],
        Span::Strong(v) => seq!['*'] + spans_out(v@) + seq!['*'],
        Span::Strikethrough(v) => seq!['-'] + spans_out(v@) + seq!['-'],
    }
}

/// The markup of a sequence of spans: each span's markup, with no separator.
pub open spec fn spans_out(s: Seq<Span>) -> Seq<char>
    decreases s,
{
    if s.len() == 0 {
        Seq::empty()
    } else {
        spans_out(s.drop_last()) + span_out(s.last())
    }
}

/// The marker in front of the `n`-th item (counting from one) of a list.
pub open spec fn item_marker(ordered: bool, n: nat) -> Seq<char> {
    if ordered {
        decimal(n) + ". "@
    } else {
        "- "@
    }
}

/// The content of one list item.
pub open spec fn item_out(it: ListItem) -> Seq<char>
    decreases it,
{
    match it {
        ListItem::Simple(v) => spans_out(v@),
        ListItem::Paragraph(v) => trimmed(blocks_out(v@)).push('\n'),
    }
}

/// The markup of a list: one line per item, each behind its marker.
pub open spec fn items_out(s: Seq<ListItem>, ordered: bool) -> Seq<char>
    decreases s,
{
    if s.len() == 0 {
        Seq::empty()
    } else {
        items_out(s.drop_last(), ordered) + item_marker(ordered, s.len()) + item_out(s.last())
            + seq!['\n']
    }
}

/// The fragment of one block.
pub open spec fn block_out(b: Block) -> Seq<char>
    decreases b,
{
    match b {
        Block::Header(v, level) => "h"@ + decimal(level as nat) + ". "@ + spans_out(v@) + seq![
            '\n',
        ],
        Block::Paragraph(v) => spans_out(v@) + seq!['\n'],
        Block::Blockquote(v) => "{noformat}\n"@ + trimmed(blocks_out(v@)).push('\n')
            + "\n{noformat}\n"@,
        Block::CodeBlock(_, t) => t@ + seq!['\n'],
        Block::OrderedList(v) => items_out(v@, true),
        Block::UnorderedList(v) => items_out(v@, false),
        Block::Raw(t) => t@,
        Block::Hr => "<hr>"@,
    }
}

/// The fragments of a sequence of blocks, concatenated in order.
pub open spec fn blocks_out(s: Seq<Block>) -> Seq<char>
    decreases s,
{
    if s.len() == 0 {
        Seq::empty()
    } else {
        blocks_out(s.drop_last()) + block_out(s.last())
    }
}

/// A rendered document: the blocks' fragments, trimmed, and one final newline.
pub open spec fn render_out(s: Seq<Block>) -> Seq<char> {
    trimmed(blocks_out(s)).push('\n')
}

/// A rendered document ends in exactly one newline, with no whitespace
/// before it.
pub proof fn lemma_render_ends_in_one_newline(blocks: Seq<Block>)
    ensures
        render_out(blocks).len() >= 1,
        render_out(blocks).last() == '\n',
        render_out(blocks).len() == 1 || !is_ws(render_out(blocks)[render_out(blocks).len() - 2]),
{
    let t = trimmed(blocks_out(blocks));
    lemma_trimmed_end(blocks_out(blocks));
    assert(render_out(blocks).drop_last() == t);
}

/// Rendering depends on the document alone: equal documents render to the
/// same text, however often they are rendered.
pub proof fn lemma_render_deterministic(a: Seq<Block>, b: Seq<Block>)
    requires
        a == b,
    ensures
        render_out(a) == render_out(b),
{
}

/// Renders a sequence of spans: each span's markup, in order, with no separator.
/// Text is escaped; code (`{code}t{code}`), links (`[text|url|tip]`) and images
/// (`!url|title=t,alt=a!`) carry their strings as given; emphasis, strong and
/// struck-through content sit between `_`, `*` and `-` markers.
pub fn format_spans(elements: &[Span]) -> (r: String)
    ensures
        r@ == spans_out(elements@),
    decreases elements@,
{
    let mut ret = String::new();
    let n = elements.len();
    let mut i: usize = 0;
    while i < n
        invariant
            n == elements@.len(),
            i <= n,
            ret@ == spans_out(elements@.subrange(0, i as int)),
        decreases n - i,
    {
        let ghost before = ret@;
        match &elements[i] {
            Span::Break => push_char(&mut ret, '\n'),
            Span::Text(t) => {
                let e = escape(t.as_str());
                ret.append(e.as_str());
            },
            Span::Code(t) => {
                ret.append("{code}");
                ret.append(t.as_str());
                ret.append("{code}");
            },
            Span::Link(t, u, tip) => {
                push_char(&mut ret, '[');
                ret.append(t.as_str());
                push_char(&mut ret, '|');
                ret.append(u.as_str());
                if let Some(tip) = tip {
                    push_char(&mut ret, '|');
                    ret.append(tip.as_str());
                }
                push_char(&mut ret, ']');
            },
            Span::Image(a, u, title) => {
                push_char(&mut ret, '!');
                ret.append(u.as_str());
                match title {
                    None => ret.append("|alt="),
                    Some(title) => {
                        ret.append("|title=");
                        ret.append(title.as_str());
                        ret.append(",alt=");
                    },
                }
                ret.append(a.as_str());
                push_char(&mut ret, '!');
            },
            Span::Emphasis(v) => {
                let inner = format_spans(v.as_slice());
                push_char(&mut ret, '_');
                ret.append(inner.as_str());
                push_char(&mut ret, '_');
            },
            Span::Strong(v) => {
                let inner = format_spans(v.as_slice());
                push_char(&mut ret, '*');
                ret.append(inner.as_str());
                push_char(&mut ret, '*');
            },
            Span::Strikethrough(v) => {
                let inner = format_spans(v.as_slice());
                push_char(&mut ret, '-');
                ret.append(inner.as_str());
                push_char(&mut ret, '-');
            },
        }
        assert(ret@ =~= before + span_out(elements@[i as int]));
        assert(elements@.subrange(0, i + 1).drop_last() =~= elements@.subrange(0, i as int));
        i = i + 1;
    }
    assert(elements@.subrange(0, n as int) =~= elements@);
    ret
}

/// Renders a header: `h<level>. <spans>` and a newline. The level is not checked.
pub fn format_header(elements: &[Span], level: usize) -> (r: String)
    ensures
        r@ == "h"@ + decimal(level as nat) + ". "@ + spans_out(elements@) + seq!['\n'],
{
    let mut ret = String::new();
    ret.append("h");
    push_decimal(&mut ret, level);
    ret.append(". ");
    let inner = format_spans(elements);
    ret.append(inner.as_str());
    push_char(&mut ret, '\n');
    ret
}

/// Renders a paragraph: its spans and a newline.
pub fn format_paragraph(elements: &[Span]) -> (r: String)
    ensures
        r@ == spans_out(elements@) + seq!['\n'],
{
    let mut ret = format_spans(elements);
    push_char(&mut ret, '\n');
    ret
}

/// Renders the literal text of a code block and a newline.
pub fn format_codeblock(elements: &str) -> (r: String)
    ensures
        r@ == elements@ + seq!['\n'],
{
    let mut ret = String::from_str(elements);
    push_char(&mut ret, '\n');
    ret
}

/// Renders a block quote: the rendered inner blocks inside a `{noformat}` region.
pub fn format_blockquote(elements: &[Block]) -> (r: String)
    ensures
        r@ == "{noformat}\n"@ + render_out(elements@) + "\n{noformat}\n"@,
    decreases elements@, 1int,
{
    let inner = to_confluence(elements);
    let mut ret = String::from_str("{noformat}\n");
    ret.append(inner.as_str());
    ret.append("\n{noformat}\n");
    ret
}

/// Renders the items of a list, one line each, behind `<n>. ` when `ordered`
/// (counting from one) and behind `- ` otherwise.
fn format_list(elements: &[ListItem], ordered: bool) -> (r: String)
    ensures
        r@ == items_out(elements@, ordered),
    decreases elements@, 0int,
{
    let mut ret = String::new();
    let n = elements.len();
    let mut i: usize = 0;
    while i < n
        invariant
            n == elements@.len(),
            i <= n,
            ret@ == items_out(elements@.subrange(0, i as int), ordered),
        decreases n - i,
    {
        let ghost before = ret@;
        if ordered {
            push_decimal(&mut ret, i + 1);
            ret.append(". ");
        } else {
            ret.append("- ");
        }
        match &elements[i] {
            ListItem::Simple(v) => {
                let content = format_spans(v.as_slice());
                ret.append(content.as_str());
            },
            ListItem::Paragraph(v) => {
                let content = to_confluence(v.as_slice());
                ret.append(content.as_str());
            },
        }
        push_char(&mut ret, '\n');
        let ghost sub = elements@.subrange(0, i + 1);
        assert(sub.drop_last() =~= elements@.subrange(0, i as int));
        assert(ret@ =~= items_out(sub.drop_last(), ordered) + item_marker(ordered, sub.len())
            + item_out(sub.last()) + seq!['\n']);
        i = i + 1;
    }
    assert(elements@.subrange(0, n as int) =~= elements@);
    ret
}

/// Renders a bulleted list: one `- <item>` line per item.
pub fn format_unordered_list(elements: &[ListItem]) -> (r: String)
    ensures
        r@ == items_out(elements@, false),
    decreases elements@, 1int,
{
    format_list(elements, false)
}

/// Renders a numbered list: one `<n>. <item>` line per item, counting from one.
pub fn format_ordered_list(elements: &[ListItem]) -> (r: String)
    ensures
        r@ == items_out(elements@, true),
    decreases elements@, 1int,
{
    format_list(elements, true)
}

/// Renders a document: each block's fragment in order, the whole trimmed of
/// surrounding whitespace, then exactly one newline.
pub fn to_confluence(blocks: &[Block]) -> (r: String)
    ensures
        r@ == render_out(blocks@),
    decreases blocks@, 0int,
{
    let mut ret = String::new();
    let n = blocks.len();
    let mut i: usize = 0;
    while i < n
        invariant
            n == blocks@.len(),
            i <= n,
            ret@ == blocks_out(blocks@.subrange(0, i as int)),
        decreases n - i,
    {
        let next = match &blocks[i] {
            Block::Header(v, level) => format_header(v.as_slice(), *level),
            Block::Paragraph(v) => format_paragraph(v.as_slice()),
            Block::Blockquote(v) => format_blockquote(v.as_slice()),
            Block::CodeBlock(_, text) => format_codeblock(text.as_str()),
            Block::OrderedList(v) => format_ordered_list(v.as_slice()),
            Block::UnorderedList(v) => format_unordered_list(v.as_slice()),
            Block::Raw(text) => String::from_str(text.as_str()),
            Block::Hr => String::from_str("<hr>"),
        };
        assert(next@ =~= block_out(blocks@[i as int]));
        ret.append(next.as_str());
        assert(blocks@.subrange(0, i + 1).drop_last() =~= blocks@.subrange(0, i as int));
        i = i + 1;
    }
    assert(blocks@.subrange(0, n as int) =~= blocks@);
    let mut out = String::from_str(trim(ret.as_str()));
    push_char(&mut out, '\n');
    out
}

} // verus!
