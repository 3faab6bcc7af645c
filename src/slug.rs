//! Anchor names derived from header content.
use vstd::prelude::*;
use crate::model::Span;
use crate::text::{escape, escape_seq, lower_of, lowercase, push_char, trim, trimmed};

verus! {

/// `s` with every space replaced by an underscore.
pub open spec fn underscored(s: Seq<char>) -> Seq<char> {
    s.map_values(|c: char| if c == ' ' { '_' } else { c })
}

/// The slug segment of a piece of text: trimmed, spaces made underscores,
/// lowercased, then escaped.
pub open spec fn text_segment(t: Seq<char>) -> Seq<char> {
    escape_seq(lower_of(underscored(trimmed(t))))
}

/// `acc` followed by `seg`, with an underscore between them when `acc` is not empty.
pub open spec fn joined(acc: Seq<char>, seg: Seq<char>) -> Seq<char> {
    if acc.len() > 0 {
        acc.push('_') + seg
    } else {
        seg
    }
}

/// The slug segment of one span.
pub open spec fn span_segment(sp: Span) -> Seq<char>
    decreases sp,
{
    match sp {
        Span::Break => Seq::empty(),
        Span::Text(t) => text_segment(t@),
        Span::Link(t, _, _) => text_segment(t@),
        Span::Image(t, _, _) => text_segment(t@),
        Span::Code(t) => text_segment(t@),
        Span::Strong(v) => slug_of(v@),
        Span::Emphasis(v) => slug_of(v@),
        Span::Strikethrough(v) => slug_of(v@),
    }
}

/// The slug of a sequence of spans: their segments, joined in order.
pub open spec fn slug_of(s: Seq<Span>) -> Seq<char>
    decreases s,
{
    if s.len() == 0 {
        Seq::empty()
    } else {
        joined(slug_of(s.drop_last()), span_segment(s.last()))
    }
}

/// Replaces every space of `s` with an underscore.
fn underscore_spaces(s: &str) -> (r: String)
    ensures
        r@ == underscored(s@),
{
    let mut out = String::new();
    for c in it: s.chars()
        invariant
            it.seq() == s@,
            out@ == underscored(s@.subrange(0, it.index() as int)),
    {
        let ghost i = it.index();
        if c == ' ' {
            push_char(&mut out, '_');
        } else {
            push_char(&mut out, c);
        }
        assert(out@ =~= underscored(s@.subrange(0, i + 1)));
    }
    assert(s@.subrange(0, s@.len() as int) =~= s@);
    out
}

/// The slug segment of a piece of text.
fn segment_of_text(t: &str) -> (r: String)
    ensures
        r@ == text_segment(t@),
{
    let spaced = underscore_spaces(trim(t));
    let lowered = lowercase(spaced.as_str());
    escape(lowered.as_str())
}

/// Appends a segment to a slug under construction, behind an underscore
/// when the slug is not empty.
pub fn join_segment(ret: &mut String, next: &str)
    ensures
        final(ret)@ == joined(old(ret)@, next@),
{
    if !ret.as_str().is_empty() {
        push_char(ret, '_');
    }
    ret.append(next);
}

/// Derives an anchor name from header content: one lowercase segment per span,
/// joined by underscores. Text, code, links and images give their text;
/// emphasis, strong and struck-through content give the slug of their
/// children; a line break gives an empty segment.
pub fn slugify(elements: &[Span]) -> (r: String)
    ensures
        r@ == slug_of(elements@),
    decreases elements@,
{
    let mut ret = String::new();
    let n = elements.len();
    let mut i: usize = 0;
    while i < n
        invariant
            n == elements@.len(),
            i <= n,
            ret@ == slug_of(elements@.subrange(0, i as int)),
        decreases n - i,
    {
        let next = match &elements[i] {
            Span::Break => String::new(),
            Span::Text(t) => segment_of_text(t.as_str()),
            Span::Link(t, _, _) => segment_of_text(t.as_str()),
            Span::Image(t, _, _) => segment_of_text(t.as_str()),
            Span::Code(t) => segment_of_text(t.as_str()),
            Span::Strong(v) => slugify(v.as_slice()),
            Span::Emphasis(v) => slugify(v.as_slice()),
            Span::Strikethrough(v) => slugify(v.as_slice()),
        };
        assert(next@ == span_segment(elements@[i as int]));
        join_segment(&mut ret, next.as_str());
        assert(elements@.subrange(0, i + 1).drop_last() =~= elements@.subrange(0, i as int));
        i = i + 1;
    }
    assert(elements@.subrange(0, n as int) =~= elements@);
    ret
}

} // verus!
