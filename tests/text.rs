use md_confluence::model::Span;
use md_confluence::reverse::to_markdown;
use md_confluence::slug::{join_segment, slugify};
use md_confluence::text::{escape, push_decimal};

#[test]
fn escape_reserved_characters() {
    assert_eq!(escape("<a & \"b\">"), "&lt;a &amp; &quot;b&quot;&gt;");
    assert_eq!(escape("it's"), "it&#8217;s");
    assert_eq!(escape("&amp;"), "&amp;amp;");
    assert_eq!(escape(""), "");
    assert_eq!(escape("plain"), "plain");
}

#[test]
fn slug_of_text() {
    assert_eq!(slugify(&[Span::Text("Hello World".to_string())]), "hello_world");
}

#[test]
fn slug_of_strong() {
    assert_eq!(slugify(&[Span::Strong(vec![Span::Text("A B".to_string())])]), "a_b");
}

#[test]
fn slug_trims_and_joins() {
    let spans = vec![
        Span::Text("  Intro  ".to_string()),
        Span::Code("Fn Main".to_string()),
        Span::Link("Go Here".to_string(), "http://x".to_string(), None),
        Span::Image("Pic".to_string(), "u".to_string(), Some("t".to_string())),
        Span::Emphasis(vec![Span::Text("Em".to_string())]),
        Span::Strikethrough(vec![Span::Text("Old".to_string())]),
    ];
    assert_eq!(slugify(&spans), "intro_fn_main_go_here_pic_em_old");
}

#[test]
fn slug_break_and_empty() {
    assert_eq!(slugify(&[]), "");
    assert_eq!(slugify(&[Span::Break, Span::Text("A".to_string())]), "a");
    assert_eq!(slugify(&[Span::Text("A".to_string()), Span::Break]), "a_");
}

#[test]
fn slug_lowercases_and_escapes() {
    assert_eq!(slugify(&[Span::Text("ÄRGER".to_string())]), "ärger");
    assert_eq!(slugify(&[Span::Text("A & B".to_string())]), "a_&amp;_b");
}

#[test]
fn join_segment_separates_only_after_content() {
    let mut s = String::new();
    join_segment(&mut s, "a");
    assert_eq!(s, "a");
    join_segment(&mut s, "");
    assert_eq!(s, "a_");
    join_segment(&mut s, "b");
    assert_eq!(s, "a__b");
}

#[test]
fn decimal_numbers() {
    let mut s = String::from("n=");
    push_decimal(&mut s, 0);
    assert_eq!(s, "n=0");
    let mut t = String::new();
    push_decimal(&mut t, 1907);
    assert_eq!(t, "1907");
    let mut u = String::new();
    push_decimal(&mut u, usize::MAX);
    assert_eq!(u, usize::MAX.to_string());
}

#[test]
fn reverse_direction_produces_nothing() {
    assert_eq!(to_markdown("h1. Title"), "");
    assert_eq!(to_markdown(""), "");
}
