use sline_transpiler::driver::{advance, rewrite_tag};
use sline_transpiler::scan::{find_tag, tag_body, NextTag, TagSpan};
use sline_transpiler::{
    find_block_close, to_chars, BlockClose, BlockContext, Diagnostic, Level, Options,
};

fn span(start: usize, body_start: usize, body_end: usize, end: usize, triple: bool) -> TagSpan {
    TagSpan { start, body_start, body_end, end, triple }
}

#[test]
fn find_tag_double() {
    let s = to_chars("ab{{ x }}cd");
    assert_eq!(find_tag(&s, 0), NextTag::Found(span(2, 4, 7, 9, false)));
    assert_eq!(find_tag(&s, 2), NextTag::Found(span(2, 4, 7, 9, false)));
    assert_eq!(find_tag(&s, 3), NextTag::Absent);
    assert_eq!(find_tag(&s, 11), NextTag::Absent);
}

#[test]
fn find_tag_triple() {
    let s = to_chars("{{{x}}}");
    assert_eq!(find_tag(&s, 0), NextTag::Found(span(0, 3, 4, 7, true)));
    assert_eq!(find_tag(&s, 1), NextTag::Found(span(1, 3, 4, 6, false)));
}

#[test]
fn find_tag_unterminated() {
    let s = to_chars("a{{x}");
    assert_eq!(find_tag(&s, 0), NextTag::Unterminated { start: 1 });
    let t = to_chars("{{{x}}");
    assert_eq!(find_tag(&t, 0), NextTag::Unterminated { start: 0 });
}

#[test]
fn find_tag_counts_characters() {
    let s = to_chars("é✓{{ü}}");
    assert_eq!(find_tag(&s, 0), NextTag::Found(span(2, 4, 5, 7, false)));
}

#[test]
fn tag_body_is_trimmed() {
    let s = to_chars("ab{{ x y\t}}cd");
    let found = span(2, 4, 9, 11, false);
    assert_eq!(find_tag(&s, 0), NextTag::Found(found));
    assert_eq!(tag_body(&s, &found), &to_chars("x y")[..]);
}

#[test]
fn find_block_close_finds_first_close() {
    let s = to_chars("{{#comment}} a {{b}} {{/comment}} c {{/comment}}");
    assert_eq!(find_block_close(&s, 12, "comment"), Some(BlockClose { start: 21, end: 33 }));
    assert_eq!(find_block_close(&s, 22, "comment"), Some(BlockClose { start: 36, end: 48 }));
    assert_eq!(find_block_close(&s, 37, "comment"), None);
}

#[test]
fn find_block_close_accepts_space_and_triple_braces() {
    let s = to_chars("x{{{  /each }}}y");
    assert_eq!(find_block_close(&s, 0, "each"), Some(BlockClose { start: 1, end: 15 }));
    assert_eq!(find_block_close(&s, 0, "eac"), None);
    assert_eq!(find_block_close(&s, 0, "each "), None);
}

#[test]
fn find_block_close_stops_at_unterminated_tag() {
    let s = to_chars("{{a}} {{b {{/x");
    assert_eq!(find_block_close(&s, 0, "x"), None);
}

#[test]
fn find_block_close_in_empty_rest() {
    let s = to_chars("abc");
    assert_eq!(find_block_close(&s, 3, "x"), None);
    assert_eq!(find_block_close(&s, 0, ""), None);
}

#[test]
fn find_block_close_with_empty_name() {
    let s = to_chars("{{a}}{{/}}");
    assert_eq!(find_block_close(&s, 0, ""), Some(BlockClose { start: 5, end: 10 }));
}

#[test]
fn advance_copies_text_and_rewrites_one_tag() {
    let s = to_chars("ab{{#each xs}}cd");
    let mut stack = Vec::new();
    let mut out = String::from(">");
    let mut diagnostics = Vec::new();
    let options = Options { allow_parent: false };
    let next = advance(&s, 0, &mut stack, &options, &mut out, &mut diagnostics);
    assert_eq!(next, Some(14));
    assert_eq!(out, ">ab{{ #for item in xs }}");
    assert_eq!(stack.len(), 1);
    assert!(diagnostics.is_empty());
    let next = advance(&s, 14, &mut stack, &options, &mut out, &mut diagnostics);
    assert_eq!(next, None);
    assert_eq!(out, ">ab{{ #for item in xs }}cd");
    assert_eq!(stack.len(), 1);
    assert_eq!(
        diagnostics,
        vec![Diagnostic { level: Level::Error, message: "Unclosed block: each".to_string() }]
    );
}

#[test]
fn advance_skips_a_comment_block() {
    let s = to_chars("{{#comment}}a{{b}}{{/comment}}c");
    let mut stack: Vec<BlockContext> = Vec::new();
    let mut out = String::new();
    let mut diagnostics = Vec::new();
    let options = Options { allow_parent: false };
    let next = advance(&s, 0, &mut stack, &options, &mut out, &mut diagnostics);
    assert_eq!(next, Some(30));
    assert_eq!(out, "{{!--a{{b}}--}}");
    assert!(diagnostics.is_empty());
}

#[test]
fn advance_stops_at_unterminated_tag() {
    let s = to_chars("ab{{cd");
    let mut stack = vec![BlockContext::Each { alias: "x".to_string() }];
    let mut out = String::new();
    let mut diagnostics = Vec::new();
    let options = Options { allow_parent: false };
    let next = advance(&s, 1, &mut stack, &options, &mut out, &mut diagnostics);
    assert_eq!(next, None);
    assert_eq!(out, "b{{cd");
    assert!(diagnostics.is_empty());
    assert_eq!(stack.len(), 1);
}

#[test]
fn rewrite_tag_wraps_by_form() {
    let s = to_chars("{{{ this }}}{{this}}");
    let mut stack = vec![BlockContext::Each { alias: "x".to_string() }];
    let mut out = String::new();
    let mut diagnostics = Vec::new();
    let options = Options { allow_parent: false };
    let next = rewrite_tag(&s, &span(0, 3, 9, 12, true), &mut stack, &options, &mut out, &mut diagnostics);
    assert_eq!(next, 12);
    let next = rewrite_tag(&s, &span(12, 14, 18, 20, false), &mut stack, &options, &mut out, &mut diagnostics);
    assert_eq!(next, 20);
    assert_eq!(out, "{{{ x }}}{{ x }}");
    assert!(diagnostics.is_empty());
}
