//! The scanner: one pass over the input that copies literal text, rewrites
//! each tag and collects the diagnostics.

use vstd::prelude::*;
use crate::model::{
    block_views, error, report, views, BlockContext, BlockView, Diagnostic, DiagnosticView,
    Level, Options,
};
use crate::scan::{
    block_close, find_block_close, find_tag, lemma_block_close_bounds, lemma_next_tag_bounds,
    next_tag, tag_body, NextTag, Span, TagScan, TagSpan,
};
use crate::tag::{tag_diagnostics, tag_stack, tag_text, transform_tag};
use crate::text::{has_prefix, push_chars, starts_with, to_chars};

verus! {

/// The error for an each-block that is still open where the input ends.
pub open spec fn unclosed_block_error() -> DiagnosticView {
    error("Unclosed block: each"@)
}

/// The error for a `#comment` tag that no `/comment` tag follows.
pub open spec fn unclosed_comment_error() -> DiagnosticView {
    error("Unclosed {{#comment}} block"@)
}

/// One error for each of `n` blocks that were left open.
pub open spec fn unclosed(n: nat) -> Seq<DiagnosticView> {
    Seq::new(n, |i: int| unclosed_block_error())
}

/// A rewritten tag body between its delimiters, with one space on each side.
pub open spec fn wrapped(body: Seq<char>, triple: bool) -> Seq<char> {
    if triple {
        "{{{ "@ + body + " }}}"@
    } else {
        "{{ "@ + body + " }}"@
    }
}

/// The comment tag that a comment block with the text `inner` becomes.
pub open spec fn comment(inner: Seq<char>) -> Seq<char> {
    "{{!--"@ + inner + "--}}"@
}

/// What one step of the scanner does.
pub struct Step {
    /// The text that the step adds to the output.
    pub text: Seq<char>,
    /// The diagnostics that the step adds.
    pub diagnostics: Seq<DiagnosticView>,
    /// The open blocks after the step.
    pub stack: Seq<BlockView>,
    /// The offset where the next step begins; `None` after the last step.
    pub next: Option<int>,
}

/// What the scanner does with the tag at `span` of `s`, with `stack` holding
/// the open blocks.
///
/// A tag whose body begins with `!--` is copied as it is. A `#comment` tag
/// is replaced, together with everything up to and including its `/comment`
/// tag, by one comment tag that holds the text between the two; where no
/// `/comment` tag follows, it is copied as it is and reported. Any other tag
/// is rewritten and set between delimiters of its own form.
pub open spec fn tag_step(s: Seq<char>, span: Span, stack: Seq<BlockView>, allow_parent: bool) -> Step {
    if has_prefix(span.body(s), "!--"@) {
        Step { text: span.source(s), diagnostics: Seq::empty(), stack, next: Some(span.end) }
    } else if has_prefix(span.body(s), "#comment"@) {
        match block_close(s, span.end, "comment"@) {
            Some((close_start, close_end)) => Step {
                text: comment(s.subrange(span.end, close_start)),
                diagnostics: Seq::empty(),
                stack,
                next: Some(close_end),
            },
            None => Step {
                text: span.source(s),
                diagnostics: seq![unclosed_comment_error()],
                stack,
                next: Some(span.end),
            },
        }
    } else {
        Step {
            text: wrapped(tag_text(span.body(s), stack, allow_parent), span.triple),
            diagnostics: tag_diagnostics(span.body(s), stack, allow_parent),
            stack: tag_stack(span.body(s), stack),
            next: Some(span.end),
        }
    }
}

/// The step that the scanner takes at offset `from` of `s`, with `stack`
/// holding the open blocks.
///
/// Where no tag follows, the rest of the input is copied and each block
/// still open is reported. Where a tag opens and never closes, the rest of
/// the input is copied and nothing is reported. Otherwise the text before
/// the tag is copied, and the tag is dealt with as `tag_step` says.
pub open spec fn step(s: Seq<char>, from: int, stack: Seq<BlockView>, allow_parent: bool) -> Step {
    match next_tag(s, from) {
        TagScan::Absent => Step {
            text: s.skip(from),
            diagnostics: unclosed(stack.len()),
            stack,
            next: None,
        },
        TagScan::Unterminated { .. } => Step {
            text: s.skip(from),
            diagnostics: Seq::empty(),
            stack,
            next: None,
        },
        TagScan::Found(span) => {
            let tag = tag_step(s, span, stack, allow_parent);
            Step {
                text: s.subrange(from, span.start) + tag.text,
                diagnostics: tag.diagnostics,
                stack: tag.stack,
                next: tag.next,
            }
        },
    }
}

/// Every step but the last moves forward and stays inside the input.
pub proof fn lemma_step_advances(
    s: Seq<char>,
    from: int,
    stack: Seq<BlockView>,
    allow_parent: bool,
)
    requires
        0 <= from,
    ensures
        match step(s, from, stack, allow_parent).next {
            Some(next) => from < next && next <= s.len(),
            None => true,
        },
{
    lemma_next_tag_bounds(s, from);
    match next_tag(s, from) {
        TagScan::Found(span) => {
            lemma_block_close_bounds(s, span.end, "comment"@);
        },
        _ => {},
    }
}

/// The output for the part of `s` from `from` on, with `stack` holding the
/// open blocks: the texts of the steps from there, one after the other.
pub open spec fn scan_text(
    s: Seq<char>,
    from: int,
    stack: Seq<BlockView>,
    allow_parent: bool,
) -> Seq<char>
    decreases s.len() - from,
    via scan_text_decreases
{
    if from < 0 {
        Seq::empty()
    } else {
        let taken = step(s, from, stack, allow_parent);
        match taken.next {
            Some(next) => taken.text + scan_text(s, next, taken.stack, allow_parent),
            None => taken.text,
        }
    }
}

#[via_fn]
proof fn scan_text_decreases(s: Seq<char>, from: int, stack: Seq<BlockView>, allow_parent: bool) {
    if from >= 0 {
        lemma_step_advances(s, from, stack, allow_parent);
    }
}

/// The diagnostics for the part of `s` from `from` on, with `stack` holding
/// the open blocks: those of the steps from there, in order.
pub open spec fn scan_diagnostics(
    s: Seq<char>,
    from: int,
    stack: Seq<BlockView>,
    allow_parent: bool,
) -> Seq<DiagnosticView>
    decreases s.len() - from,
    via scan_diagnostics_decreases
{
    if from < 0 {
        Seq::empty()
    } else {
        let taken = step(s, from, stack, allow_parent);
        match taken.next {
            Some(next) => taken.diagnostics + scan_diagnostics(
                s,
                next,
                taken.stack,
                allow_parent,
            ),
            None => taken.diagnostics,
        }
    }
}

#[via_fn]
proof fn scan_diagnostics_decreases(
    s: Seq<char>,
    from: int,
    stack: Seq<BlockView>,
    allow_parent: bool,
) {
    if from >= 0 {
        lemma_step_advances(s, from, stack, allow_parent);
    }
}

/// The text that `input` is converted to.
pub open spec fn transpile_text(input: Seq<char>, allow_parent: bool) -> Seq<char> {
    scan_text(input, 0, Seq::empty(), allow_parent)
}

/// The diagnostics that converting `input` gives, in the order in which the
/// scanner meets their causes.
pub open spec fn transpile_diagnostics(input: Seq<char>, allow_parent: bool) -> Seq<
    DiagnosticView,
> {
    scan_diagnostics(input, 0, Seq::empty(), allow_parent)
}

/// Reports each block of `stack` as left open.
fn report_unclosed(stack: &Vec<BlockContext>, diagnostics: &mut Vec<Diagnostic>)
    ensures
        views(final(diagnostics)@) == views(old(diagnostics)@) + unclosed(stack@.len()),
{
    let mut i: usize = 0;
    proof {
        assert(views(diagnostics@) =~= views(diagnostics@) + unclosed(0));
    }
    while i < stack.len()
        invariant
            i <= stack.len(),
            views(diagnostics@) == views(old(diagnostics)@) + unclosed(i as nat),
        decreases stack.len() - i,
    {
        report(diagnostics, Level::Error, String::from_str("Unclosed block: each"));
        proof {
            assert(unclosed(i as nat + 1) =~= unclosed(i as nat).push(unclosed_block_error()));
            assert(views(diagnostics@) =~= views(old(diagnostics)@) + unclosed(i as nat + 1));
        }
        i += 1;
    }
}

/// Deals with the tag at `span` of `source`.
///
/// What takes the tag's place is appended to `out`, and what there is to
/// report to `diagnostics`; `stack` is left holding the blocks that are open
/// after the tag. The result is the offset where the scan goes on.
pub fn rewrite_tag(
    source: &[char],
    span: &TagSpan,
    stack: &mut Vec<BlockContext>,
    options: &Options,
    out: &mut String,
    diagnostics: &mut Vec<Diagnostic>,
) -> (next: usize)
    requires
        span@.lies_within(source@, 0),
    ensures
        ({
            let taken = tag_step(
                source@,
                span@,
                block_views(old(stack)@),
                options.allow_parent,
            );
            &&& final(out)@ == old(out)@ + taken.text
            &&& views(final(diagnostics)@) == views(old(diagnostics)@) + taken.diagnostics
            &&& block_views(final(stack)@) == taken.stack
            &&& taken.next == Some(next as int)
            &&& span.end <= next <= source.len()
        }),
{
    proof {
        assert(views(diagnostics@) + Seq::empty() =~= views(diagnostics@));
    }
    let body = tag_body(source, span);
    if starts_with(body, "!--") {
        push_chars(out, vstd::slice::slice_subrange(source, span.start, span.end));
        span.end
    } else if starts_with(body, "#comment") {
        match find_block_close(source, span.end, "comment") {
            Some(close) => {
                out.append("{{!--");
                push_chars(out, vstd::slice::slice_subrange(source, span.end, close.start));
                out.append("--}}");
                proof {
                    assert(out@ =~= old(out)@ + comment(
                        source@.subrange(span.end as int, close.start as int),
                    ));
                }
                close.end
            },
            None => {
                report(
                    diagnostics,
                    Level::Error,
                    String::from_str("Unclosed {{#comment}} block"),
                );
                push_chars(out, vstd::slice::slice_subrange(source, span.start, span.end));
                proof {
                    assert(views(diagnostics@) =~= views(old(diagnostics)@)
                        + seq![unclosed_comment_error()]);
                }
                span.end
            },
        }
    } else {
        let rewritten = transform_tag(body, stack, options, diagnostics);
        if span.triple {
            out.append("{{{ ");
            out.append(rewritten.as_str());
            out.append(" }}}");
        } else {
            out.append("{{ ");
            out.append(rewritten.as_str());
            out.append(" }}");
        }
        proof {
            assert(out@ =~= old(out)@ + wrapped(rewritten@, span.triple));
        }
        span.end
    }
}

/// Takes one step of the scan at offset `index` of `source`.
///
/// The step's text is appended to `out` and its diagnostics to
/// `diagnostics`; `stack` is left holding the blocks that are open after it.
/// The result is the offset where the next step begins, or `None` where this
/// was the last.
pub fn advance(
    source: &[char],
    index: usize,
    stack: &mut Vec<BlockContext>,
    options: &Options,
    out: &mut String,
    diagnostics: &mut Vec<Diagnostic>,
) -> (next: Option<usize>)
    requires
        index <= source.len(),
    ensures
        ({
            let taken = step(
                source@,
                index as int,
                block_views(old(stack)@),
                options.allow_parent,
            );
            &&& final(out)@ == old(out)@ + taken.text
            &&& views(final(diagnostics)@) == views(old(diagnostics)@) + taken.diagnostics
            &&& block_views(final(stack)@) == taken.stack
            &&& match next {
                Some(n) => taken.next == Some(n as int) && index < n <= source.len(),
                None => taken.next is None,
            }
        }),
{
    match find_tag(source, index) {
        NextTag::Absent => {
            let rest = vstd::slice::slice_subrange(source, index, source.len());
            proof {
                assert(rest@ =~= source@.skip(index as int));
            }
            push_chars(out, rest);
            report_unclosed(stack, diagnostics);
            None
        },
        NextTag::Unterminated { start: _ } => {
            let rest = vstd::slice::slice_subrange(source, index, source.len());
            proof {
                assert(rest@ =~= source@.skip(index as int));
                assert(views(diagnostics@) + Seq::empty() =~= views(diagnostics@));
            }
            push_chars(out, rest);
            None
        },
        NextTag::Found(span) => {
            push_chars(out, vstd::slice::slice_subrange(source, index, span.start));
            let next = rewrite_tag(source, &span, stack, options, out, diagnostics);
            proof {
                let tag = tag_step(
                    source@,
                    span@,
                    block_views(old(stack)@),
                    options.allow_parent,
                );
                assert(out@ =~= old(out)@ + (source@.subrange(index as int, span.start as int)
                    + tag.text));
            }
            Some(next)
        },
    }
}

/// Converts a template.
///
/// The result is the converted text and the diagnostics, in the order in
/// which the scan met their causes. Text outside tags is copied as it is.
/// The conversion never fails: what cannot be converted cleanly is reported
/// and the scan goes on. A tag that opens and never closes ends the scan:
/// it is copied with all that follows it, and nothing is reported for it or
/// for blocks that are open at that point.
pub fn transpile(input: &str, options: &Options) -> (r: (String, Vec<Diagnostic>))
    ensures
        r.0@ == transpile_text(input@, options.allow_parent),
        views(r.1@) == transpile_diagnostics(input@, options.allow_parent),
{
    let source = to_chars(input);
    let mut out = String::new();
    let mut diagnostics: Vec<Diagnostic> = Vec::new();
    let mut stack: Vec<BlockContext> = Vec::new();
    let mut index: usize = 0;
    proof {
        assert(block_views(stack@) =~= Seq::empty());
        assert(views(diagnostics@) =~= Seq::empty());
        assert(out@ + transpile_text(input@, options.allow_parent) =~= transpile_text(
            input@,
            options.allow_parent,
        ));
        assert(views(diagnostics@) + transpile_diagnostics(input@, options.allow_parent)
            =~= transpile_diagnostics(input@, options.allow_parent));
    }
    loop
        invariant
            source@ == input@,
            index <= source.len(),
            transpile_text(input@, options.allow_parent) == out@ + scan_text(
                source@,
                index as int,
                block_views(stack@),
                options.allow_parent,
            ),
            transpile_diagnostics(input@, options.allow_parent) == views(diagnostics@)
                + scan_diagnostics(
                source@,
                index as int,
                block_views(stack@),
                options.allow_parent,
            ),
        decreases source.len() - index,
    {
        let ghost taken = step(
            source@,
            index as int,
            block_views(stack@),
            options.allow_parent,
        );
        let ghost text_before = out@;
        let ghost diagnostics_before = views(diagnostics@);
        match advance(source.as_slice(), index, &mut stack, options, &mut out, &mut diagnostics) {
            Some(next) => {
                proof {
                    assert(out@ + scan_text(
                        source@,
                        next as int,
                        taken.stack,
                        options.allow_parent,
                    ) =~= text_before + (taken.text + scan_text(
                        source@,
                        next as int,
                        taken.stack,
                        options.allow_parent,
                    )));
                    assert(views(diagnostics@) + scan_diagnostics(
                        source@,
                        next as int,
                        taken.stack,
                        options.allow_parent,
                    ) =~= diagnostics_before + (taken.diagnostics + scan_diagnostics(
                        source@,
                        next as int,
                        taken.stack,
                        options.allow_parent,
                    )));
                }
                index = next;
            },
            None => {
                return (out, diagnostics);
            },
        }
    }
}

} // verus!
