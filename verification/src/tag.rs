//! The tag classifier and rewriter: what the body of one tag becomes, and
//! what it does to the stack of open blocks.

use vstd::prelude::*;
use crate::expr::{alias_view, expression_diagnostics, expression_text, transform_expression};
use crate::model::{
    block_views, error, innermost_alias, report, views, warning, BlockContext, BlockView,
    Diagnostic, DiagnosticView, Level, Options,
};
use crate::text::{
    equals, find, first_occurrence, has_prefix, lemma_first_occurrence, push_chars, starts_with,
    to_text, trim, trimmed,
};

verus! {

/// The shapes of tag that the rewriter tells apart.
#[derive(Debug, Clone, Copy, PartialEq, Eq, Structural)]
pub enum TagKind {
    /// `#each …`: opens an iteration block.
    EachOpen,
    /// `/each`: closes an iteration block.
    EachClose,
    /// `#unless …`: opens a negated conditional.
    UnlessOpen,
    /// `/unless`: closes a negated conditional.
    UnlessClose,
    /// `#if …`: opens a conditional.
    IfOpen,
    /// `/if`: closes a conditional.
    IfClose,
    /// `else`.
    Else,
    /// `#with …` or `/with`: has no counterpart and is left as it is.
    With,
    /// Anything else: a bare expression.
    Expression,
}

/// The shape of the trimmed tag body `tag`. Where several shapes fit, the
/// one named first wins.
pub open spec fn tag_kind(tag: Seq<char>) -> TagKind {
    if has_prefix(tag, "#each"@) {
        TagKind::EachOpen
    } else if tag == "/each"@ {
        TagKind::EachClose
    } else if has_prefix(tag, "#unless"@) {
        TagKind::UnlessOpen
    } else if tag == "/unless"@ {
        TagKind::UnlessClose
    } else if has_prefix(tag, "#if"@) {
        TagKind::IfOpen
    } else if tag == "/if"@ {
        TagKind::IfClose
    } else if tag == "else"@ {
        TagKind::Else
    } else if has_prefix(tag, "#with"@) || tag == "/with"@ {
        TagKind::With
    } else {
        TagKind::Expression
    }
}

/// Tells the shape of a trimmed tag body.
pub fn classify(tag: &[char]) -> (kind: TagKind)
    ensures
        kind == tag_kind(tag@),
{
    if starts_with(tag, "#each") {
        TagKind::EachOpen
    } else if equals(tag, "/each") {
        TagKind::EachClose
    } else if starts_with(tag, "#unless") {
        TagKind::UnlessOpen
    } else if equals(tag, "/unless") {
        TagKind::UnlessClose
    } else if starts_with(tag, "#if") {
        TagKind::IfOpen
    } else if equals(tag, "/if") {
        TagKind::IfClose
    } else if equals(tag, "else") {
        TagKind::Else
    } else if starts_with(tag, "#with") || equals(tag, "/with") {
        TagKind::With
    } else {
        TagKind::Expression
    }
}

/// The alias that an each-block binds when it names none.
pub open spec fn default_alias() -> Seq<char> {
    "item"@
}

/// The offsets of an explicit block parameter in `rest`: where ` as |` begins
/// and where the closing `|` stands. `None` where the marker or the closing
/// bar is missing, or nothing but white space stands between them.
pub open spec fn block_parameter(rest: Seq<char>) -> Option<(int, int)> {
    match first_occurrence(rest, " as |"@, 0) {
        Some(pos) => match first_occurrence(rest, "|"@, pos + " as |"@.len()) {
            Some(end) => if trimmed(rest.subrange(pos + " as |"@.len(), end)).len() > 0 {
                Some((pos, end))
            } else {
                None
            },
            None => None,
        },
        None => None,
    }
}

/// The expression that an each-block iterates over, given what follows
/// `#each`.
pub open spec fn each_expression(rest: Seq<char>) -> Seq<char> {
    match block_parameter(rest) {
        Some((pos, _)) => trimmed(rest.take(pos)),
        None => trimmed(rest),
    }
}

/// The alias that an each-block binds, given what follows `#each`.
pub open spec fn each_alias(rest: Seq<char>) -> Seq<char> {
    match block_parameter(rest) {
        Some((pos, end)) => trimmed(rest.subrange(pos + " as |"@.len(), end)),
        None => default_alias(),
    }
}

/// Splits what follows `#each` into the expression and the alias.
///
/// With a block parameter, `expr as |alias|`, both parts are trimmed. Without
/// one that is well formed, the whole text, trimmed, is the expression and
/// the alias is `item`.
pub fn parse_each(rest: &[char]) -> (r: (String, String))
    ensures
        r.0@ == each_expression(rest@),
        r.1@ == each_alias(rest@),
{
    proof {
        reveal_strlit(" as |");
    }
    if let Some(pos) = find(rest, 0, " as |") {
        proof {
            lemma_first_occurrence(rest@, " as |"@, 0);
            assert(pos + 5 <= rest.len());
        }
        if let Some(end) = find(rest, pos + 5, "|") {
            proof {
                lemma_first_occurrence(rest@, "|"@, pos + 5);
            }
            let alias = trim(vstd::slice::slice_subrange(rest, pos + 5, end));
            if alias.len() > 0 {
                let expr = trim(vstd::slice::slice_subrange(rest, 0, pos));
                proof {
                    assert(rest@.subrange(0, pos as int) =~= rest@.take(pos as int));
                }
                return (to_text(expr), to_text(alias));
            }
        }
    }
    (to_text(trim(rest)), String::from_str("item"))
}

/// What follows `keyword` in a tag body that begins with it, trimmed.
pub open spec fn argument(tag: Seq<char>, keyword: Seq<char>) -> Seq<char> {
    trimmed(tag.skip(keyword.len() as int))
}

/// The error for an `/each` that closes nothing.
pub open spec fn unexpected_close_error() -> DiagnosticView {
    error("Unexpected closing tag /each"@)
}

/// The warning for a `with` block.
pub open spec fn with_warning() -> DiagnosticView {
    warning("Handlebars #with blocks are not converted"@)
}

/// The body that the trimmed tag body `tag` is rewritten to, with `stack`
/// holding the open blocks.
pub open spec fn tag_text(tag: Seq<char>, stack: Seq<BlockView>, allow_parent: bool) -> Seq<char> {
    match tag_kind(tag) {
        TagKind::EachOpen => "#for "@ + each_alias(argument(tag, "#each"@)) + " in "@
            + each_expression(argument(tag, "#each"@)),
        TagKind::EachClose => "/for"@,
        TagKind::UnlessOpen => "#if !("@ + argument(tag, "#unless"@) + ")"@,
        TagKind::UnlessClose => "/if"@,
        TagKind::IfOpen => "#if "@ + argument(tag, "#if"@),
        TagKind::IfClose => "/if"@,
        TagKind::Else => "else"@,
        TagKind::With => tag,
        TagKind::Expression => expression_text(tag, innermost_alias(stack), allow_parent),
    }
}

/// The stack of open blocks after the tag: an `#each` pushes its alias, an
/// `/each` pops the innermost block if there is one, and no other tag
/// touches the stack.
pub open spec fn tag_stack(tag: Seq<char>, stack: Seq<BlockView>) -> Seq<BlockView> {
    match tag_kind(tag) {
        TagKind::EachOpen => stack.push(
            BlockView::Each { alias: each_alias(argument(tag, "#each"@)) },
        ),
        TagKind::EachClose => if stack.len() > 0 {
            stack.drop_last()
        } else {
            stack
        },
        _ => stack,
    }
}

/// The diagnostics that the tag adds, in order.
pub open spec fn tag_diagnostics(
    tag: Seq<char>,
    stack: Seq<BlockView>,
    allow_parent: bool,
) -> Seq<DiagnosticView> {
    match tag_kind(tag) {
        TagKind::EachClose => if stack.len() > 0 {
            Seq::empty()
        } else {
            seq![unexpected_close_error()]
        },
        TagKind::With => seq![with_warning()],
        TagKind::Expression => expression_diagnostics(tag, innermost_alias(stack), allow_parent),
        _ => Seq::empty(),
    }
}

/// The alias of the innermost open block.
fn current_alias(stack: &Vec<BlockContext>) -> (r: Option<&str>)
    ensures
        alias_view(r) == innermost_alias(block_views(stack@)),
{
    if stack.len() > 0 {
        match &stack[stack.len() - 1] {
            BlockContext::Each { alias } => Some(alias.as_str()),
        }
    } else {
        None
    }
}

/// What follows the first `n` characters of `tag`, trimmed.
fn argument_of(tag: &[char], n: usize) -> (r: &[char])
    requires
        n <= tag.len(),
    ensures
        r@ == trimmed(tag@.skip(n as int)),
{
    let rest = vstd::slice::slice_subrange(tag, n, tag.len());
    proof {
        assert(rest@ =~= tag@.skip(n as int));
    }
    trim(rest)
}

/// Rewrites the body of one tag, given trimmed and without delimiters.
///
/// The result is the new body, again without delimiters. An `#each` pushes
/// its alias on the stack; an `/each` pops the stack, and is reported as an
/// error where the stack is empty, though it is still rewritten. A `with`
/// tag is left as it is and reported with a warning. A bare expression is
/// resolved against the innermost alias.
pub fn transform_tag(
    tag: &[char],
    stack: &mut Vec<BlockContext>,
    options: &Options,
    diagnostics: &mut Vec<Diagnostic>,
) -> (r: String)
    ensures
        r@ == tag_text(tag@, block_views(old(stack)@), options.allow_parent),
        block_views(final(stack)@) == tag_stack(tag@, block_views(old(stack)@)),
        views(final(diagnostics)@) == views(old(diagnostics)@) + tag_diagnostics(
            tag@,
            block_views(old(stack)@),
            options.allow_parent,
        ),
{
    proof {
        reveal_strlit("#each");
        reveal_strlit("#unless");
        reveal_strlit("#if");
        assert(views(diagnostics@) + Seq::empty() =~= views(diagnostics@));
    }
    match classify(tag) {
        TagKind::EachOpen => {
            let (expr, alias) = parse_each(argument_of(tag, 5));
            let mut out = String::from_str("#for ");
            out.append(alias.as_str());
            out.append(" in ");
            out.append(expr.as_str());
            let context = BlockContext::Each { alias };
            stack.push(context);
            proof {
                assert(block_views(stack@) =~= block_views(old(stack)@).push(context@));
            }
            out
        },
        TagKind::EachClose => {
            if stack.pop().is_none() {
                report(
                    diagnostics,
                    Level::Error,
                    String::from_str("Unexpected closing tag /each"),
                );
            } else {
                proof {
                    assert(block_views(stack@) =~= block_views(old(stack)@).drop_last());
                }
            }
            String::from_str("/for")
        },
        TagKind::UnlessOpen => {
            let mut out = String::from_str("#if !(");
            push_chars(&mut out, argument_of(tag, 7));
            out.append(")");
            out
        },
        TagKind::IfOpen => {
            let mut out = String::from_str("#if ");
            push_chars(&mut out, argument_of(tag, 3));
            out
        },
        TagKind::UnlessClose | TagKind::IfClose => String::from_str("/if"),
        TagKind::Else => String::from_str("else"),
        TagKind::With => {
            report(
                diagnostics,
                Level::Warning,
                String::from_str("Handlebars #with blocks are not converted"),
            );
            to_text(tag)
        },
        TagKind::Expression => {
            let alias = current_alias(stack);
            transform_expression(tag, alias, options, diagnostics)
        },
    }
}

} // verus!
