//! The expression rewriter: what a bare expression tag becomes.
//!
//! Leading `../` segments are stripped or rejected, as the options say. Then
//! `this`, `this.` and `./` are resolved against the alias of the innermost
//! open block.

use vstd::prelude::*;
use crate::model::{error, report, views, warning, Diagnostic, DiagnosticView, Level, Options};
use crate::text::{
    decimal, equals, has_prefix, push_chars, push_decimal, starts_with, strip_prefix, to_text,
    trim, trimmed,
};

verus! {

/// The number of `../` segments that `s` begins with.
pub open spec fn parent_segments(s: Seq<char>) -> nat
    decreases s.len(),
    via parent_segments_decreases
{
    if has_prefix(s, "../"@) {
        1 + parent_segments(s.skip("../"@.len() as int))
    } else {
        0
    }
}

#[via_fn]
proof fn parent_segments_decreases(s: Seq<char>) {
    reveal_strlit("../");
}

/// `s` without the `../` segments that it begins with.
pub open spec fn without_parent(s: Seq<char>) -> Seq<char>
    decreases s.len(),
    via without_parent_decreases
{
    if has_prefix(s, "../"@) {
        without_parent(s.skip("../"@.len() as int))
    } else {
        s
    }
}

#[via_fn]
proof fn without_parent_decreases(s: Seq<char>) {
    reveal_strlit("../");
}

/// The warning for `n` stripped parent segments.
pub open spec fn stripped_warning(n: nat) -> DiagnosticView {
    warning("Stripped "@ + decimal(n) + " parent scope segments (../)"@)
}

/// The error for a parent reference that the options do not allow.
pub open spec fn parent_error() -> DiagnosticView {
    error("Parent scope access (../) is not supported in Sline"@)
}

/// The warning for `this` outside every each-block.
pub open spec fn bare_this_warning() -> DiagnosticView {
    warning("Found {{this}} without an each context"@)
}

/// `content` with `this`, `this.` and `./` resolved: against `alias` inside
/// an each-block, by dropping the prefix outside one.
pub open spec fn resolved(content: Seq<char>, alias: Option<Seq<char>>) -> Seq<char> {
    match alias {
        Some(a) => if content == "this"@ {
            a
        } else if has_prefix(content, "this."@) {
            a + "."@ + content.skip("this."@.len() as int)
        } else if has_prefix(content, "./"@) {
            a + "."@ + content.skip("./"@.len() as int)
        } else {
            content
        },
        None => if has_prefix(content, "this."@) {
            content.skip("this."@.len() as int)
        } else if has_prefix(content, "./"@) {
            content.skip("./"@.len() as int)
        } else {
            content
        },
    }
}

/// Whether the parent-scope rule rejects `tag`.
pub open spec fn parent_rejected(tag: Seq<char>, allow_parent: bool) -> bool {
    has_prefix(trimmed(tag), "../"@) && !allow_parent
}

/// What is left of `tag` for alias resolution: trimmed, and without leading
/// `../` segments.
pub open spec fn expression_content(tag: Seq<char>) -> Seq<char> {
    without_parent(trimmed(tag))
}

/// The text that the expression `tag` is rewritten to.
pub open spec fn expression_text(
    tag: Seq<char>,
    alias: Option<Seq<char>>,
    allow_parent: bool,
) -> Seq<char> {
    if parent_rejected(tag, allow_parent) {
        tag
    } else {
        resolved(expression_content(tag), alias)
    }
}

/// The diagnostics that rewriting the expression `tag` adds, in order.
pub open spec fn expression_diagnostics(
    tag: Seq<char>,
    alias: Option<Seq<char>>,
    allow_parent: bool,
) -> Seq<DiagnosticView> {
    if parent_rejected(tag, allow_parent) {
        seq![parent_error()]
    } else {
        let stripped = if has_prefix(trimmed(tag), "../"@) {
            seq![stripped_warning(parent_segments(trimmed(tag)))]
        } else {
            Seq::empty()
        };
        let bare = if alias is None && expression_content(tag) == "this"@ {
            seq![bare_this_warning()]
        } else {
            Seq::empty()
        };
        stripped + bare
    }
}

/// The view of an optional alias.
pub open spec fn alias_view(alias: Option<&str>) -> Option<Seq<char>> {
    match alias {
        Some(a) => Some(a@),
        None => None,
    }
}

/// `content` without its leading `../` segments, and their number.
fn strip_parent_segments(content: &[char]) -> (r: (&[char], usize))
    ensures
        r.0@ == without_parent(content@),
        r.1 == parent_segments(content@),
{
    let mut rest = content;
    let mut count: usize = 0;
    let mut more = starts_with(rest, "../");
    proof {
        reveal_strlit("../");
    }
    while more
        invariant
            "../"@.len() == 3,
            more == has_prefix(rest@, "../"@),
            without_parent(content@) == without_parent(rest@),
            parent_segments(content@) == count + parent_segments(rest@),
            count + rest@.len() <= content@.len(),
        decreases rest@.len(),
    {
        let tail = vstd::slice::slice_subrange(rest, 3, rest.len());
        proof {
            assert(tail@ =~= rest@.skip(3));
            assert(count + 3 <= content.len());
        }
        rest = tail;
        count += 1;
        more = starts_with(rest, "../");
    }
    (rest, count)
}

/// `content` with `this`, `this.` and `./` resolved against `alias`.
fn resolve(content: &[char], alias: Option<&str>) -> (r: String)
    ensures
        r@ == resolved(content@, alias_view(alias)),
{
    let rest = match strip_prefix(content, "this.") {
        Some(rest) => Some(rest),
        None => strip_prefix(content, "./"),
    };
    match alias {
        Some(a) => {
            if equals(content, "this") {
                String::from_str(a)
            } else {
                match rest {
                    Some(rest) => {
                        let mut out = String::from_str(a);
                        out.append(".");
                        push_chars(&mut out, rest);
                        out
                    },
                    None => to_text(content),
                }
            }
        },
        None => match rest {
            Some(rest) => to_text(rest),
            None => to_text(content),
        },
    }
}

/// Rewrites one bare expression.
///
/// A tag that begins, after trimming, with `../` is returned as it came and
/// reported as an error, unless the options allow parent references: then all
/// leading `../` segments are dropped and a warning gives their number. What
/// is left is resolved against `alias`. A `this` that is left with no alias
/// to resolve it stays and is reported with a warning.
pub fn transform_expression(
    tag: &[char],
    alias: Option<&str>,
    options: &Options,
    diagnostics: &mut Vec<Diagnostic>,
) -> (r: String)
    ensures
        r@ == expression_text(tag@, alias_view(alias), options.allow_parent),
        views(final(diagnostics)@) == views(old(diagnostics)@) + expression_diagnostics(
            tag@,
            alias_view(alias),
            options.allow_parent,
        ),
{
    let mut content = trim(tag);
    if starts_with(content, "../") {
        if !options.allow_parent {
            report(
                diagnostics,
                Level::Error,
                String::from_str("Parent scope access (../) is not supported in Sline"),
            );
            return to_text(tag);
        }
        let (rest, count) = strip_parent_segments(content);
        let mut message = String::from_str("Stripped ");
        push_decimal(&mut message, count);
        message.append(" parent scope segments (../)");
        report(diagnostics, Level::Warning, message);
        content = rest;
    }
    if alias.is_none() && equals(content, "this") {
        report(
            diagnostics,
            Level::Warning,
            String::from_str("Found {{this}} without an each context"),
        );
    }
    resolve(content, alias)
}

} // verus!
