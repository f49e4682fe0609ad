//! What holds of every conversion.

use vstd::prelude::*;
use crate::driver::{
    lemma_step_advances, scan_diagnostics, scan_text, step, transpile_diagnostics,
    transpile_text, unclosed,
};
use crate::model::{BlockView, DiagnosticView};
use crate::scan::{next_tag, opener, TagScan};
use crate::tag::{tag_diagnostics, tag_kind, tag_stack, tag_text, TagKind};
use crate::text::{has_prefix, lemma_first_occurrence, occurs_at};

verus! {

/// Input in which `{{` stands nowhere is returned as it is, with no
/// diagnostics.
pub proof fn lemma_plain_text_unchanged(input: Seq<char>, allow_parent: bool)
    requires
        forall|i: int| !occurs_at(input, opener(false), i),
    ensures
        transpile_text(input, allow_parent) == input,
        transpile_diagnostics(input, allow_parent) == Seq::<DiagnosticView>::empty(),
{
    lemma_first_occurrence(input, opener(false), 0);
    assert(next_tag(input, 0) is Absent);
    assert(input.skip(0) =~= input);
    assert(unclosed(0) =~= Seq::<DiagnosticView>::empty());
}

/// How far a scan has come: what it has written and reported, the blocks
/// that are open, and the offset where it goes on.
pub struct Progress {
    /// The output so far.
    pub text: Seq<char>,
    /// The diagnostics so far.
    pub diagnostics: Seq<DiagnosticView>,
    /// The blocks that are open, innermost last.
    pub stack: Seq<BlockView>,
    /// The offset of the next step; `None` once the scan has ended.
    pub position: Option<int>,
}

/// The scan of `input` after at most `steps` steps. A scan that has ended
/// stays as it is.
pub open spec fn progress(input: Seq<char>, allow_parent: bool, steps: nat) -> Progress
    decreases steps,
{
    if steps == 0 {
        Progress {
            text: Seq::empty(),
            diagnostics: Seq::empty(),
            stack: Seq::empty(),
            position: Some(0),
        }
    } else {
        let before = progress(input, allow_parent, (steps - 1) as nat);
        match before.position {
            None => before,
            Some(from) => {
                let taken = step(input, from, before.stack, allow_parent);
                Progress {
                    text: before.text + taken.text,
                    diagnostics: before.diagnostics + taken.diagnostics,
                    stack: taken.stack,
                    position: taken.next,
                }
            },
        }
    }
}

/// A scan that has not ended after `steps` steps stands at least `steps`
/// characters into the input, and not past its end.
pub proof fn lemma_progress_position(input: Seq<char>, allow_parent: bool, steps: nat)
    ensures
        match progress(input, allow_parent, steps).position {
            Some(from) => steps <= from && from <= input.len(),
            None => true,
        },
    decreases steps,
{
    if steps > 0 {
        let before = progress(input, allow_parent, (steps - 1) as nat);
        lemma_progress_position(input, allow_parent, (steps - 1) as nat);
        if let Some(from) = before.position {
            lemma_step_advances(input, from, before.stack, allow_parent);
        }
    }
}

/// The result of a conversion is what the scan has written and reported
/// after any number of steps, followed by what scanning the rest of the
/// input from the state reached there gives.
pub proof fn lemma_progress_resumes(input: Seq<char>, allow_parent: bool, steps: nat)
    ensures
        match progress(input, allow_parent, steps).position {
            Some(from) => {
                &&& transpile_text(input, allow_parent) == progress(
                    input,
                    allow_parent,
                    steps,
                ).text + scan_text(
                    input,
                    from,
                    progress(input, allow_parent, steps).stack,
                    allow_parent,
                )
                &&& transpile_diagnostics(input, allow_parent) == progress(
                    input,
                    allow_parent,
                    steps,
                ).diagnostics + scan_diagnostics(
                    input,
                    from,
                    progress(input, allow_parent, steps).stack,
                    allow_parent,
                )
            },
            None => {
                &&& transpile_text(input, allow_parent) == progress(
                    input,
                    allow_parent,
                    steps,
                ).text
                &&& transpile_diagnostics(input, allow_parent) == progress(
                    input,
                    allow_parent,
                    steps,
                ).diagnostics
            },
        },
    decreases steps,
{
    let now = progress(input, allow_parent, steps);
    if steps == 0 {
        assert(now.text + transpile_text(input, allow_parent) =~= transpile_text(
            input,
            allow_parent,
        ));
        assert(now.diagnostics + transpile_diagnostics(input, allow_parent)
            =~= transpile_diagnostics(input, allow_parent));
    } else {
        let before = progress(input, allow_parent, (steps - 1) as nat);
        lemma_progress_resumes(input, allow_parent, (steps - 1) as nat);
        lemma_progress_position(input, allow_parent, (steps - 1) as nat);
        if let Some(from) = before.position {
            let taken = step(input, from, before.stack, allow_parent);
            match taken.next {
                Some(next) => {
                    assert(now.text + scan_text(input, next, taken.stack, allow_parent)
                        =~= before.text + (taken.text + scan_text(
                        input,
                        next,
                        taken.stack,
                        allow_parent,
                    )));
                    assert(now.diagnostics + scan_diagnostics(
                        input,
                        next,
                        taken.stack,
                        allow_parent,
                    ) =~= before.diagnostics + (taken.diagnostics + scan_diagnostics(
                        input,
                        next,
                        taken.stack,
                        allow_parent,
                    )));
                },
                None => {},
            }
        }
    }
}

/// Every scan ends: after one step more than the input has characters, the
/// scan has ended, and what it has written and reported by then is the
/// result of the conversion.
pub proof fn lemma_scan_ends(input: Seq<char>, allow_parent: bool)
    ensures
        progress(input, allow_parent, input.len() + 1).position is None,
        transpile_text(input, allow_parent) == progress(
            input,
            allow_parent,
            input.len() + 1,
        ).text,
        transpile_diagnostics(input, allow_parent) == progress(
            input,
            allow_parent,
            input.len() + 1,
        ).diagnostics,
{
    lemma_progress_position(input, allow_parent, input.len() + 1);
    lemma_progress_resumes(input, allow_parent, input.len() + 1);
}

/// Where the scan comes to a tag that opens and never closes, the output is
/// what was written up to there followed by the rest of the input as it
/// stands, and the diagnostics are those reported up to there: nothing is
/// reported for the open tag, nor for blocks that are open at that point.
pub proof fn lemma_unterminated_tail(input: Seq<char>, allow_parent: bool, steps: nat, from: int)
    requires
        progress(input, allow_parent, steps).position == Some(from),
        next_tag(input, from) is Unterminated,
    ensures
        transpile_text(input, allow_parent) == progress(input, allow_parent, steps).text
            + input.skip(from),
        transpile_diagnostics(input, allow_parent) == progress(
            input,
            allow_parent,
            steps,
        ).diagnostics,
{
    lemma_progress_resumes(input, allow_parent, steps);
    lemma_progress_position(input, allow_parent, steps);
    let now = progress(input, allow_parent, steps);
    assert(now.diagnostics + Seq::<DiagnosticView>::empty() =~= now.diagnostics);
}

/// Where the scan comes to the end of the input with blocks still open, the
/// diagnostics end with one error for each of them.
pub proof fn lemma_open_blocks_reported(
    input: Seq<char>,
    allow_parent: bool,
    steps: nat,
    from: int,
)
    requires
        progress(input, allow_parent, steps).position == Some(from),
        next_tag(input, from) is Absent,
    ensures
        transpile_text(input, allow_parent) == progress(input, allow_parent, steps).text
            + input.skip(from),
        transpile_diagnostics(input, allow_parent) == progress(
            input,
            allow_parent,
            steps,
        ).diagnostics + unclosed(progress(input, allow_parent, steps).stack.len()),
{
    lemma_progress_resumes(input, allow_parent, steps);
    lemma_progress_position(input, allow_parent, steps);
}

/// An `/each` tag undoes what the `#each` tag before it did to the stack:
/// the opening tag adds one block, and the closing tag, which is rewritten to
/// `/for` and reported as nothing, leaves the stack as it was before the two.
pub proof fn lemma_each_block_restores_stack(
    open: Seq<char>,
    stack: Seq<BlockView>,
    allow_parent: bool,
)
    requires
        tag_kind(open) == TagKind::EachOpen,
    ensures
        tag_stack(open, stack).len() == stack.len() + 1,
        tag_stack("/each"@, tag_stack(open, stack)) == stack,
        tag_text("/each"@, tag_stack(open, stack), allow_parent) == "/for"@,
        tag_diagnostics("/each"@, tag_stack(open, stack), allow_parent) == Seq::<
            DiagnosticView,
        >::empty(),
{
    reveal_strlit("/each");
    reveal_strlit("#each");
    if has_prefix("/each"@, "#each"@) {
        assert("/each"@.subrange(0, 5)[0] == "#each"@[0]);
    }
    assert(tag_kind("/each"@) == TagKind::EachClose);
    assert(tag_stack(open, stack).drop_last() =~= stack);
}

} // verus!
