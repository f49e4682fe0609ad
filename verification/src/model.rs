//! The data that one conversion works with: diagnostics, options and the
//! contexts of the blocks that are open.

use vstd::prelude::*;

verus! {

/// How serious a diagnostic is. A warning marks a best-effort substitution;
/// an error marks output that may not mean what the source meant.
#[derive(Debug, Clone, Copy, PartialEq, Eq, Structural)]
pub enum Level {
    Warning,
    Error,
}

/// One message about a construct that could not be converted cleanly.
#[derive(Debug, Clone, PartialEq, Eq)]
pub struct Diagnostic {
    pub level: Level,
    pub message: String,
}

/// A diagnostic as contracts see it: its level and the characters of its
/// message.
pub struct DiagnosticView {
    pub level: Level,
    pub message: Seq<char>,
}

impl View for Diagnostic {
    type V = DiagnosticView;

    open spec fn view(&self) -> DiagnosticView {
        DiagnosticView { level: self.level, message: self.message@ }
    }
}

/// The views of a list of diagnostics, in the same order.
pub open spec fn views(diagnostics: Seq<Diagnostic>) -> Seq<DiagnosticView> {
    diagnostics.map_values(|d: Diagnostic| d@)
}

/// A warning with the given message.
pub open spec fn warning(message: Seq<char>) -> DiagnosticView {
    DiagnosticView { level: Level::Warning, message }
}

/// An error with the given message.
pub open spec fn error(message: Seq<char>) -> DiagnosticView {
    DiagnosticView { level: Level::Error, message }
}

/// Appends a diagnostic to the list; those already there keep their places.
pub fn report(diagnostics: &mut Vec<Diagnostic>, level: Level, message: String)
    ensures
        views(final(diagnostics)@) == views(old(diagnostics)@).push(
            DiagnosticView { level, message: message@ },
        ),
{
    let diagnostic = Diagnostic { level, message };
    diagnostics.push(diagnostic);
    proof {
        assert(views(diagnostics@) =~= views(old(diagnostics)@).push(diagnostic@));
    }
}

/// The word that a line for a diagnostic of this level begins with.
pub open spec fn level_label(level: Level) -> Seq<char> {
    match level {
        Level::Warning => "warning"@,
        Level::Error => "error"@,
    }
}

/// The line that shows a diagnostic: its level, a colon, a space and the
/// message.
pub open spec fn rendered(diagnostic: DiagnosticView) -> Seq<char> {
    level_label(diagnostic.level) + ": "@ + diagnostic.message
}

/// Whether one of the diagnostics is an error.
pub open spec fn any_error(diagnostics: Seq<DiagnosticView>) -> bool {
    exists|i: int| 0 <= i < diagnostics.len() && (#[trigger] diagnostics[i]).level == Level::Error
}

impl Diagnostic {
    /// The line that shows this diagnostic to a reader.
    pub fn render(&self) -> (r: String)
        ensures
            r@ == rendered(self@),
    {
        let mut r = match self.level {
            Level::Warning => String::from_str("warning"),
            Level::Error => String::from_str("error"),
        };
        r.append(": ");
        r.append(self.message.as_str());
        r
    }
}

/// Tells whether one of the diagnostics is an error.
pub fn has_error(diagnostics: &[Diagnostic]) -> (r: bool)
    ensures
        r == any_error(views(diagnostics@)),
{
    let mut i: usize = 0;
    while i < diagnostics.len()
        invariant
            i <= diagnostics.len(),
            forall|j: int| 0 <= j < i ==> (#[trigger] views(diagnostics@)[j]).level != Level::Error,
        decreases diagnostics.len() - i,
    {
        match diagnostics[i].level {
            Level::Error => {
                proof {
                    assert(views(diagnostics@)[i as int].level == Level::Error);
                }
                return true;
            },
            Level::Warning => {},
        }
        i += 1;
    }
    false
}

/// What the caller allows.
#[derive(Debug, Clone, Copy)]
pub struct Options {
    /// Whether leading `../` segments are stripped with a warning, rather
    /// than rejected with an error.
    pub allow_parent: bool,
}

/// One open block that scopes the expressions inside it.
#[derive(Debug, Clone)]
pub enum BlockContext {
    /// An iteration block, with the name bound to the current element.
    Each { alias: String },
}

/// A block context as contracts see it.
pub enum BlockView {
    Each { alias: Seq<char> },
}

impl View for BlockContext {
    type V = BlockView;

    open spec fn view(&self) -> BlockView {
        match self {
            BlockContext::Each { alias } => BlockView::Each { alias: alias@ },
        }
    }
}

/// The views of a stack of block contexts, innermost last.
pub open spec fn block_views(stack: Seq<BlockContext>) -> Seq<BlockView> {
    stack.map_values(|b: BlockContext| b@)
}

/// The alias that `this` and `./` resolve to: that of the innermost open
/// block, if any block is open.
pub open spec fn innermost_alias(stack: Seq<BlockView>) -> Option<Seq<char>> {
    if stack.len() > 0 {
        match stack.last() {
            BlockView::Each { alias } => Some(alias),
        }
    } else {
        None
    }
}

} // verus!
