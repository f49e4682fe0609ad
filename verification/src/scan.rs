//! Locating tags: the delimiters of the next tag after an offset, and the
//! tag that closes a named block.

use vstd::prelude::*;
use crate::text::{
    equals, find, first_occurrence, lemma_first_occurrence, matches_at, occurs_at, strip_prefix,
    trim, trimmed,
};

verus! {

/// The delimiter that opens a tag: three braces for a triple tag, two
/// otherwise.
pub open spec fn opener(triple: bool) -> Seq<char> {
    if triple {
        "{{{"@
    } else {
        "{{"@
    }
}

/// The delimiter that closes a tag: three braces for a triple tag, two
/// otherwise.
pub open spec fn closer(triple: bool) -> Seq<char> {
    if triple {
        "}}}"@
    } else {
        "}}"@
    }
}

/// Where a tag stands in the input, by character offsets.
pub struct Span {
    /// Where the opening delimiter begins.
    pub start: int,
    /// Where what stands between the delimiters begins.
    pub body_start: int,
    /// Where the closing delimiter begins.
    pub body_end: int,
    /// The offset just past the closing delimiter.
    pub end: int,
    /// Whether the delimiters have three braces.
    pub triple: bool,
}

impl Span {
    /// Whether the offsets lie in order inside `s`, at or after `from`, with
    /// delimiters of two characters, or three for a triple tag.
    pub open spec fn lies_within(self, s: Seq<char>, from: int) -> bool {
        &&& from <= self.start
        &&& self.body_start == self.start + (if self.triple { 3int } else { 2int })
        &&& self.body_start <= self.body_end
        &&& self.end == self.body_end + (if self.triple { 3int } else { 2int })
        &&& self.end <= s.len()
    }

    /// The tag as it stands in `s`, delimiters included.
    pub open spec fn source(self, s: Seq<char>) -> Seq<char> {
        s.subrange(self.start, self.end)
    }

    /// What stands between the delimiters in `s`, trimmed.
    pub open spec fn body(self, s: Seq<char>) -> Seq<char> {
        trimmed(s.subrange(self.body_start, self.body_end))
    }
}

/// What a search for the next tag finds.
pub enum TagScan {
    /// No opening delimiter stands at or after the offset.
    Absent,
    /// An opening delimiter stands at `start`, and no closing delimiter of
    /// its form follows it.
    Unterminated { start: int },
    /// A whole tag.
    Found(Span),
}

/// The next tag of `s` at or after `from`.
///
/// It begins at the first `{{`. It is a triple tag where a third brace
/// follows, and it ends with the first closing delimiter of its form that
/// stands after the opening one.
pub open spec fn next_tag(s: Seq<char>, from: int) -> TagScan {
    match first_occurrence(s, opener(false), from) {
        None => TagScan::Absent,
        Some(start) => {
            let triple = occurs_at(s, opener(true), start);
            let body_start = start + opener(triple).len();
            match first_occurrence(s, closer(triple), body_start) {
                None => TagScan::Unterminated { start },
                Some(body_end) => TagScan::Found(
                    Span {
                        start,
                        body_start,
                        body_end,
                        end: body_end + closer(triple).len(),
                        triple,
                    },
                ),
            }
        },
    }
}

/// The offsets of a tag that was found lie in order inside the input, at or
/// after the offset searched from.
pub proof fn lemma_next_tag_bounds(s: Seq<char>, from: int)
    requires
        0 <= from,
    ensures
        match next_tag(s, from) {
            TagScan::Absent => true,
            TagScan::Unterminated { start } => from <= start && start + 2 <= s.len(),
            TagScan::Found(span) => span.lies_within(s, from),
        },
{
    reveal_strlit("{{");
    reveal_strlit("{{{");
    reveal_strlit("}}");
    reveal_strlit("}}}");
    lemma_first_occurrence(s, opener(false), from);
    if let Some(start) = first_occurrence(s, opener(false), from) {
        let triple = occurs_at(s, opener(true), start);
        lemma_first_occurrence(s, closer(triple), start + opener(triple).len());
    }
}

/// Where a tag stands in the input, as the scanner holds it.
#[derive(Debug, Clone, Copy, PartialEq, Eq, Structural)]
pub struct TagSpan {
    pub start: usize,
    pub body_start: usize,
    pub body_end: usize,
    pub end: usize,
    pub triple: bool,
}

impl View for TagSpan {
    type V = Span;

    open spec fn view(&self) -> Span {
        Span {
            start: self.start as int,
            body_start: self.body_start as int,
            body_end: self.body_end as int,
            end: self.end as int,
            triple: self.triple,
        }
    }
}

/// What a search for the next tag finds, as the scanner holds it.
#[derive(Debug, Clone, Copy, PartialEq, Eq, Structural)]
pub enum NextTag {
    Absent,
    Unterminated { start: usize },
    Found(TagSpan),
}

impl View for NextTag {
    type V = TagScan;

    open spec fn view(&self) -> TagScan {
        match *self {
            NextTag::Absent => TagScan::Absent,
            NextTag::Unterminated { start } => TagScan::Unterminated { start: start as int },
            NextTag::Found(span) => TagScan::Found(span@),
        }
    }
}

/// Finds the next tag of `s` at or after `from`.
pub fn find_tag(s: &[char], from: usize) -> (r: NextTag)
    requires
        from <= s.len(),
    ensures
        r@ == next_tag(s@, from as int),
        match r {
            NextTag::Found(span) => span@.lies_within(s@, from as int),
            _ => true,
        },
{
    proof {
        reveal_strlit("{{");
        reveal_strlit("{{{");
        reveal_strlit("}}");
        reveal_strlit("}}}");
        lemma_next_tag_bounds(s@, from as int);
    }
    match find(s, from, "{{") {
        None => NextTag::Absent,
        Some(start) => {
            let triple = matches_at(s, start, "{{{");
            let body_start = if triple {
                start + 3
            } else {
                start + 2
            };
            let found = if triple {
                find(s, body_start, "}}}")
            } else {
                find(s, body_start, "}}")
            };
            match found {
                None => NextTag::Unterminated { start },
                Some(body_end) => {
                    let end = if triple {
                        body_end + 3
                    } else {
                        body_end + 2
                    };
                    NextTag::Found(TagSpan { start, body_start, body_end, end, triple })
                },
            }
        },
    }
}

/// What stands between the delimiters of the tag at `span`, trimmed.
pub fn tag_body<'a>(s: &'a [char], span: &TagSpan) -> (r: &'a [char])
    requires
        span@.lies_within(s@, 0),
    ensures
        r@ == span@.body(s@),
{
    trim(vstd::slice::slice_subrange(s, span.body_start, span.body_end))
}

/// The body of the tag that closes the block `name`.
pub open spec fn closing_tag(name: Seq<char>) -> Seq<char> {
    "/"@ + name
}

/// The tag that closes the block `name`, searched from `from`: the first tag
/// at or after that offset whose trimmed body is `/` and the name, given by
/// the offsets where it starts and ends.
///
/// Tags are taken one after the other, each found as `next_tag` finds it.
/// Blocks of the same name that open on the way are not counted: the first
/// closing tag ends the search. A tag without a closing delimiter ends it
/// with `None`.
pub open spec fn block_close(s: Seq<char>, from: int, name: Seq<char>) -> Option<(int, int)>
    decreases s.len() - from,
    via block_close_decreases
{
    if from < 0 {
        None
    } else {
        match next_tag(s, from) {
            TagScan::Found(span) => {
                if span.body(s) == closing_tag(name) {
                    Some((span.start, span.end))
                } else {
                    block_close(s, span.end, name)
                }
            },
            _ => None,
        }
    }
}

#[via_fn]
proof fn block_close_decreases(s: Seq<char>, from: int, name: Seq<char>) {
    if from >= 0 {
        lemma_next_tag_bounds(s, from);
    }
}

/// A closing tag that was found lies after the offset searched from and
/// inside the input.
pub proof fn lemma_block_close_bounds(s: Seq<char>, from: int, name: Seq<char>)
    requires
        0 <= from,
    ensures
        match block_close(s, from, name) {
            Some((start, end)) => from <= start && start < end && end <= s.len(),
            None => true,
        },
    decreases s.len() - from,
{
    lemma_next_tag_bounds(s, from);
    match next_tag(s, from) {
        TagScan::Found(span) => {
            if span.body(s) != closing_tag(name) {
                lemma_block_close_bounds(s, span.end, name);
            }
        },
        _ => {},
    }
}

/// Where a closing tag starts and ends, by character offsets.
#[derive(Debug, Clone, Copy, PartialEq, Eq, Structural)]
pub struct BlockClose {
    pub start: usize,
    pub end: usize,
}

/// Finds the tag that closes the block `name`, searching `source` from
/// `start_index`.
///
/// The result gives the offsets of the first tag, double or triple, whose
/// trimmed body is `/` followed by `name`. Nesting is not tracked.
pub fn find_block_close(source: &[char], start_index: usize, name: &str) -> (r: Option<BlockClose>)
    requires
        start_index <= source.len(),
    ensures
        match r {
            Some(close) => {
                &&& block_close(source@, start_index as int, name@) == Some(
                    (close.start as int, close.end as int),
                )
                &&& start_index <= close.start < close.end <= source.len()
            },
            None => block_close(source@, start_index as int, name@) is None,
        },
{
    let mut index: usize = start_index;
    loop
        invariant
            start_index <= index <= source.len(),
            block_close(source@, start_index as int, name@) == block_close(
                source@,
                index as int,
                name@,
            ),
        decreases source.len() - index,
    {
        match find_tag(source, index) {
            NextTag::Found(span) => {
                if is_closing_tag(tag_body(source, &span), name) {
                    return Some(BlockClose { start: span.start, end: span.end });
                }
                index = span.end;
            },
            _ => {
                return None;
            },
        }
    }
}

/// Whether `body` is `/` followed by `name`.
fn is_closing_tag(body: &[char], name: &str) -> (r: bool)
    ensures
        r == (body@ == closing_tag(name@)),
{
    proof {
        reveal_strlit("/");
    }
    match strip_prefix(body, "/") {
        Some(rest) => {
            proof {
                assert(body@ =~= body@.subrange(0, 1) + body@.skip(1));
                if body@ == closing_tag(name@) {
                    assert(body@.skip(1) =~= name@);
                }
            }
            equals(rest, name)
        },
        None => {
            proof {
                if body@ == closing_tag(name@) {
                    assert(body@.subrange(0, 1) =~= "/"@);
                }
            }
            false
        },
    }
}

} // verus!
