//! Spans: contiguous character ranges of one registered file.

use vstd::prelude::*;
use crate::files::{
    lemma_newlines_past_end,
    newlines_before,
    FileError,
    FileManager,
    FileRef,
};
use crate::text::chars_of;

verus! {

/// The characters `start..end` of the file `file`, counted in characters.
#[derive(Clone, Copy, Debug, PartialEq, Eq, Structural)]
pub struct SrcScope {
    pub start: usize,
    pub end: usize,
    pub file: FileRef,
}

/// The line set of the span `start..end` of `text`: the line on which `start`
/// falls, then the line that begins behind each newline strictly between
/// `start` and `end`.
pub open spec fn span_lines(text: Seq<char>, start: int, end: int) -> Seq<nat>
    decreases end,
{
    if end <= start + 1 || end <= 0 {
        seq![newlines_before(text, start)]
    } else {
        let before = span_lines(text, start, end - 1);
        if end - 1 < text.len() && text[end - 1] == '\n' {
            before.push(newlines_before(text, end))
        } else {
            before
        }
    }
}

/// Behind the end of the text a span crosses no further line.
pub proof fn lemma_span_lines_past_end(text: Seq<char>, start: int, from: int, end: int)
    requires
        text.len() <= from <= end,
    ensures
        span_lines(text, start, end) == span_lines(text, start, from),
    decreases end - from,
{
    if from < end {
        lemma_span_lines_past_end(text, start, from, end - 1);
    }
}

/// A span always covers at least the line on which it starts, and that line
/// comes first.
pub proof fn lemma_span_lines_first(text: Seq<char>, start: int, end: int)
    ensures
        span_lines(text, start, end).len() >= 1,
        span_lines(text, start, end)[0] == newlines_before(text, start),
    decreases end,
{
    if !(end <= start + 1 || end <= 0) {
        lemma_span_lines_first(text, start, end - 1);
    }
}

impl SrcScope {
    /// The span does not end before it starts.
    pub open spec fn wf(&self) -> bool {
        self.start <= self.end
    }

    /// The span from the start of `self` to the end of `other`, where both
    /// lie in one file.
    pub open spec fn spec_join(self, other: SrcScope) -> Option<SrcScope> {
        if self.file == other.file {
            Some(SrcScope { start: self.start, end: other.end, file: self.file })
        } else {
            None
        }
    }

    /// Joins `self` with a span `other` that follows it in the same file into
    /// the span that covers both. Spans of different files are rejected.
    pub fn join(&self, other: &Self) -> (r: Option<Self>)
        ensures
            r == self.spec_join(*other),
            r is None <==> self.file != other.file,
            self.file == other.file && self.wf() && other.wf() && self.start <= other.start
                ==> r->Some_0.wf(),
    {
        if self.file == other.file {
            Some(SrcScope { start: self.start, end: other.end, file: self.file })
        } else {
            None
        }
    }

    /// The zero-based lines that the span covers, in ascending order: one line
    /// or several, never none.
    pub fn lines(&self, mgr: &FileManager) -> (r: Result<Vec<usize>, FileError>)
        ensures
            !mgr.contains(self.file) ==> r == Err::<Vec<usize>, FileError>(FileError::OutOfRange),
            mgr.contains(self.file) ==> r is Ok && ({
                let lines = span_lines(mgr.text(self.file), self.start as int, self.end as int);
                &&& r->Ok_0@.len() == lines.len()
                &&& forall|k: int| 0 <= k < lines.len() ==> (#[trigger] r->Ok_0@[k]) as nat == lines[k]
            }),
    {
        let text = match self.file.source(mgr) {
            Ok(text) => text,
            Err(e) => {
                return Err(e);
            },
        };
        let chars = chars_of(text.as_str());
        let n = chars.len();
        let first_stop = if self.start < n {
            self.start
        } else {
            n
        };
        let mut lines: Vec<usize> = Vec::new();
        let mut line: usize = 0;
        let mut i: usize = 0;
        while i < first_stop
            invariant
                i <= first_stop <= n,
                n == chars.len(),
                line <= i,
                line == newlines_before(chars@, i as int),
            decreases first_stop - i,
        {
            if chars[i] == '\n' {
                line += 1;
            }
            i += 1;
        }
        proof {
            if self.start >= n {
                lemma_newlines_past_end(chars@, n as int);
                lemma_newlines_past_end(chars@, self.start as int);
            }
        }
        lines.push(line);
        let ghost text_seq = chars@;
        let ghost start = self.start as int;
        if self.start < n {
            if chars[self.start] == '\n' {
                line += 1;
            }
            i = self.start + 1;
            let last_stop = if self.end < n {
                self.end
            } else {
                n
            };
            while i < last_stop
                invariant
                    start < i <= n,
                    last_stop <= n,
                    i <= last_stop || i == start + 1,
                    n == chars.len(),
                    text_seq == chars@,
                    line <= i,
                    line == newlines_before(text_seq, i as int),
                    lines@.len() == span_lines(text_seq, start, i as int).len(),
                    forall|k: int|
                        0 <= k < lines@.len() ==> (#[trigger] lines@[k]) as nat == span_lines(
                            text_seq,
                            start,
                            i as int,
                        )[k],
                decreases n - i,
            {
                if chars[i] == '\n' {
                    line += 1;
                    lines.push(line);
                }
                i += 1;
            }
            proof {
                if self.end > n {
                    lemma_span_lines_past_end(text_seq, start, n as int, self.end as int);
                }
                if self.end <= self.start {
                    lemma_span_lines_upto_start(text_seq, start, self.end as int);
                    lemma_span_lines_upto_start(text_seq, start, start + 1);
                }
                assert(span_lines(text_seq, start, i as int) == span_lines(
                    text_seq,
                    start,
                    self.end as int,
                ));
            }
        } else {
            proof {
                if self.end > n {
                    lemma_span_lines_past_end(text_seq, start, n as int, self.end as int);
                }
                lemma_span_lines_upto_start(text_seq, start, self.end as int);
                assert(lines@.len() == 1);
                assert(lines@[0] as nat == newlines_before(text_seq, start));
            }
        }
        Ok(lines)
    }

    /// The number of characters in the span.
    pub fn len(&self) -> (n: usize)
        requires
            self.wf(),
        ensures
            n == self.end - self.start,
    {
        self.end - self.start
    }
}

/// A span that ends no later than one character behind its start covers the
/// line of its start alone.
pub proof fn lemma_span_lines_upto_start(text: Seq<char>, start: int, end: int)
    requires
        end <= start + 1 || start >= text.len(),
    ensures
        span_lines(text, start, end) == seq![newlines_before(text, start)],
    decreases end,
{
    if !(end <= start + 1 || end <= 0) {
        lemma_span_lines_upto_start(text, start, end - 1);
    }
}

} // verus!
