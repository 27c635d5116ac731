//! The source registry: every loaded file's path and text, behind stable
//! handles, and the line arithmetic that diagnostics need.

use vstd::prelude::*;
use crate::text::chars_of;

verus! {

/// One registered file.
#[derive(Debug)]
struct SourceFile {
    path: String,
    text: String,
}

/// The registry. Entries can only be appended, so a handle stays valid and
/// keeps naming the same path and text.
#[derive(Debug)]
pub struct FileManager {
    files: Vec<SourceFile>,
}

/// A handle to one registered file.
#[derive(Clone, Copy, Debug, PartialEq, Eq, Structural)]
pub struct FileRef(usize);

/// Why the registry could not answer.
#[derive(Clone, Copy, Debug, PartialEq, Eq, Structural)]
pub enum FileError {
    /// The handle names an entry that the registry does not hold.
    OutOfRange,
    /// The file has fewer lines than the one asked for.
    LineNotFound,
}

/// How many newline characters stand among the first `i` characters of
/// `text` (all of them once `i` passes the end).
pub open spec fn newlines_before(text: Seq<char>, i: int) -> nat
    decreases i,
{
    if i <= 0 {
        0
    } else {
        newlines_before(text, i - 1) + if i - 1 < text.len() && text[i - 1] == '\n' {
            1nat
        } else {
            0nat
        }
    }
}

/// The zero-based number of the last line of `text`: a text with `k` newline
/// characters has the lines `0..=k`.
pub open spec fn last_line(text: Seq<char>) -> nat {
    newlines_before(text, text.len() as int)
}

/// `p` is where line `line` begins: at the start of the text or right behind
/// a newline, with exactly `line` newlines before it.
pub open spec fn is_line_start(text: Seq<char>, line: nat, p: int) -> bool {
    &&& 0 <= p <= text.len()
    &&& newlines_before(text, p) == line
    &&& (p == 0 || text[p - 1] == '\n')
}

/// Among the first `n` characters of `text`, those of line `line`: the
/// characters other than newlines that exactly `line` newlines precede.
pub open spec fn line_chars(text: Seq<char>, line: nat, n: int) -> Seq<char>
    decreases n,
{
    if n <= 0 {
        Seq::empty()
    } else {
        let before = line_chars(text, line, n - 1);
        if n - 1 < text.len() && text[n - 1] != '\n' && newlines_before(text, n - 1) == line {
            before.push(text[n - 1])
        } else {
            before
        }
    }
}

/// The literal text of line `line`, without its newline; empty for a line
/// past the end.
pub open spec fn line_text(text: Seq<char>, line: nat) -> Seq<char> {
    line_chars(text, line, text.len() as int)
}

/// Counting newlines over a longer prefix never gives less.
pub proof fn lemma_newlines_monotone(text: Seq<char>, i: int, j: int)
    requires
        i <= j,
    ensures
        newlines_before(text, i) <= newlines_before(text, j),
    decreases j - i,
{
    if i < j {
        lemma_newlines_monotone(text, i, j - 1);
    }
}

/// Past the end of the text the count of newlines no longer grows.
pub proof fn lemma_newlines_past_end(text: Seq<char>, i: int)
    requires
        i >= text.len(),
    ensures
        newlines_before(text, i) == last_line(text),
    decreases i,
{
    if i > text.len() {
        lemma_newlines_past_end(text, i - 1);
    }
}

/// A line begins at one place only.
pub proof fn lemma_line_start_unique(text: Seq<char>, line: nat, p: int, q: int)
    requires
        is_line_start(text, line, p),
        is_line_start(text, line, q),
    ensures
        p == q,
{
    if p < q {
        lemma_newlines_monotone(text, p, q - 1);
    } else if q < p {
        lemma_newlines_monotone(text, q, p - 1);
    }
}

impl FileRef {
    /// The position of the entry in the registry.
    pub closed spec fn index(self) -> nat {
        self.0 as nat
    }

    /// The text of the file.
    pub fn source<'a>(&self, mgr: &'a FileManager) -> (r: Result<&'a String, FileError>)
        ensures
            mgr.contains(*self) ==> r is Ok && r->Ok_0@ == mgr.text(*self),
            !mgr.contains(*self) ==> r == Err::<&String, FileError>(FileError::OutOfRange),
    {
        if self.0 < mgr.files.len() {
            Ok(&mgr.files[self.0].text)
        } else {
            Err(FileError::OutOfRange)
        }
    }

    /// The path under which the file was registered.
    pub fn path<'a>(&self, mgr: &'a FileManager) -> (r: Result<&'a String, FileError>)
        ensures
            mgr.contains(*self) ==> r is Ok && r->Ok_0@ == mgr.path_of(*self),
            !mgr.contains(*self) ==> r == Err::<&String, FileError>(FileError::OutOfRange),
    {
        if self.0 < mgr.files.len() {
            Ok(&mgr.files[self.0].path)
        } else {
            Err(FileError::OutOfRange)
        }
    }

    /// The literal text of the zero-based line `line`, without its newline. A
    /// line past the end of the file is empty.
    pub fn line_source(&self, mgr: &FileManager, line: usize) -> (r: Result<String, FileError>)
        ensures
            mgr.contains(*self) ==> r is Ok && r->Ok_0@ == line_text(mgr.text(*self), line as nat),
            !mgr.contains(*self) ==> r == Err::<String, FileError>(FileError::OutOfRange),
    {
        let text = match self.source(mgr) {
            Ok(text) => text,
            Err(e) => {
                return Err(e);
            },
        };
        let chars = chars_of(text.as_str());
        let mut line_src = String::new();
        let mut c_line: usize = 0;
        let mut i: usize = 0;
        while i < chars.len()
            invariant
                i <= chars.len(),
                c_line <= i,
                c_line == newlines_before(chars@, i as int),
                line_src@ == line_chars(chars@, line as nat, i as int),
            decreases chars.len() - i,
        {
            let c = chars[i];
            if c == '\n' {
                c_line += 1;
            } else if c_line == line {
                line_src.push(c);
            }
            i += 1;
        }
        Ok(line_src)
    }

    /// The offset of the first character of the zero-based line `line`. A text
    /// with `k` newlines has the lines `0..=k`; the last one may be empty and
    /// then begins at the end of the text.
    pub fn get_line_pos(&self, mgr: &FileManager, line: usize) -> (r: Result<usize, FileError>)
        ensures
            !mgr.contains(*self) ==> r == Err::<usize, FileError>(FileError::OutOfRange),
            mgr.contains(*self) && line <= last_line(mgr.text(*self)) ==> r is Ok && is_line_start(
                mgr.text(*self),
                line as nat,
                r->Ok_0 as int,
            ),
            mgr.contains(*self) && line > last_line(mgr.text(*self)) ==> r == Err::<
                usize,
                FileError,
            >(FileError::LineNotFound),
    {
        let text = match self.source(mgr) {
            Ok(text) => text,
            Err(e) => {
                return Err(e);
            },
        };
        let chars = chars_of(text.as_str());
        let mut c_line: usize = 0;
        let mut i: usize = 0;
        while i < chars.len()
            invariant
                i <= chars.len(),
                c_line <= i,
                c_line <= line,
                mgr.contains(*self),
                chars@ == mgr.text(*self),
                c_line == newlines_before(chars@, i as int),
                i > 0 && chars@[i - 1] != '\n' ==> c_line != line,
            decreases chars.len() - i,
        {
            if c_line == line {
                proof {
                    lemma_newlines_monotone(chars@, i as int, chars@.len() as int);
                }
                return Ok(i);
            }
            if chars[i] == '\n' {
                c_line += 1;
            }
            i += 1;
        }
        if c_line == line {
            Ok(i)
        } else {
            Err(FileError::LineNotFound)
        }
    }
}

impl FileManager {
    /// The number of registered files.
    pub closed spec fn count(&self) -> nat {
        self.files@.len()
    }

    /// Whether `file` names an entry that this registry holds.
    pub open spec fn contains(&self, file: FileRef) -> bool {
        file.index() < self.count()
    }

    /// The text of `file`.
    pub closed spec fn text(&self, file: FileRef) -> Seq<char>
        recommends
            self.contains(file),
    {
        self.files@[file.index() as int].text@
    }

    /// The path of `file`.
    pub closed spec fn path_of(&self, file: FileRef) -> Seq<char>
        recommends
            self.contains(file),
    {
        self.files@[file.index() as int].path@
    }

    /// Every handle that is valid in `self` is valid in `later` and names the
    /// same path and text there.
    pub open spec fn extended_by(&self, later: &FileManager) -> bool {
        &&& self.count() <= later.count()
        &&& forall|file: FileRef| #[trigger]
            self.contains(file) ==> later.text(file) == self.text(file) && later.path_of(file)
                == self.path_of(file)
    }

    /// The number of registered files.
    pub fn len(&self) -> (n: usize)
        ensures
            n == self.count(),
    {
        self.files.len()
    }
}

/// An empty registry.
pub fn init() -> (mgr: FileManager)
    ensures
        mgr.count() == 0,
{
    FileManager { files: Vec::new() }
}

/// Registers a file under `path` with the text `source` and hands out its
/// handle. Earlier handles keep naming the same entries.
pub fn load_file_src(mgr: &mut FileManager, path: &str, source: &str) -> (file: FileRef)
    ensures
        file.index() == old(mgr).count(),
        final(mgr).count() == old(mgr).count() + 1,
        old(mgr).extended_by(final(mgr)),
        final(mgr).contains(file),
        final(mgr).text(file) == source@,
        final(mgr).path_of(file) == path@,
{
    let index = mgr.files.len();
    mgr.files.push(SourceFile { path: path.to_owned(), text: source.to_owned() });
    FileRef(index)
}

/// The handle of the entry at `index`, if the registry holds one there.
pub fn ref_file(mgr: &FileManager, index: usize) -> (r: Result<FileRef, FileError>)
    ensures
        index < mgr.count() ==> r is Ok && r->Ok_0.index() == index,
        index >= mgr.count() ==> r == Err::<FileRef, FileError>(FileError::OutOfRange),
{
    if index < mgr.files.len() {
        Ok(FileRef(index))
    } else {
        Err(FileError::OutOfRange)
    }
}

} // verus!
