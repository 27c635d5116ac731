//! The front end as one step: from a registered file to its program tree.

use vstd::prelude::*;
use crate::ast::{Datapack, DatapackV};
use crate::errors::{CompileErrV, CompileResult};
use crate::files::{FileError, FileManager, FileRef};
use crate::lexer::{spec_lex, Lexer, LexRun};
use crate::parser::{spec_parse, Parser};
use crate::parser_laws::{anchored, lemma_parse_fails_in_file};
use crate::tokens::tokens_view;

verus! {

/// The program tree of the text `text` of the file `file`: the tree that the
/// parser reads from the tokens of the text, or the first failure, lexical
/// before syntactic. (The tokens of a whole text are never left unclosed: no
/// closing delimiter is awaited at its end.)
pub open spec fn spec_compile(text: Seq<char>, file: FileRef) -> Result<DatapackV, CompileErrV> {
    match spec_lex(text, file) {
        LexRun::Closed(tokens, _) => spec_parse(tokens, 0),
        LexRun::Unclosed => arbitrary(),
        LexRun::Fail(d) => Err(CompileErrV::Error(d)),
    }
}

/// Tokenizes and parses the file `file`. What the tokenizer produces is
/// always a sequence that the parser accepts as its input, and a failure of
/// either is anchored in `file`, so that `mgr` can render it.
pub fn compile(mgr: &FileManager, file: FileRef) -> (r: Result<CompileResult<Datapack>, FileError>)
    ensures
        !mgr.contains(file) ==> r == Err::<CompileResult<Datapack>, FileError>(
            FileError::OutOfRange,
        ),
        mgr.contains(file) ==> r is Ok && match spec_compile(mgr.text(file), file) {
            Ok(v) => r->Ok_0 is Pass && r->Ok_0->Pass_0@ == v,
            Err(e) => r->Ok_0 is Fail && r->Ok_0->Fail_0@ == e && anchored(e, file),
        },
{
    let mut lexer = match Lexer::new(mgr, file) {
        Ok(lexer) => lexer,
        Err(e) => {
            return Err(e);
        },
    };
    let tokens = match lexer.lex() {
        CompileResult::Pass(tokens) => tokens,
        CompileResult::Fail(e) => {
            return Ok(CompileResult::Fail(e));
        },
    };
    proof {
        lemma_parse_fails_in_file(tokens_view(tokens@), 0, file);
    }
    let mut parser = Parser::new(tokens);
    Ok(parser.parse())
}

} // verus!
