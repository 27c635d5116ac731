//! Diagnostics: what a lexical or syntactic failure carries, and the result
//! type through which every failure travels.

use vstd::prelude::*;
use crate::span::SrcScope;

verus! {

/// The kinds of failure that the front end reports.
#[derive(Clone, Copy, Debug, PartialEq, Eq, Structural)]
pub enum ErrorKind {
    /// A string literal without its closing quote.
    UnterminatedString,
    /// An opening delimiter without its closing partner.
    UnmatchedDelimiter,
    /// An integer literal that is not numeric or does not fit 32 bits.
    MalformedInteger,
    /// A character that starts no token.
    IllegalCharacter,
    /// A token other than the one the grammar asks for.
    UnexpectedToken,
    /// A second objective name behind the colon of an argument list.
    MultipleObjectives,
    /// A location behind `at` that is not one of the known ones.
    InvalidLocation,
    /// An inline argument type that is not one of the known ones.
    InvalidArgType,
    /// A top-level item that begins with an unknown word.
    UnknownTopLevelItem,
}

/// A suggested fix: a sentence and a line of example source.
#[derive(Debug)]
pub struct Help {
    pub msg: String,
    pub source: String,
    pub line: usize,
}

/// What a [`Help`] says.
pub ghost struct HelpV {
    pub msg: Seq<char>,
    pub source: Seq<char>,
    pub line: usize,
}

impl View for Help {
    type V = HelpV;

    open spec fn view(&self) -> HelpV {
        HelpV { msg: self.msg@, source: self.source@, line: self.line }
    }
}

impl Clone for Help {
    fn clone(&self) -> (r: Self)
        ensures
            r == *self,
    {
        Help { msg: self.msg.clone(), source: self.source.clone(), line: self.line }
    }
}

/// What the caller of [`error`] or [`warning`] says about a failure.
pub struct ErrorInfo<'a, 'b, 'c> {
    pub kind: ErrorKind,
    pub cause: &'a str,
    pub pointer: &'b str,
    pub context: Option<&'c str>,
    pub help: Option<Help>,
}

/// A failure anchored to a span: its kind, a short cause, the message that
/// goes under the offending source, and optionally the grammatical context
/// and a suggested fix.
#[derive(Debug)]
pub struct Diagnostic {
    pub kind: ErrorKind,
    pub scope: SrcScope,
    pub cause: String,
    pub pointer: String,
    pub context: Option<String>,
    pub help: Option<Help>,
}

/// What a [`Diagnostic`] says.
pub ghost struct DiagnosticV {
    pub kind: ErrorKind,
    pub scope: SrcScope,
    pub cause: Seq<char>,
    pub pointer: Seq<char>,
    pub context: Option<Seq<char>>,
    pub help: Option<HelpV>,
}

/// The characters of an optional string.
pub open spec fn opt_text(o: Option<String>) -> Option<Seq<char>> {
    match o {
        Some(s) => Some(s@),
        None => None,
    }
}

/// The characters of an optional string slice.
pub open spec fn opt_str_text(o: Option<&str>) -> Option<Seq<char>> {
    match o {
        Some(s) => Some(s@),
        None => None,
    }
}

/// What an optional [`Help`] says.
pub open spec fn opt_help(o: Option<Help>) -> Option<HelpV> {
    match o {
        Some(h) => Some(h@),
        None => None,
    }
}

impl View for Diagnostic {
    type V = DiagnosticV;

    open spec fn view(&self) -> DiagnosticV {
        DiagnosticV {
            kind: self.kind,
            scope: self.scope,
            cause: self.cause@,
            pointer: self.pointer@,
            context: opt_text(self.context),
            help: opt_help(self.help),
        }
    }
}

impl<'a, 'b, 'c> ErrorInfo<'a, 'b, 'c> {
    /// The diagnostic that this description gives when anchored at `scope`.
    pub open spec fn at(&self, scope: SrcScope) -> DiagnosticV {
        DiagnosticV {
            kind: self.kind,
            scope,
            cause: self.cause@,
            pointer: self.pointer@,
            context: opt_str_text(self.context),
            help: opt_help(self.help),
        }
    }
}

/// A diagnostic together with its severity.
#[derive(Debug)]
pub enum CompileErr {
    Error(Diagnostic),
    Warning(Diagnostic),
}

/// What a [`CompileErr`] says.
pub ghost enum CompileErrV {
    Error(DiagnosticV),
    Warning(DiagnosticV),
}

impl View for CompileErr {
    type V = CompileErrV;

    open spec fn view(&self) -> CompileErrV {
        match *self {
            CompileErr::Error(d) => CompileErrV::Error(d@),
            CompileErr::Warning(d) => CompileErrV::Warning(d@),
        }
    }
}

impl CompileErr {
    /// The diagnostic, whatever its severity.
    pub open spec fn spec_diagnostic(&self) -> Diagnostic {
        match *self {
            CompileErr::Error(d) => d,
            CompileErr::Warning(d) => d,
        }
    }

    /// The diagnostic, whatever its severity.
    pub fn diagnostic(&self) -> (d: &Diagnostic)
        ensures
            *d == self.spec_diagnostic(),
    {
        match self {
            CompileErr::Error(d) => d,
            CompileErr::Warning(d) => d,
        }
    }

    /// The kind of failure.
    pub fn kind(&self) -> (k: ErrorKind)
        ensures
            k == self.spec_diagnostic().kind,
    {
        self.diagnostic().kind
    }

    /// The span at which the failure is anchored.
    pub fn scope(&self) -> (s: SrcScope)
        ensures
            s == self.spec_diagnostic().scope,
    {
        self.diagnostic().scope
    }

    /// Whether the severity is that of an error.
    pub fn is_error(&self) -> (b: bool)
        ensures
            b == (*self is Error),
    {
        match self {
            CompileErr::Error(_) => true,
            CompileErr::Warning(_) => false,
        }
    }
}

/// The outcome of a step of the front end: a value, or the diagnostic that
/// stopped it.
#[derive(Debug)]
pub enum CompileResult<T> {
    Pass(T),
    Fail(CompileErr),
}

impl<T> CompileResult<T> {
    /// The value of a successful outcome.
    pub fn unwrap(self) -> (t: T)
        requires
            self is Pass,
        ensures
            t == self->Pass_0,
    {
        match self {
            CompileResult::Pass(t) => t,
            CompileResult::Fail(_) => unreached(),
        }
    }

    /// Whether the outcome is a value.
    pub fn is_ok(&self) -> (b: bool)
        ensures
            b == (*self is Pass),
    {
        match self {
            CompileResult::Pass(_) => true,
            CompileResult::Fail(_) => false,
        }
    }

    /// The outcome as a standard `Result`.
    pub fn into_result(self) -> (r: Result<T, CompileErr>)
        ensures
            self is Pass ==> r == Ok::<T, CompileErr>(self->Pass_0),
            self is Fail ==> r == Err::<T, CompileErr>(self->Fail_0),
    {
        match self {
            CompileResult::Pass(t) => Ok(t),
            CompileResult::Fail(e) => Err(e),
        }
    }
}

/// Copies an optional string slice into an owned string.
pub fn own_opt(o: Option<&str>) -> (r: Option<String>)
    ensures
        opt_text(r) == opt_str_text(o),
{
    match o {
        Some(s) => Some(s.to_owned()),
        None => None,
    }
}

/// The diagnostic that `info` describes, anchored at `scope`.
pub fn diagnose(scope: SrcScope, info: ErrorInfo) -> (d: Diagnostic)
    ensures
        d@ == info.at(scope),
{
    Diagnostic {
        kind: info.kind,
        scope,
        cause: info.cause.to_owned(),
        pointer: info.pointer.to_owned(),
        context: own_opt(info.context),
        help: info.help,
    }
}

/// A warning anchored at `scope`.
pub fn warning(scope: SrcScope, info: ErrorInfo) -> (e: CompileErr)
    ensures
        e@ == CompileErrV::Warning(info.at(scope)),
{
    CompileErr::Warning(diagnose(scope, info))
}

/// An error anchored at `scope`.
pub fn error(scope: SrcScope, info: ErrorInfo) -> (e: CompileErr)
    ensures
        e@ == CompileErrV::Error(info.at(scope)),
{
    CompileErr::Error(diagnose(scope, info))
}

} // verus!
