//! The program tree that the parser builds.

use vstd::prelude::*;
use crate::errors::{
    error,
    opt_help,
    opt_str_text,
    CompileErrV,
    CompileResult,
    DiagnosticV,
    ErrorInfo,
    ErrorKind,
    Help,
    HelpV,
};
use crate::span::SrcScope;
use crate::tokens::{tokens_view, Group, GroupV, Ident, Sep, Symbol, TextV, Token, TokenV};

verus! {

/// What each element of a sequence holds.
pub open spec fn views<T: View>(v: Seq<T>) -> Seq<T::V> {
    Seq::new(v.len(), |i: int| v[i]@)
}

/// What an optional value holds.
pub open spec fn opt_view<T: View>(o: Option<T>) -> Option<T::V> {
    match o {
        Some(x) => Some(x@),
        None => None,
    }
}

/// Appending an element appends what it holds.
pub proof fn lemma_views_push<T: View>(v: Seq<T>, x: T)
    ensures
        views(v.push(x)) == views(v).push(x@),
{
    assert(views(v.push(x)) =~= views(v).push(x@));
}

/// Where a function runs.
#[derive(Clone, Copy, Debug, PartialEq, Eq, Structural)]
pub enum AtLoc {
    Player,
    Players,
    Entity,
    Entities,
    Any,
}

/// The type of an inline argument.
#[derive(Clone, Copy, Debug, PartialEq, Eq, Structural)]
pub enum InlineArgType {
    Target,
    Objective,
    Score,
    Int,
}

/// The location that the word `value` names, if it names one.
pub open spec fn spec_at_loc(value: Seq<char>) -> Option<AtLoc> {
    if value == "player"@ {
        Some(AtLoc::Player)
    } else if value == "players"@ {
        Some(AtLoc::Players)
    } else if value == "entity"@ {
        Some(AtLoc::Entity)
    } else if value == "entities"@ {
        Some(AtLoc::Entities)
    } else if value == "any"@ {
        Some(AtLoc::Any)
    } else {
        None
    }
}

/// The inline argument type that the word `value` names, if it names one.
pub open spec fn spec_inline_arg_type(value: Seq<char>) -> Option<InlineArgType> {
    if value == "target"@ {
        Some(InlineArgType::Target)
    } else if value == "objective"@ {
        Some(InlineArgType::Objective)
    } else if value == "score"@ {
        Some(InlineArgType::Score)
    } else if value == "int"@ {
        Some(InlineArgType::Int)
    } else {
        None
    }
}

/// The failure that reports the word `ident` where a location was asked for.
pub open spec fn spec_invalid_location(
    ident: TextV,
    context: Option<Seq<char>>,
    help: Option<HelpV>,
) -> CompileErrV {
    CompileErrV::Error(
        DiagnosticV {
            kind: ErrorKind::InvalidLocation,
            scope: ident.scope,
            cause: "invalid `location`"@,
            pointer: "expected one of `player`, `players`, `entity`, `entities`, or `any`"@,
            context,
            help,
        },
    )
}

/// The failure that reports the word `ident` where an inline argument type
/// was asked for.
pub open spec fn spec_invalid_arg_type(
    ident: TextV,
    context: Option<Seq<char>>,
    help: Option<HelpV>,
) -> CompileErrV {
    CompileErrV::Error(
        DiagnosticV {
            kind: ErrorKind::InvalidArgType,
            scope: ident.scope,
            cause: "invalid `type`"@,
            pointer: "expected one of `target`, `objective`, `score`, or `int`"@,
            context,
            help,
        },
    )
}

impl AtLoc {
    /// The location that `ident` names.
    pub fn parse(ident: &Ident, context: Option<&str>, help: Option<Help>) -> (r: CompileResult<Self>)
        ensures
            match spec_at_loc(ident.value@) {
                Some(loc) => r == CompileResult::Pass(loc),
                None => r is Fail && r->Fail_0@ == spec_invalid_location(
                    ident@,
                    opt_str_text(context),
                    opt_help(help),
                ),
            },
    {
        let value = ident.value.as_str();
        if value.eq("player") {
            CompileResult::Pass(AtLoc::Player)
        } else if value.eq("players") {
            CompileResult::Pass(AtLoc::Players)
        } else if value.eq("entity") {
            CompileResult::Pass(AtLoc::Entity)
        } else if value.eq("entities") {
            CompileResult::Pass(AtLoc::Entities)
        } else if value.eq("any") {
            CompileResult::Pass(AtLoc::Any)
        } else {
            CompileResult::Fail(
                error(
                    ident.scope,
                    ErrorInfo {
                        kind: ErrorKind::InvalidLocation,
                        cause: "invalid `location`",
                        pointer: "expected one of `player`, `players`, `entity`, `entities`, or `any`",
                        context,
                        help,
                    },
                ),
            )
        }
    }
}

impl InlineArgType {
    /// The inline argument type that `ident` names.
    pub fn parse(ident: &Ident, context: Option<&str>, help: Option<Help>) -> (r: CompileResult<Self>)
        ensures
            match spec_inline_arg_type(ident.value@) {
                Some(ty) => r == CompileResult::Pass(ty),
                None => r is Fail && r->Fail_0@ == spec_invalid_arg_type(
                    ident@,
                    opt_str_text(context),
                    opt_help(help),
                ),
            },
    {
        let value = ident.value.as_str();
        if value.eq("target") {
            CompileResult::Pass(InlineArgType::Target)
        } else if value.eq("objective") {
            CompileResult::Pass(InlineArgType::Objective)
        } else if value.eq("score") {
            CompileResult::Pass(InlineArgType::Score)
        } else if value.eq("int") {
            CompileResult::Pass(InlineArgType::Int)
        } else {
            CompileResult::Fail(
                error(
                    ident.scope,
                    ErrorInfo {
                        kind: ErrorKind::InvalidArgType,
                        cause: "invalid `type`",
                        pointer: "expected one of `target`, `objective`, `score`, or `int`",
                        context,
                        help,
                    },
                ),
            )
        }
    }
}

/// A path of identifiers with the separators between them.
#[derive(Debug)]
pub struct Path {
    pub parts: Vec<Ident>,
    pub seps: Vec<Sep>,
}

/// What a [`Path`] holds.
pub ghost struct PathV {
    pub parts: Seq<TextV>,
    pub seps: Seq<Sep>,
}

impl View for Path {
    type V = PathV;

    open spec fn view(&self) -> PathV {
        PathV { parts: views(self.parts@), seps: self.seps@ }
    }
}

impl Path {
    /// The path of the one identifier `part`.
    pub fn new(part: Ident) -> (path: Self)
        ensures
            path@ == (PathV { parts: seq![part@], seps: Seq::empty() }),
    {
        let mut path = Path { parts: Vec::new(), seps: Vec::new() };
        path.parts.push(part);
        assert(views(path.parts@) =~= seq![part@]);
        path
    }

    /// Extends the path by the separator `sep` and the identifier `part`.
    pub fn push_part(&mut self, sep: Sep, part: Ident)
        ensures
            final(self)@ == (PathV {
                parts: old(self)@.parts.push(part@),
                seps: old(self)@.seps.push(sep),
            }),
    {
        proof {
            lemma_views_push(self.parts@, part);
        }
        self.seps.push(sep);
        self.parts.push(part);
    }
}

/// A run of raw tokens of an `unsafe` block, up to a semicolon.
#[derive(Debug)]
pub struct UnsafeCmd {
    pub tokens: Vec<Token>,
    pub sep: Option<Sep>,
}

/// The raw tokens of one argument of a call, up to a comma.
#[derive(Debug)]
pub struct Arg {
    pub tokens: Vec<Token>,
    pub sep: Option<Sep>,
}

/// What a run of raw tokens holds: the tokens, and the separator that ended
/// the run, if one did.
pub ghost struct RunV {
    pub tokens: Seq<TokenV>,
    pub sep: Option<Sep>,
}

impl View for UnsafeCmd {
    type V = RunV;

    open spec fn view(&self) -> RunV {
        RunV { tokens: tokens_view(self.tokens@), sep: self.sep }
    }
}

impl View for Arg {
    type V = RunV;

    open spec fn view(&self) -> RunV {
        RunV { tokens: tokens_view(self.tokens@), sep: self.sep }
    }
}

impl UnsafeCmd {
    /// An empty run.
    pub fn new() -> (cmd: Self)
        ensures
            cmd@ == (RunV { tokens: Seq::empty(), sep: None }),
    {
        let cmd = UnsafeCmd { tokens: Vec::new(), sep: None };
        assert(tokens_view(cmd.tokens@) =~= Seq::empty());
        cmd
    }
}

impl Arg {
    /// An empty run.
    pub fn new() -> (arg: Self)
        ensures
            arg@ == (RunV { tokens: Seq::empty(), sep: None }),
    {
        let arg = Arg { tokens: Vec::new(), sep: None };
        assert(tokens_view(arg.tokens@) =~= Seq::empty());
        arg
    }
}

/// A call: the path of what is called, and the arguments between
/// parentheses.
#[derive(Debug)]
pub struct Call {
    pub path: Path,
    pub group: Group,
    pub args: Vec<Arg>,
}

/// What a [`Call`] holds.
pub ghost struct CallV {
    pub path: PathV,
    pub group: GroupV,
    pub args: Seq<RunV>,
}

impl View for Call {
    type V = CallV;

    open spec fn view(&self) -> CallV {
        CallV { path: self.path@, group: self.group@, args: views(self.args@) }
    }
}

/// An `unsafe` block: raw commands that the parser does not interpret.
#[derive(Debug)]
pub struct Unsafe {
    pub ident: Ident,
    pub block: Group,
    pub commands: Vec<UnsafeCmd>,
}

/// What an [`Unsafe`] holds.
pub ghost struct UnsafeV {
    pub ident: TextV,
    pub block: GroupV,
    pub commands: Seq<RunV>,
}

impl View for Unsafe {
    type V = UnsafeV;

    open spec fn view(&self) -> UnsafeV {
        UnsafeV { ident: self.ident@, block: self.block@, commands: views(self.commands@) }
    }
}

/// A pipe: the result of a call bound to a name.
#[derive(Debug)]
pub struct Pipe {
    pub symbol: Sep,
    pub name: Ident,
    pub equals: Symbol,
    pub call: Call,
}

/// What a [`Pipe`] holds.
pub ghost struct PipeV {
    pub symbol: Sep,
    pub name: TextV,
    pub equals: TextV,
    pub call: CallV,
}

impl View for Pipe {
    type V = PipeV;

    open spec fn view(&self) -> PipeV {
        PipeV { symbol: self.symbol, name: self.name@, equals: self.equals@, call: self.call@ }
    }
}

/// An `at` modifier: the word `at` and the location behind it.
#[derive(Debug)]
pub struct At {
    pub ident: Ident,
    pub loc: AtLoc,
    pub loc_scope: SrcScope,
}

/// What an [`At`] holds.
pub ghost struct AtV {
    pub ident: TextV,
    pub loc: AtLoc,
    pub loc_scope: SrcScope,
}

impl View for At {
    type V = AtV;

    open spec fn view(&self) -> AtV {
        AtV { ident: self.ident@, loc: self.loc, loc_scope: self.loc_scope }
    }
}

/// A guarded block: the statements run where the call holds.
#[derive(Debug)]
pub struct If {
    pub call: Call,
    pub statements: Vec<Statement>,
}

/// A statement of a function body.
#[derive(Debug)]
pub enum Statement {
    Unsafe(Unsafe),
    Call(Call),
    Pipe(Pipe),
    If(If),
    At(At),
}

/// What an [`If`] holds.
pub ghost struct IfV {
    pub call: CallV,
    pub statements: Seq<StatementV>,
}

/// What a [`Statement`] holds.
pub ghost enum StatementV {
    Unsafe(UnsafeV),
    Call(CallV),
    Pipe(PipeV),
    If(IfV),
    At(AtV),
}

/// What each statement of a sequence holds.
pub open spec fn statements_view(v: Seq<Statement>) -> Seq<StatementV>
    decreases v,
{
    Seq::new(
        v.len(),
        |i: int|
            if 0 <= i < v.len() {
                statement_view(v[i])
            } else {
                arbitrary()
            },
    )
}

/// What a statement holds.
pub open spec fn statement_view(s: Statement) -> StatementV
    decreases s,
{
    match s {
        Statement::Unsafe(e) => StatementV::Unsafe(e@),
        Statement::Call(e) => StatementV::Call(e@),
        Statement::Pipe(e) => StatementV::Pipe(e@),
        Statement::If(e) => StatementV::If(
            IfV { call: e.call@, statements: statements_view(e.statements@) },
        ),
        Statement::At(e) => StatementV::At(e@),
    }
}

impl View for If {
    type V = IfV;

    open spec fn view(&self) -> IfV {
        IfV { call: self.call@, statements: statements_view(self.statements@) }
    }
}

impl View for Statement {
    type V = StatementV;

    open spec fn view(&self) -> StatementV {
        statement_view(*self)
    }
}

/// Appending a statement appends what it holds.
pub proof fn lemma_statements_view_push(v: Seq<Statement>, s: Statement)
    ensures
        statements_view(v.push(s)) == statements_view(v).push(s@),
{
    assert(statements_view(v.push(s)) =~= statements_view(v).push(s@));
}

/// The arguments of a function: inputs before the arrow, outputs behind it,
/// and the objective behind the colon.
#[derive(Debug)]
pub struct FunArgs {
    pub parens: SrcScope,
    pub input: Vec<Ident>,
    pub arrow: Option<SrcScope>,
    pub output: Vec<Ident>,
    pub colon: Option<SrcScope>,
    pub objective: Option<Ident>,
}

/// What a [`FunArgs`] holds.
pub ghost struct FunArgsV {
    pub parens: SrcScope,
    pub input: Seq<TextV>,
    pub arrow: Option<SrcScope>,
    pub output: Seq<TextV>,
    pub colon: Option<SrcScope>,
    pub objective: Option<TextV>,
}

impl View for FunArgs {
    type V = FunArgsV;

    open spec fn view(&self) -> FunArgsV {
        FunArgsV {
            parens: self.parens,
            input: views(self.input@),
            arrow: self.arrow,
            output: views(self.output@),
            colon: self.colon,
            objective: opt_view(self.objective),
        }
    }
}

/// A function declaration. The body is kept as the group of its raw tokens.
#[derive(Debug)]
pub struct Function {
    pub keyword: Ident,
    pub name: Ident,
    pub args: FunArgs,
    pub block: Group,
    pub at: Option<At>,
}

/// What a [`Function`] holds.
pub ghost struct FunctionV {
    pub keyword: TextV,
    pub name: TextV,
    pub args: FunArgsV,
    pub block: GroupV,
    pub at: Option<AtV>,
}

impl View for Function {
    type V = FunctionV;

    open spec fn view(&self) -> FunctionV {
        FunctionV {
            keyword: self.keyword@,
            name: self.name@,
            args: self.args@,
            block: self.block@,
            at: opt_view(self.at),
        }
    }
}

/// A scoreboard declaration.
#[derive(Debug)]
pub struct Scoreboard {
    pub keyword: Ident,
    pub objective: Ident,
    pub name: Ident,
    pub semi_colon: SrcScope,
}

/// What a [`Scoreboard`] holds.
pub ghost struct ScoreboardV {
    pub keyword: TextV,
    pub objective: TextV,
    pub name: TextV,
    pub semi_colon: SrcScope,
}

impl View for Scoreboard {
    type V = ScoreboardV;

    open spec fn view(&self) -> ScoreboardV {
        ScoreboardV {
            keyword: self.keyword@,
            objective: self.objective@,
            name: self.name@,
            semi_colon: self.semi_colon,
        }
    }
}

/// One argument of an inline declaration.
#[derive(Debug)]
pub struct InlineArg {
    pub name: Ident,
    pub colon: SrcScope,
    pub ty: InlineArgType,
    pub ty_scope: SrcScope,
    pub sep: Option<Sep>,
}

/// What an [`InlineArg`] holds.
pub ghost struct InlineArgV {
    pub name: TextV,
    pub colon: SrcScope,
    pub ty: InlineArgType,
    pub ty_scope: SrcScope,
    pub sep: Option<Sep>,
}

impl View for InlineArg {
    type V = InlineArgV;

    open spec fn view(&self) -> InlineArgV {
        InlineArgV {
            name: self.name@,
            colon: self.colon,
            ty: self.ty,
            ty_scope: self.ty_scope,
            sep: self.sep,
        }
    }
}

/// An inline declaration. The body is kept as the group of its raw tokens.
#[derive(Debug)]
pub struct Inline {
    pub keyword: Ident,
    pub name: Ident,
    pub args: Vec<InlineArg>,
    pub parens: SrcScope,
    pub block: Group,
}

/// What an [`Inline`] holds.
pub ghost struct InlineV {
    pub keyword: TextV,
    pub name: TextV,
    pub args: Seq<InlineArgV>,
    pub parens: SrcScope,
    pub block: GroupV,
}

impl View for Inline {
    type V = InlineV;

    open spec fn view(&self) -> InlineV {
        InlineV {
            keyword: self.keyword@,
            name: self.name@,
            args: views(self.args@),
            parens: self.parens,
            block: self.block@,
        }
    }
}

/// The root of the program tree.
#[derive(Debug)]
pub struct Datapack {
    pub name: Ident,
    pub functions: Vec<Function>,
    pub scoreboards: Vec<Scoreboard>,
    pub inlines: Vec<Inline>,
}

/// What a [`Datapack`] holds.
pub ghost struct DatapackV {
    pub name: TextV,
    pub functions: Seq<FunctionV>,
    pub scoreboards: Seq<ScoreboardV>,
    pub inlines: Seq<InlineV>,
}

impl View for Datapack {
    type V = DatapackV;

    open spec fn view(&self) -> DatapackV {
        DatapackV {
            name: self.name@,
            functions: views(self.functions@),
            scoreboards: views(self.scoreboards@),
            inlines: views(self.inlines@),
        }
    }
}

/// The datapack `name` without any item.
pub open spec fn spec_empty_datapack(name: TextV) -> DatapackV {
    DatapackV {
        name,
        functions: Seq::empty(),
        scoreboards: Seq::empty(),
        inlines: Seq::empty(),
    }
}

impl Datapack {
    /// The datapack `name` without any item.
    pub fn empty(name: Ident) -> (d: Self)
        ensures
            d@ == spec_empty_datapack(name@),
    {
        let d = Datapack {
            name,
            functions: Vec::new(),
            scoreboards: Vec::new(),
            inlines: Vec::new(),
        };
        assert(views(d.functions@) =~= Seq::empty());
        assert(views(d.scoreboards@) =~= Seq::empty());
        assert(views(d.inlines@) =~= Seq::empty());
        d
    }
}

} // verus!
