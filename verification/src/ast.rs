//! Syntax tree for the source language, as handed over by the external
//! parser: identifiers with their source byte offsets, values, the six
//! comparisons, arithmetic expressions, commands, and declarations.
use vstd::prelude::*;

verus! {

/// Machine word of the target: an unbounded-precision natural in the
/// virtual machine, bounded here by what a literal can hold.
pub type Num = u64;

/// A textual name together with the byte offset of its occurrence in the
/// source; the offset is carried only for diagnostics.
pub type SourceIdent = (String, usize);

/// An identifier occurrence: a scalar reference, an array element with a
/// fixed index, or an array element indexed by another identifier.
#[derive(Debug)]
pub enum Identifier {
    Base(SourceIdent),
    NumIndexed(SourceIdent, Num),
    PidIndexed(SourceIdent, SourceIdent),
}

/// A value position: a numeric literal or an identifier occurrence.
#[derive(Debug)]
pub enum Value {
    Num(Num),
    Id(Identifier),
}

/// The six comparisons of the source language.
#[derive(Debug)]
pub enum Condition {
    Equal(Value, Value),
    NotEqual(Value, Value),
    Greater(Value, Value),
    Lower(Value, Value),
    GreaterOrEqual(Value, Value),
    LowerOrEqual(Value, Value),
}

/// The five arithmetic forms, or a bare value.
#[derive(Debug)]
pub enum Expression {
    Value(Value),
    Add(Value, Value),
    Sub(Value, Value),
    Mul(Value, Value),
    Div(Value, Value),
    Mod(Value, Value),
}

/// The command forms: assignment, two-armed conditional, pre-test loop,
/// post-test loop, procedure call, read, write.
#[derive(Debug)]
pub enum Command {
    Assign(Identifier, Expression),
    If(Condition, Commands, Option<Commands>),
    While(Condition, Commands),
    Repeat(Commands, Condition),
    ProcCall(ProcedureCall),
    Read(Identifier),
    Write(Value),
}

/// A formal parameter of a procedure, tagged scalar (`Base`) or array
/// (`Table`).
#[derive(Debug)]
pub enum ArgumentsDeclarationVariant {
    Base(SourceIdent),
    Table(SourceIdent),
}

/// A variable declaration: a scalar, or an array with its fixed length.
#[derive(Debug)]
pub enum DeclarationVariant {
    Base(SourceIdent),
    NumIndexed(SourceIdent, Num),
}

/// Mathematical view of a `SourceIdent`: the name as a character
/// sequence, with its byte offset.
pub type IdV = (Seq<char>, usize);

/// View of an `Identifier`.
pub enum IdentifierV {
    Base(IdV),
    NumIndexed(IdV, Num),
    PidIndexed(IdV, IdV),
}

/// View of a `Value`.
pub enum ValueV {
    Num(Num),
    Id(IdentifierV),
}

/// View of a `Condition`.
pub enum ConditionV {
    Equal(ValueV, ValueV),
    NotEqual(ValueV, ValueV),
    Greater(ValueV, ValueV),
    Lower(ValueV, ValueV),
    GreaterOrEqual(ValueV, ValueV),
    LowerOrEqual(ValueV, ValueV),
}

/// View of an `Expression`.
pub enum ExpressionV {
    Value(ValueV),
    Add(ValueV, ValueV),
    Sub(ValueV, ValueV),
    Mul(ValueV, ValueV),
    Div(ValueV, ValueV),
    Mod(ValueV, ValueV),
}

/// View of a `Command`.
pub enum CommandV {
    Assign(IdentifierV, ExpressionV),
    If(ConditionV, Seq<CommandV>, Option<Seq<CommandV>>),
    While(ConditionV, Seq<CommandV>),
    Repeat(Seq<CommandV>, ConditionV),
    ProcCall(IdV, Seq<IdV>),
    Read(IdentifierV),
    Write(ValueV),
}

/// View of an `ArgumentsDeclarationVariant`.
pub enum ArgDeclV {
    Base(IdV),
    Table(IdV),
}

/// View of a `DeclarationVariant`.
pub enum DeclV {
    Base(IdV),
    NumIndexed(IdV, Num),
}

impl View for Identifier {
    type V = IdentifierV;

    open spec fn view(&self) -> IdentifierV {
        match self {
            Identifier::Base(id) => IdentifierV::Base(id@),
            Identifier::NumIndexed(id, n) => IdentifierV::NumIndexed(id@, *n),
            Identifier::PidIndexed(id, ix) => IdentifierV::PidIndexed(id@, ix@),
        }
    }
}

impl View for Value {
    type V = ValueV;

    open spec fn view(&self) -> ValueV {
        match self {
            Value::Num(n) => ValueV::Num(*n),
            Value::Id(id) => ValueV::Id(id@),
        }
    }
}

impl View for Condition {
    type V = ConditionV;

    open spec fn view(&self) -> ConditionV {
        match self {
            Condition::Equal(a, b) => ConditionV::Equal(a@, b@),
            Condition::NotEqual(a, b) => ConditionV::NotEqual(a@, b@),
            Condition::Greater(a, b) => ConditionV::Greater(a@, b@),
            Condition::Lower(a, b) => ConditionV::Lower(a@, b@),
            Condition::GreaterOrEqual(a, b) => ConditionV::GreaterOrEqual(a@, b@),
            Condition::LowerOrEqual(a, b) => ConditionV::LowerOrEqual(a@, b@),
        }
    }
}

impl View for Expression {
    type V = ExpressionV;

    open spec fn view(&self) -> ExpressionV {
        match self {
            Expression::Value(v) => ExpressionV::Value(v@),
            Expression::Add(a, b) => ExpressionV::Add(a@, b@),
            Expression::Sub(a, b) => ExpressionV::Sub(a@, b@),
            Expression::Mul(a, b) => ExpressionV::Mul(a@, b@),
            Expression::Div(a, b) => ExpressionV::Div(a@, b@),
            Expression::Mod(a, b) => ExpressionV::Mod(a@, b@),
        }
    }
}

/// View of a command, spelled out so that the recursion through the
/// command lists is structural.
pub open spec fn cmd_view(c: Command) -> CommandV
    decreases c,
{
    match c {
        Command::Assign(id, e) => CommandV::Assign(id@, e@),
        Command::If(cond, cs, els) => CommandV::If(
            cond@,
            cmds_view(cs@),
            match els {
                Some(e) => Some(cmds_view(e@)),
                None => None,
            },
        ),
        Command::While(cond, cs) => CommandV::While(cond@, cmds_view(cs@)),
        Command::Repeat(cs, cond) => CommandV::Repeat(cmds_view(cs@), cond@),
        Command::ProcCall((name, args)) => CommandV::ProcCall(name@, ids_view(args@)),
        Command::Read(id) => CommandV::Read(id@),
        Command::Write(v) => CommandV::Write(v@),
    }
}

pub open spec fn cmds_view(cs: Seq<Command>) -> Seq<CommandV>
    decreases cs,
{
    if cs.len() == 0 {
        Seq::empty()
    } else {
        cmds_view(cs.drop_last()).push(cmd_view(cs.last()))
    }
}

pub open spec fn ids_view(s: Seq<SourceIdent>) -> Seq<IdV> {
    s.map_values(|id: SourceIdent| id@)
}

impl View for Command {
    type V = CommandV;

    open spec fn view(&self) -> CommandV {
        cmd_view(*self)
    }
}

impl View for ArgumentsDeclarationVariant {
    type V = ArgDeclV;

    open spec fn view(&self) -> ArgDeclV {
        match self {
            ArgumentsDeclarationVariant::Base(id) => ArgDeclV::Base(id@),
            ArgumentsDeclarationVariant::Table(id) => ArgDeclV::Table(id@),
        }
    }
}

impl View for DeclarationVariant {
    type V = DeclV;

    open spec fn view(&self) -> DeclV {
        match self {
            DeclarationVariant::Base(id) => DeclV::Base(id@),
            DeclarationVariant::NumIndexed(id, n) => DeclV::NumIndexed(id@, *n),
        }
    }
}

/// Views of a whole list, each spelled over the element views.
pub open spec fn decls_view(s: Seq<DeclarationVariant>) -> Seq<DeclV> {
    s.map_values(|d: DeclarationVariant| d@)
}

pub open spec fn arg_decls_view(s: Seq<ArgumentsDeclarationVariant>) -> Seq<ArgDeclV> {
    s.map_values(|d: ArgumentsDeclarationVariant| d@)
}

pub proof fn lemma_cmds_view_push(cs: Seq<Command>, c: Command)
    ensures
        cmds_view(cs.push(c)) == cmds_view(cs).push(cmd_view(c)),
{
    assert(cs.push(c).drop_last() =~= cs);
    assert(cs.push(c).last() == c);
}

/// A useful property of `cmds_view`: it maps the sequence pointwise.
pub proof fn lemma_cmds_view_index(cs: Seq<Command>)
    ensures
        cmds_view(cs).len() == cs.len(),
        forall|i: int| 0 <= i < cs.len() ==> cmds_view(cs)[i] == cmd_view(#[trigger] cs[i]),
    decreases cs,
{
    if cs.len() > 0 {
        lemma_cmds_view_index(cs.drop_last());
        assert forall|i: int| 0 <= i < cs.len() implies cmds_view(cs)[i] == cmd_view(
            #[trigger] cs[i],
        ) by {
            if i < cs.len() - 1 {
                assert(cs.drop_last()[i] == cs[i]);
            } else {
                assert(cs.last() == cs[i]);
            }
        }
    }
}

pub type Arguments = Vec<SourceIdent>;

pub type ArgumentsDeclaration = Vec<ArgumentsDeclarationVariant>;

pub type Declarations = Vec<DeclarationVariant>;

pub type ProcedureCall = (SourceIdent, Arguments);

pub type ProcedureHead = (SourceIdent, ArgumentsDeclaration);

pub type Commands = Vec<Command>;

pub type Main = (Option<Declarations>, Commands);

pub type Procedure = (ProcedureHead, Option<Declarations>, Commands);

pub type Procedures = Vec<Procedure>;

pub type Program = (Option<Procedures>, Main);

} // verus!
