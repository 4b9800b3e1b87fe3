//! The abstract instruction stream. Jumps are relative here: an offset
//! of `k` placed at linear position `i` points to linear position
//! `i + k`; the linearizer turns them absolute at print time. The three
//! synthetic macros `Mul`, `Div`, `Mod` stand for their multi-line
//! bodies, whose lengths govern all offset arithmetic.
use vstd::prelude::*;

verus! {

use crate::ast::{
    arg_decls_view, cmd_view, cmds_view, decls_view, ids_view, Arguments,
    ArgumentsDeclarationVariant, Command, CommandV, Commands, Condition, ConditionV, Declarations,
    DeclV, Expression, ExpressionV, Identifier, IdentifierV, IdV, Procedure, Value, ValueV,
};
use crate::compile::BuilderV;
use crate::emitter::Registers;

/// One abstract instruction of the target machine.
#[derive(Debug, PartialEq, Eq, Clone, Copy)]
pub enum Instruction {
    Read,
    Write,
    Load(Registers),
    Store(Registers),
    Add(Registers),
    Sub(Registers),
    Get(Registers),
    Put(Registers),
    Rst(Registers),
    Inc(Registers),
    Dec(Registers),
    Shl(Registers),
    Shr(Registers),
    Strk,
    Jumpr(Registers),
    Jump(i64),
    Jpos(i64),
    Jzero(i64),
    Halt,
    Mul,
    Div,
    Mod,
}

/// How many output lines an instruction expands to; authoritative for
/// all offset computation done before linearization.
pub open spec fn spec_len(i: Instruction) -> nat {
    match i {
        Instruction::Mul => 20,
        Instruction::Div => 25,
        Instruction::Mod => 26,
        _ => 1,
    }
}

/// Total expansion length of an instruction sequence.
pub open spec fn spec_total_len(s: Seq<Instruction>) -> nat
    decreases s.len(),
{
    if s.len() == 0 {
        0
    } else {
        spec_total_len(s.drop_last()) + spec_len(s.last())
    }
}

/// No instruction expands past the longest macro body.
pub proof fn lemma_total_len_bound(s: Seq<Instruction>)
    ensures
        spec_total_len(s) <= 26 * s.len(),
    decreases s.len(),
{
    if s.len() > 0 {
        lemma_total_len_bound(s.drop_last());
    }
}

/// Total expansion length of a built vector, exactly.
pub fn total_len(v: &Vec<Instruction>) -> (r: u128)
    ensures
        r == spec_total_len(v@),
{
    let n = v.len();
    let mut r: u128 = 0;
    let mut i: usize = 0;
    proof {
        assert(v@.subrange(0, 0) =~= Seq::<Instruction>::empty());
    }
    #[verifier::loop_isolation(false)]
    while i < n
        invariant
            0 <= i <= n,
            n == v@.len(),
            r == spec_total_len(v@.subrange(0, i as int)),
            r <= 26 * i,
        decreases n - i,
    {
        let ln = v[i].len();
        proof {
            assert(v@.subrange(0, i + 1).drop_last() =~= v@.subrange(0, i as int));
            assert(v@.subrange(0, i + 1).last() == v@[i as int]);
        }
        r = r + ln as u128;
        i += 1;
    }
    proof {
        assert(v@.subrange(0, n as int) =~= v@);
    }
    r
}

/// A forward relative-jump operand: a length plus a small constant,
/// saturated into the operand type.
pub fn off_fwd(a: u128, add: u64) -> (r: i64)
    ensures
        r == crate::compile::sat_fwd(a + add),
{
    let t = a.saturating_add(add as u128);
    if t > i64::MAX as u128 {
        i64::MAX
    } else {
        t as i64
    }
}

/// A backward relative-jump operand: the negated sum of two lengths and
/// a small constant, saturated into the operand type.
pub fn off_back2(a: u128, b: u128, add: u64) -> (r: i64)
    ensures
        r == crate::compile::sat_back(a + b + add),
{
    let t = a.saturating_add(b).saturating_add(add as u128);
    if t > i64::MAX as u128 {
        i64::MIN
    } else {
        -(t as i64)
    }
}

impl Instruction {
    /// Expansion length of this instruction in output lines.
    pub fn len(&self) -> (n: u64)
        ensures
            n == spec_len(*self),
    {
        match self {
            Instruction::Mul => 20,
            Instruction::Div => 25,
            Instruction::Mod => 26,
            _ => 1,
        }
    }
}

/// Renaming under a procedure's qualification, on the views: every
/// referenced name gets the `@scope` suffix, once, when the procedure
/// record is built.
pub open spec fn rename_idv(id: IdV, scope: Seq<char>) -> IdV {
    (crate::compile::qualified_name(id.0, scope), id.1)
}

pub open spec fn rename_identifier_v(i: IdentifierV, scope: Seq<char>) -> IdentifierV {
    match i {
        IdentifierV::Base(id) => IdentifierV::Base(rename_idv(id, scope)),
        IdentifierV::NumIndexed(id, n) => IdentifierV::NumIndexed(rename_idv(id, scope), n),
        IdentifierV::PidIndexed(id, ix) => IdentifierV::PidIndexed(
            rename_idv(id, scope),
            rename_idv(ix, scope),
        ),
    }
}

pub open spec fn rename_value_v(v: ValueV, scope: Seq<char>) -> ValueV {
    match v {
        ValueV::Num(n) => ValueV::Num(n),
        ValueV::Id(id) => ValueV::Id(rename_identifier_v(id, scope)),
    }
}

pub open spec fn rename_condition_v(c: ConditionV, scope: Seq<char>) -> ConditionV {
    match c {
        ConditionV::Equal(a, b) => ConditionV::Equal(
            rename_value_v(a, scope),
            rename_value_v(b, scope),
        ),
        ConditionV::NotEqual(a, b) => ConditionV::NotEqual(
            rename_value_v(a, scope),
            rename_value_v(b, scope),
        ),
        ConditionV::Greater(a, b) => ConditionV::Greater(
            rename_value_v(a, scope),
            rename_value_v(b, scope),
        ),
        ConditionV::Lower(a, b) => ConditionV::Lower(
            rename_value_v(a, scope),
            rename_value_v(b, scope),
        ),
        ConditionV::GreaterOrEqual(a, b) => ConditionV::GreaterOrEqual(
            rename_value_v(a, scope),
            rename_value_v(b, scope),
        ),
        ConditionV::LowerOrEqual(a, b) => ConditionV::LowerOrEqual(
            rename_value_v(a, scope),
            rename_value_v(b, scope),
        ),
    }
}

pub open spec fn rename_expression_v(e: ExpressionV, scope: Seq<char>) -> ExpressionV {
    match e {
        ExpressionV::Value(v) => ExpressionV::Value(rename_value_v(v, scope)),
        ExpressionV::Add(a, b) => ExpressionV::Add(
            rename_value_v(a, scope),
            rename_value_v(b, scope),
        ),
        ExpressionV::Sub(a, b) => ExpressionV::Sub(
            rename_value_v(a, scope),
            rename_value_v(b, scope),
        ),
        ExpressionV::Mul(a, b) => ExpressionV::Mul(
            rename_value_v(a, scope),
            rename_value_v(b, scope),
        ),
        ExpressionV::Div(a, b) => ExpressionV::Div(
            rename_value_v(a, scope),
            rename_value_v(b, scope),
        ),
        ExpressionV::Mod(a, b) => ExpressionV::Mod(
            rename_value_v(a, scope),
            rename_value_v(b, scope),
        ),
    }
}

pub open spec fn rename_args_v(args: Seq<IdV>, scope: Seq<char>) -> Seq<IdV> {
    args.map_values(|a: IdV| (crate::compile::qualified_name(a.0, scope), a.1))
}

pub open spec fn rename_command_v(c: CommandV, scope: Seq<char>) -> CommandV
    decreases c,
{
    match c {
        CommandV::Assign(id, e) => CommandV::Assign(
            rename_identifier_v(id, scope),
            rename_expression_v(e, scope),
        ),
        CommandV::If(cond, cs, els) => CommandV::If(
            rename_condition_v(cond, scope),
            rename_commands_v(cs, scope),
            match els {
                Some(e) => Some(rename_commands_v(e, scope)),
                None => None,
            },
        ),
        CommandV::While(cond, cs) => CommandV::While(
            rename_condition_v(cond, scope),
            rename_commands_v(cs, scope),
        ),
        CommandV::Repeat(cs, cond) => CommandV::Repeat(
            rename_commands_v(cs, scope),
            rename_condition_v(cond, scope),
        ),
        CommandV::ProcCall(name, args) => CommandV::ProcCall(name, rename_args_v(args, scope)),
        CommandV::Read(id) => CommandV::Read(rename_identifier_v(id, scope)),
        CommandV::Write(v) => CommandV::Write(rename_value_v(v, scope)),
    }
}

pub open spec fn rename_commands_v(cs: Seq<CommandV>, scope: Seq<char>) -> Seq<CommandV>
    decreases cs,
{
    if cs.len() == 0 {
        Seq::empty()
    } else {
        rename_commands_v(cs.drop_last(), scope).push(rename_command_v(cs.last(), scope))
    }
}

pub proof fn lemma_rename_commands_push(cs: Seq<CommandV>, c: CommandV, scope: Seq<char>)
    ensures
        rename_commands_v(cs.push(c), scope) == rename_commands_v(cs, scope).push(
            rename_command_v(c, scope),
        ),
{
    assert(cs.push(c).drop_last() =~= cs);
    assert(cs.push(c).last() == c);
}

/// A procedure record: its name, formal parameters, optional locals,
/// and command list, the latter rewritten under `@name` qualification
/// once, here, when the record is built.
#[derive(Debug)]
pub struct ProcedureBuilder {
    pub name: String,
    pub declared_arguments: Vec<ArgumentsDeclarationVariant>,
    pub declarations: Option<Declarations>,
    pub commands: Commands,
}

impl View for ProcedureBuilder {
    type V = BuilderV;

    open spec fn view(&self) -> BuilderV {
        BuilderV {
            name: self.name@,
            args: arg_decls_view(self.declared_arguments@),
            decls: match self.declarations {
                Some(d) => Some(decls_view(d@)),
                None => None,
            },
            cmds: cmds_view(self.commands@),
        }
    }
}

/// The record that one procedure definition yields.
pub open spec fn builder_view_of(p: Procedure) -> BuilderV {
    BuilderV {
        name: p.0.0.0@,
        args: arg_decls_view(p.0.1@),
        decls: match p.1 {
            Some(d) => Some(decls_view(d@)),
            None => None,
        },
        cmds: rename_commands_v(cmds_view(p.2@), p.0.0.0@),
    }
}

/// The procedure table that a definition list yields: each procedure
/// under its name, a reused name rejecting the program.
pub open spec fn build_procs(ps: Seq<Procedure>) -> Result<
    Map<Seq<char>, BuilderV>,
    crate::error::ErrorV,
>
    decreases ps.len(),
{
    if ps.len() == 0 {
        Ok(Map::empty())
    } else {
        match build_procs(ps.drop_last()) {
            Ok(m) => {
                let p = ps.last();
                if m.contains_key(p.0.0.0@) {
                    Err(crate::error::ErrorV::DuplicateProcedureDeclaration(p.0.0.0@, p.0.0.1))
                } else {
                    Ok(m.insert(p.0.0.0@, builder_view_of(p)))
                }
            },
            Err(e) => Err(e),
        }
    }
}

/// A rejection among the first definitions rejects the whole list,
/// with the same error.
pub proof fn lemma_build_procs_prefix_err(ps: Seq<Procedure>, k: int)
    requires
        0 <= k <= ps.len(),
        build_procs(ps.subrange(0, k)) is Err,
    ensures
        build_procs(ps) == build_procs(ps.subrange(0, k)),
    decreases ps.len() - k,
{
    if k == ps.len() {
        assert(ps.subrange(0, k) =~= ps);
    } else {
        assert(ps.subrange(0, k + 1).drop_last() =~= ps.subrange(0, k));
        lemma_build_procs_prefix_err(ps, k + 1);
    }
}

impl ProcedureBuilder {
    /// Builds the record for one procedure definition, rewriting its
    /// command list under the procedure's qualification.
    pub fn new(procedure: Procedure) -> (r: Self)
        ensures
            r@ == builder_view_of(procedure),
    {
        let ((name_ident, declared_arguments), declarations, commands) = procedure;
        let mut pb = ProcedureBuilder {
            name: name_ident.0,
            declared_arguments,
            declarations,
            commands,
        };
        pb.rename_commands();
        pb
    }

    fn rename_commands(&mut self)
        ensures
            final(self).name == old(self).name,
            final(self).declared_arguments == old(self).declared_arguments,
            final(self).declarations == old(self).declarations,
            cmds_view(final(self).commands@) == rename_commands_v(
                cmds_view(old(self).commands@),
                old(self).name@,
            ),
    {
        let mut tmp: Commands = Vec::new();
        core::mem::swap(&mut self.commands, &mut tmp);
        let out = self.rename_command_list(tmp);
        self.commands = out;
    }

    /// Renames every command of a list; the helper behind both the
    /// record constructor and the nested command forms.
    #[verifier::loop_isolation(false)]
    fn rename_command_list(&self, cmds: Commands) -> (r: Commands)
        ensures
            cmds_view(r@) == rename_commands_v(cmds_view(cmds@), self.name@),
        decreases crate::compile::cmds_size(cmds_view(cmds@)),
    {
        let ghost v0 = cmds@;
        let ghost scope = self.name@;
        let mut input = cmds;
        let mut out: Commands = Vec::new();
        let ghost mut k: int = 0;
        proof {
            assert(input@ =~= v0.subrange(0, v0.len() as int));
            assert(cmds_view(v0.subrange(0, 0)) =~= Seq::<CommandV>::empty());
            assert(rename_commands_v(cmds_view(v0.subrange(0, 0)), scope)
                =~= Seq::<CommandV>::empty());
        }
        while input.len() > 0
            invariant
                0 <= k <= v0.len(),
                input@ == v0.subrange(k, v0.len() as int),
                scope == self.name@,
                cmds_view(out@) == rename_commands_v(cmds_view(v0.subrange(0, k)), scope),
            decreases input@.len(),
        {
            let c = input.remove(0);
            proof {
                assert(c == v0[k]);
                crate::ast::lemma_cmds_view_index(v0);
                crate::compile::lemma_cmds_size_bound(cmds_view(v0), k);
                assert(cmd_view(c) == cmds_view(v0)[k]);
                assert(crate::compile::cmd_size(cmd_view(c)) < crate::compile::cmds_size(
                    cmds_view(v0),
                ));
            }
            let nc = self.rename_command(c);
            let ghost out_pre = out@;
            out.push(nc);
            proof {
                let pre = v0.subrange(0, k);
                assert(v0.subrange(0, k + 1) =~= pre.push(v0[k]));
                crate::ast::lemma_cmds_view_push(pre, v0[k]);
                lemma_rename_commands_push(cmds_view(pre), cmd_view(v0[k]), scope);
                assert(out@ == out_pre.push(nc));
                crate::ast::lemma_cmds_view_push(out_pre, nc);
                assert(cmd_view(nc) == rename_command_v(cmd_view(v0[k]), scope));
                assert(cmds_view(out@) == cmds_view(out_pre).push(cmd_view(nc)));
                assert(input@ =~= v0.subrange(k + 1, v0.len() as int));
                k = k + 1;
                assert(cmds_view(out@) == rename_commands_v(cmds_view(v0.subrange(0, k)), scope));
            }
        }
        proof {
            assert(v0.subrange(0, k) =~= v0);
        }
        out
    }

    fn rename_command(&self, command: Command) -> (r: Command)
        ensures
            r@ == rename_command_v(command@, self.name@),
        decreases crate::compile::cmd_size(command@),
    {
        let ghost cv = cmd_view(command);
        match command {
            Command::Assign(id, expression) => {
                let new_id = self.rename_indentifier(id);
                let new_expression = match expression {
                    Expression::Value(value) => Expression::Value(self.rename_value(value)),
                    Expression::Add(value0, value1) => Expression::Add(
                        self.rename_value(value0),
                        self.rename_value(value1),
                    ),
                    Expression::Sub(value0, value1) => Expression::Sub(
                        self.rename_value(value0),
                        self.rename_value(value1),
                    ),
                    Expression::Mul(value0, value1) => Expression::Mul(
                        self.rename_value(value0),
                        self.rename_value(value1),
                    ),
                    Expression::Div(value0, value1) => Expression::Div(
                        self.rename_value(value0),
                        self.rename_value(value1),
                    ),
                    Expression::Mod(value0, value1) => Expression::Mod(
                        self.rename_value(value0),
                        self.rename_value(value1),
                    ),
                };
                Command::Assign(new_id, new_expression)
            },
            Command::If(condition, commands, else_commands) => {
                let new_condition = self.rename_condition(condition);
                let new_commands = self.rename_command_list(commands);
                let new_else = match else_commands {
                    Some(els_cmds) => Some(self.rename_command_list(els_cmds)),
                    None => None,
                };
                Command::If(new_condition, new_commands, new_else)
            },
            Command::While(condition, commands) => {
                let new_condition = self.rename_condition(condition);
                let new_commands = self.rename_command_list(commands);
                Command::While(new_condition, new_commands)
            },
            Command::Repeat(commands, condition) => {
                let new_condition = self.rename_condition(condition);
                let new_commands = self.rename_command_list(commands);
                Command::Repeat(new_commands, new_condition)
            },
            Command::ProcCall((name, arguments)) => {
                let ghost args0 = arguments@;
                let mut input = arguments;
                let mut new_arguments: Arguments = Vec::new();
                let ghost mut k: int = 0;
                proof {
                    assert(input@ =~= args0.subrange(0, args0.len() as int));
                }
                while input.len() > 0
                    invariant
                        0 <= k <= args0.len(),
                        input@ == args0.subrange(k, args0.len() as int),
                        new_arguments@.len() == k,
                        forall|t: int|
                            0 <= t < k ==> #[trigger] new_arguments@[t]@
                                == rename_idv(args0[t]@, self.name@),
                    decreases input@.len(),
                {
                    let arg = input.remove(0);
                    proof {
                        assert(arg == args0[k]);
                    }
                    let qn = crate::names::qualify(&arg.0, &self.name);
                    new_arguments.push((qn, arg.1));
                    proof {
                        assert(input@ =~= args0.subrange(k + 1, args0.len() as int));
                        k = k + 1;
                    }
                }
                proof {
                    assert(ids_view(new_arguments@) =~= rename_args_v(
                        ids_view(args0),
                        self.name@,
                    ));
                }
                Command::ProcCall((name, new_arguments))
            },
            Command::Read(identifier) => Command::Read(self.rename_indentifier(identifier)),
            Command::Write(value) => Command::Write(self.rename_value(value)),
        }
    }

    fn rename_condition(&self, condition: Condition) -> (r: Condition)
        ensures
            r@ == rename_condition_v(condition@, self.name@),
    {
        match condition {
            Condition::Equal(value0, value1) => Condition::Equal(
                self.rename_value(value0),
                self.rename_value(value1),
            ),
            Condition::NotEqual(value0, value1) => Condition::NotEqual(
                self.rename_value(value0),
                self.rename_value(value1),
            ),
            Condition::Greater(value0, value1) => Condition::Greater(
                self.rename_value(value0),
                self.rename_value(value1),
            ),
            Condition::Lower(value0, value1) => Condition::Lower(
                self.rename_value(value0),
                self.rename_value(value1),
            ),
            Condition::GreaterOrEqual(value0, value1) => Condition::GreaterOrEqual(
                self.rename_value(value0),
                self.rename_value(value1),
            ),
            Condition::LowerOrEqual(value0, value1) => Condition::LowerOrEqual(
                self.rename_value(value0),
                self.rename_value(value1),
            ),
        }
    }

    fn rename_value(&self, value: Value) -> (r: Value)
        ensures
            r@ == rename_value_v(value@, self.name@),
    {
        match value {
            Value::Num(n) => Value::Num(n),
            Value::Id(id) => Value::Id(self.rename_indentifier(id)),
        }
    }

    fn rename_indentifier(&self, identifier: Identifier) -> (r: Identifier)
        ensures
            r@ == rename_identifier_v(identifier@, self.name@),
    {
        match identifier {
            Identifier::Base(id) => Identifier::Base(
                (crate::names::qualify(&id.0, &self.name), id.1),
            ),
            Identifier::NumIndexed(id, num) => Identifier::NumIndexed(
                (crate::names::qualify(&id.0, &self.name), id.1),
                num,
            ),
            Identifier::PidIndexed(id, index_id) => Identifier::PidIndexed(
                (crate::names::qualify(&id.0, &self.name), id.1),
                (crate::names::qualify(&index_id.0, &self.name), index_id.1),
            ),
        }
    }
}

} // verus!
