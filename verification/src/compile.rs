//! The mathematical model of code generation: what instruction sequence
//! each syntax form lowers to, and how the emitter state (symbol table,
//! allocation pointer, initialization set, warnings) evolves. The
//! executable emitter is proved to match these functions exactly.
use vstd::prelude::*;

verus! {

use crate::ast::{ArgDeclV, CommandV, ConditionV, DeclV, ExpressionV, IdV, IdentifierV, ValueV};
use crate::emitter::{loader_seq, loader_suffix, Registers, VariableVariant};
use crate::error::ErrorV;
use crate::instruct::{spec_total_len, Instruction};

/// Addition on the allocation pointer, wrapping as the target type does.
pub open spec fn wadd(a: u64, b: u64) -> u64 {
    ((a + b) % 0x1_0000_0000_0000_0000) as u64
}

/// A relative-offset operand, saturated into the operand type. Offsets
/// beyond the operand's range cannot arise from any materializable
/// instruction stream.
pub open spec fn sat_fwd(n: int) -> i64 {
    if n > i64::MAX {
        i64::MAX
    } else {
        n as i64
    }
}

/// A backward offset: the negation of a length, saturated.
pub open spec fn sat_back(n: int) -> i64 {
    if n > i64::MAX {
        i64::MIN
    } else {
        (-n) as i64
    }
}

/// A qualified name: the source name with `@scope` appended.
pub open spec fn qualified_name(base: Seq<char>, scope: Seq<char>) -> Seq<char> {
    base + seq!['@'] + scope
}

/// The un-suffixed source name: everything before the first `@`.
pub open spec fn base_name(s: Seq<char>) -> Seq<char>
    decreases s.len(),
{
    if s.len() == 0 {
        Seq::empty()
    } else if s[0] == '@' {
        Seq::empty()
    } else {
        seq![s[0]] + base_name(s.drop_first())
    }
}

/// The use-before-initialization warning for a variable.
pub open spec fn warn_text(name: Seq<char>) -> Seq<char> {
    "Warning: Variable "@ + base_name(name) + " used before initialisation"@
}

/// The emitter state threaded through code generation: the symbol
/// table, the initialization set, the allocation pointer, and the
/// warnings put out so far.
#[verifier::ext_equal]
pub struct EmitState {
    pub mem: Map<Seq<char>, VariableVariant>,
    pub init: Set<Seq<char>>,
    pub ptr: u64,
    pub warns: Seq<Seq<char>>,
}

impl EmitState {
    /// Appends a use-before-initialization warning for `name` unless
    /// the initialization set already holds it.
    pub open spec fn maybe_warn(self, name: Seq<char>) -> EmitState {
        if self.init.contains(name) {
            self
        } else {
            EmitState { warns: self.warns.push(warn_text(name)), ..self }
        }
    }
}

/// The root name of an identifier occurrence: the name whose
/// initialization the emitter checks before a read of the identifier.
pub open spec fn root_id(id: IdentifierV) -> IdV {
    match id {
        IdentifierV::Base(i) => i,
        IdentifierV::NumIndexed(i, _) => i,
        IdentifierV::PidIndexed(i, _) => i,
    }
}

/// The initialization check on a value position: warns on an
/// uninitialized identifier, and never on a literal.
pub open spec fn check_init(st: EmitState, v: ValueV) -> EmitState {
    match v {
        ValueV::Num(_) => st,
        ValueV::Id(id) => st.maybe_warn(root_id(id).0),
    }
}

/// Address resolution of a scalar reference: the loader of its cell
/// address; an array name here is an incorrect use.
pub open spec fn resolve_base(st: EmitState, id: IdV) -> Result<Seq<Instruction>, ErrorV> {
    if !st.mem.contains_key(id.0) {
        Err(ErrorV::UndeclaredVariable(id.0, id.1))
    } else {
        match st.mem[id.0] {
            VariableVariant::Atomic(p) => Ok(loader_seq(p as nat)),
            VariableVariant::Table(_, _) => Err(ErrorV::IncorrectUseOfVariable(id.0, id.1)),
        }
    }
}

/// Address resolution of a fixed-index array element: the loader of
/// base plus index, after the bounds check.
pub open spec fn resolve_indexed(st: EmitState, id: IdV, num: u64) -> Result<
    Seq<Instruction>,
    ErrorV,
> {
    if !st.mem.contains_key(id.0) {
        Err(ErrorV::UndeclaredVariable(id.0, id.1))
    } else {
        match st.mem[id.0] {
            VariableVariant::Atomic(_) => Err(ErrorV::IncorrectUseOfVariable(id.0, id.1)),
            VariableVariant::Table(p, s) => {
                if num >= s {
                    Err(ErrorV::IndexOutOfBounds(id.0, id.1))
                } else {
                    Ok(loader_seq(wadd(p, num) as nat))
                }
            },
        }
    }
}

/// Address resolution of a variable-index array element: load the index
/// variable's value, park it in H, load the array base, add H. Warns
/// first if the index variable is not known to be initialized.
pub open spec fn resolve_dynamic(st: EmitState, id: IdV, ix: IdV) -> Result<
    (Seq<Instruction>, EmitState),
    ErrorV,
> {
    let st1 = st.maybe_warn(ix.0);
    if !st1.mem.contains_key(ix.0) {
        Err(ErrorV::UndeclaredVariable(ix.0, ix.1))
    } else {
        match st1.mem[ix.0] {
            VariableVariant::Table(_, _) => Err(ErrorV::ArrayUsedAsIndex(id.0, id.1)),
            VariableVariant::Atomic(ixp) => {
                if !st1.mem.contains_key(id.0) {
                    Err(ErrorV::UndeclaredVariable(id.0, id.1))
                } else {
                    match st1.mem[id.0] {
                        VariableVariant::Atomic(_) => Err(
                            ErrorV::IncorrectUseOfVariable(id.0, id.1),
                        ),
                        VariableVariant::Table(p, _) => Ok(
                            (
                                loader_seq(ixp as nat) + seq![
                                    Instruction::Load(Registers::A),
                                    Instruction::Put(Registers::H),
                                ] + loader_seq(p as nat) + seq![Instruction::Add(Registers::H)],
                                st1,
                            ),
                        ),
                    }
                }
            },
        }
    }
}

/// Address resolution of any identifier occurrence.
pub open spec fn resolve_id(st: EmitState, id: IdentifierV) -> Result<
    (Seq<Instruction>, EmitState),
    ErrorV,
> {
    match id {
        IdentifierV::Base(i) => match resolve_base(st, i) {
            Ok(s) => Ok((s, st)),
            Err(e) => Err(e),
        },
        IdentifierV::NumIndexed(i, n) => match resolve_indexed(st, i, n) {
            Ok(s) => Ok((s, st)),
            Err(e) => Err(e),
        },
        IdentifierV::PidIndexed(i, ix) => resolve_dynamic(st, i, ix),
    }
}

/// The instructions that leave a value position's value in the
/// accumulator: a literal through the loader, an identifier through
/// address resolution and a load.
pub open spec fn value_instrs(st: EmitState, v: ValueV) -> Result<
    (Seq<Instruction>, EmitState),
    ErrorV,
> {
    match v {
        ValueV::Num(n) => Ok((loader_seq(n as nat), st)),
        ValueV::Id(id) => match resolve_id(st, id) {
            Ok((s, st1)) => Ok((s.push(Instruction::Load(Registers::A)), st1)),
            Err(e) => Err(e),
        },
    }
}

/// An initialization check followed by value extraction, as expression
/// operands do it.
pub open spec fn checked_value(st: EmitState, v: ValueV) -> Result<
    (Seq<Instruction>, EmitState),
    ErrorV,
> {
    value_instrs(check_init(st, v), v)
}

/// The instructions of an arithmetic expression, with the fixed
/// register roles: B holds the first primitive operand, C the second.
/// Subtraction extracts its right operand first.
pub open spec fn expr_instrs(st: EmitState, e: ExpressionV) -> Result<
    (Seq<Instruction>, EmitState),
    ErrorV,
> {
    match e {
        ExpressionV::Value(v) => checked_value(st, v),
        ExpressionV::Add(a, b) => match checked_value(st, a) {
            Ok((sa, st1)) => match checked_value(st1, b) {
                Ok((sb, st2)) => Ok(
                    (
                        sa.push(Instruction::Put(Registers::B)) + sb + seq![
                            Instruction::Add(Registers::B),
                        ],
                        st2,
                    ),
                ),
                Err(e) => Err(e),
            },
            Err(e) => Err(e),
        },
        ExpressionV::Sub(a, b) => match checked_value(st, b) {
            Ok((sb, st1)) => match checked_value(st1, a) {
                Ok((sa, st2)) => Ok(
                    (
                        sb.push(Instruction::Put(Registers::B)) + sa + seq![
                            Instruction::Sub(Registers::B),
                        ],
                        st2,
                    ),
                ),
                Err(e) => Err(e),
            },
            Err(e) => Err(e),
        },
        ExpressionV::Mul(a, b) => match checked_value(st, a) {
            Ok((sa, st1)) => match checked_value(st1, b) {
                Ok((sb, st2)) => Ok(
                    (
                        sa.push(Instruction::Put(Registers::B)) + sb + seq![
                            Instruction::Put(Registers::C),
                            Instruction::Mul,
                        ],
                        st2,
                    ),
                ),
                Err(e) => Err(e),
            },
            Err(e) => Err(e),
        },
        ExpressionV::Div(a, b) => match value_instrs(check_init(check_init(st, a), b), a) {
            Ok((sa, st1)) => match value_instrs(st1, b) {
                Ok((sb, st2)) => Ok(
                    (
                        sa.push(Instruction::Put(Registers::B)) + sb + seq![
                            Instruction::Put(Registers::C),
                            Instruction::Div,
                        ],
                        st2,
                    ),
                ),
                Err(e) => Err(e),
            },
            Err(e) => Err(e),
        },
        ExpressionV::Mod(a, b) => match value_instrs(check_init(check_init(st, a), b), a) {
            Ok((sa, st1)) => match value_instrs(st1, b) {
                Ok((sb, st2)) => Ok(
                    (
                        sa.push(Instruction::Put(Registers::B)) + sb + seq![
                            Instruction::Put(Registers::C),
                            Instruction::Mod,
                        ],
                        st2,
                    ),
                ),
                Err(e) => Err(e),
            },
            Err(e) => Err(e),
        },
    }
}

/// The guard block of a two-armed conditional. Execution falls through
/// into the first emitted arm when the comparison picks it, and jumps
/// over that arm (of expanded length as given) when it does not.
pub open spec fn if_guard(st: EmitState, c: ConditionV, sub_len: int, else_len: int) -> Result<
    (Seq<Instruction>, EmitState),
    ErrorV,
> {
    match c {
        ConditionV::Equal(a, b) => match value_instrs(st, a) {
            Ok((sa, st1)) => match value_instrs(st1, b) {
                Ok((sb, st2)) => Ok(
                    (
                        sa.push(Instruction::Put(Registers::B)) + sb + seq![
                            Instruction::Put(Registers::C),
                            Instruction::Sub(Registers::B),
                            Instruction::Jpos(sat_fwd(sub_len + 5)),
                            Instruction::Get(Registers::B),
                            Instruction::Sub(Registers::C),
                            Instruction::Jpos(sat_fwd(sub_len + 2)),
                        ],
                        st2,
                    ),
                ),
                Err(e) => Err(e),
            },
            Err(e) => Err(e),
        },
        ConditionV::NotEqual(a, b) => match value_instrs(st, a) {
            Ok((sa, st1)) => match value_instrs(st1, b) {
                Ok((sb, st2)) => Ok(
                    (
                        sa.push(Instruction::Put(Registers::B)) + sb + seq![
                            Instruction::Put(Registers::C),
                            Instruction::Sub(Registers::B),
                            Instruction::Jpos(sat_fwd(else_len + 5)),
                            Instruction::Get(Registers::B),
                            Instruction::Sub(Registers::C),
                            Instruction::Jpos(sat_fwd(else_len + 2)),
                        ],
                        st2,
                    ),
                ),
                Err(e) => Err(e),
            },
            Err(e) => Err(e),
        },
        ConditionV::Greater(a, b) => match value_instrs(st, b) {
            Ok((sb, st1)) => match value_instrs(st1, a) {
                Ok((sa, st2)) => Ok(
                    (
                        sb.push(Instruction::Put(Registers::B)) + sa + seq![
                            Instruction::Sub(Registers::B),
                            Instruction::Jpos(sat_fwd(else_len + 2)),
                        ],
                        st2,
                    ),
                ),
                Err(e) => Err(e),
            },
            Err(e) => Err(e),
        },
        ConditionV::Lower(a, b) => match value_instrs(st, a) {
            Ok((sa, st1)) => match value_instrs(st1, b) {
                Ok((sb, st2)) => Ok(
                    (
                        sa.push(Instruction::Put(Registers::B)) + sb + seq![
                            Instruction::Sub(Registers::B),
                            Instruction::Jpos(sat_fwd(else_len + 2)),
                        ],
                        st2,
                    ),
                ),
                Err(e) => Err(e),
            },
            Err(e) => Err(e),
        },
        ConditionV::GreaterOrEqual(a, b) => match value_instrs(st, a) {
            Ok((sa, st1)) => match value_instrs(st1, b) {
                Ok((sb, st2)) => Ok(
                    (
                        sa.push(Instruction::Put(Registers::B)) + sb + seq![
                            Instruction::Sub(Registers::B),
                            Instruction::Jpos(sat_fwd(sub_len + 2)),
                        ],
                        st2,
                    ),
                ),
                Err(e) => Err(e),
            },
            Err(e) => Err(e),
        },
        ConditionV::LowerOrEqual(a, b) => match value_instrs(st, b) {
            Ok((sb, st1)) => match value_instrs(st1, a) {
                Ok((sa, st2)) => Ok(
                    (
                        sb.push(Instruction::Put(Registers::B)) + sa + seq![
                            Instruction::Sub(Registers::B),
                            Instruction::Jpos(sat_fwd(sub_len + 2)),
                        ],
                        st2,
                    ),
                ),
                Err(e) => Err(e),
            },
            Err(e) => Err(e),
        },
    }
}

/// Whether the conditional emits its else-arm first: for these three
/// comparisons the guard falls through into the else-arm.
pub open spec fn if_swapped(c: ConditionV) -> bool {
    match c {
        ConditionV::NotEqual(_, _) => true,
        ConditionV::Greater(_, _) => true,
        ConditionV::Lower(_, _) => true,
        _ => false,
    }
}

/// The guard block of a pre-test loop: falls through into the body
/// when the comparison holds, and jumps past the body and its trailing
/// back-edge when it does not.
pub open spec fn while_guard(st: EmitState, c: ConditionV, sub_len: int) -> Result<
    (Seq<Instruction>, EmitState),
    ErrorV,
> {
    match c {
        ConditionV::Equal(a, b) => match value_instrs(st, a) {
            Ok((sa, st1)) => match value_instrs(st1, b) {
                Ok((sb, st2)) => Ok(
                    (
                        sa.push(Instruction::Put(Registers::B)) + sb + seq![
                            Instruction::Put(Registers::C),
                            Instruction::Sub(Registers::B),
                            Instruction::Jpos(sat_fwd(sub_len + 5)),
                            Instruction::Get(Registers::B),
                            Instruction::Sub(Registers::C),
                            Instruction::Jpos(sat_fwd(sub_len + 2)),
                        ],
                        st2,
                    ),
                ),
                Err(e) => Err(e),
            },
            Err(e) => Err(e),
        },
        ConditionV::NotEqual(a, b) => match value_instrs(st, a) {
            Ok((sa, st1)) => match value_instrs(st1, b) {
                Ok((sb, st2)) => Ok(
                    (
                        sa.push(Instruction::Put(Registers::B)) + sb + seq![
                            Instruction::Put(Registers::C),
                            Instruction::Sub(Registers::B),
                            Instruction::Jpos(5),
                            Instruction::Get(Registers::B),
                            Instruction::Sub(Registers::C),
                            Instruction::Jpos(2),
                            Instruction::Jump(sat_fwd(sub_len + 2)),
                        ],
                        st2,
                    ),
                ),
                Err(e) => Err(e),
            },
            Err(e) => Err(e),
        },
        ConditionV::Greater(a, b) => match value_instrs(st, b) {
            Ok((sb, st1)) => match value_instrs(st1, a) {
                Ok((sa, st2)) => Ok(
                    (
                        sb.push(Instruction::Put(Registers::B)) + sa + seq![
                            Instruction::Sub(Registers::B),
                            Instruction::Jpos(2),
                            Instruction::Jump(sat_fwd(sub_len + 2)),
                        ],
                        st2,
                    ),
                ),
                Err(e) => Err(e),
            },
            Err(e) => Err(e),
        },
        ConditionV::Lower(a, b) => match value_instrs(st, a) {
            Ok((sa, st1)) => match value_instrs(st1, b) {
                Ok((sb, st2)) => Ok(
                    (
                        sa.push(Instruction::Put(Registers::B)) + sb + seq![
                            Instruction::Sub(Registers::B),
                            Instruction::Jpos(2),
                            Instruction::Jump(sat_fwd(sub_len + 2)),
                        ],
                        st2,
                    ),
                ),
                Err(e) => Err(e),
            },
            Err(e) => Err(e),
        },
        ConditionV::GreaterOrEqual(a, b) => match value_instrs(st, a) {
            Ok((sa, st1)) => match value_instrs(st1, b) {
                Ok((sb, st2)) => Ok(
                    (
                        sa.push(Instruction::Put(Registers::B)) + sb + seq![
                            Instruction::Sub(Registers::B),
                            Instruction::Jpos(sat_fwd(sub_len + 2)),
                        ],
                        st2,
                    ),
                ),
                Err(e) => Err(e),
            },
            Err(e) => Err(e),
        },
        ConditionV::LowerOrEqual(a, b) => match value_instrs(st, b) {
            Ok((sb, st1)) => match value_instrs(st1, a) {
                Ok((sa, st2)) => Ok(
                    (
                        sb.push(Instruction::Put(Registers::B)) + sa + seq![
                            Instruction::Sub(Registers::B),
                            Instruction::Jpos(sat_fwd(sub_len + 2)),
                        ],
                        st2,
                    ),
                ),
                Err(e) => Err(e),
            },
            Err(e) => Err(e),
        },
    }
}

/// The guard block of a post-test loop, placed after the body: jumps
/// backward over guard and body while the exit comparison fails.
pub open spec fn repeat_guard(st: EmitState, c: ConditionV, sub_len: int) -> Result<
    (Seq<Instruction>, EmitState),
    ErrorV,
> {
    match c {
        ConditionV::Equal(a, b) => match value_instrs(st, a) {
            Ok((sa, st1)) => match value_instrs(st1, b) {
                Ok((sb, st2)) => {
                    let base = sa.push(Instruction::Put(Registers::B)) + sb + seq![
                        Instruction::Put(Registers::C),
                        Instruction::Sub(Registers::B),
                    ];
                    let cl = spec_total_len(base) as int;
                    Ok(
                        (
                            base + seq![
                                Instruction::Jpos(sat_back(cl + sub_len)),
                                Instruction::Get(Registers::B),
                                Instruction::Sub(Registers::C),
                                Instruction::Jpos(sat_back(cl + sub_len + 3)),
                            ],
                            st2,
                        ),
                    )
                },
                Err(e) => Err(e),
            },
            Err(e) => Err(e),
        },
        ConditionV::NotEqual(a, b) => match value_instrs(st, a) {
            Ok((sa, st1)) => match value_instrs(st1, b) {
                Ok((sb, st2)) => {
                    let base = sa.push(Instruction::Put(Registers::B)) + sb + seq![
                        Instruction::Put(Registers::C),
                        Instruction::Sub(Registers::B),
                    ];
                    let cl = spec_total_len(base) as int;
                    Ok(
                        (
                            base + seq![
                                Instruction::Jpos(5),
                                Instruction::Get(Registers::B),
                                Instruction::Sub(Registers::C),
                                Instruction::Jpos(2),
                                Instruction::Jump(sat_back(cl + sub_len + 4)),
                            ],
                            st2,
                        ),
                    )
                },
                Err(e) => Err(e),
            },
            Err(e) => Err(e),
        },
        ConditionV::Greater(a, b) => match value_instrs(st, b) {
            Ok((sb, st1)) => match value_instrs(st1, a) {
                Ok((sa, st2)) => {
                    let base = sb.push(Instruction::Put(Registers::B)) + sa + seq![
                        Instruction::Sub(Registers::B),
                        Instruction::Jpos(2),
                    ];
                    let cl = spec_total_len(base) as int;
                    Ok((base + seq![Instruction::Jump(sat_back(cl + sub_len))], st2))
                },
                Err(e) => Err(e),
            },
            Err(e) => Err(e),
        },
        ConditionV::Lower(a, b) => match value_instrs(st, a) {
            Ok((sa, st1)) => match value_instrs(st1, b) {
                Ok((sb, st2)) => {
                    let base = sa.push(Instruction::Put(Registers::B)) + sb + seq![
                        Instruction::Sub(Registers::B),
                        Instruction::Jpos(2),
                    ];
                    let cl = spec_total_len(base) as int;
                    Ok((base + seq![Instruction::Jump(sat_back(cl + sub_len))], st2))
                },
                Err(e) => Err(e),
            },
            Err(e) => Err(e),
        },
        ConditionV::GreaterOrEqual(a, b) => match value_instrs(st, a) {
            Ok((sa, st1)) => match value_instrs(st1, b) {
                Ok((sb, st2)) => {
                    let base = sa.push(Instruction::Put(Registers::B)) + sb + seq![
                        Instruction::Sub(Registers::B),
                    ];
                    let cl = spec_total_len(base) as int;
                    Ok((base + seq![Instruction::Jpos(sat_back(cl + sub_len))], st2))
                },
                Err(e) => Err(e),
            },
            Err(e) => Err(e),
        },
        ConditionV::LowerOrEqual(a, b) => match value_instrs(st, b) {
            Ok((sb, st1)) => match value_instrs(st1, a) {
                Ok((sa, st2)) => {
                    let base = sb.push(Instruction::Put(Registers::B)) + sa + seq![
                        Instruction::Sub(Registers::B),
                    ];
                    let cl = spec_total_len(base) as int;
                    Ok((base + seq![Instruction::Jpos(sat_back(cl + sub_len))], st2))
                },
                Err(e) => Err(e),
            },
            Err(e) => Err(e),
        },
    }
}

/// The view of a stored procedure: its name, formal parameters, local
/// declarations and command list, the latter already renamed under the
/// procedure's qualification.
pub struct BuilderV {
    pub name: Seq<char>,
    pub args: Seq<ArgDeclV>,
    pub decls: Option<Seq<DeclV>>,
    pub cmds: Seq<CommandV>,
}

/// Structural size of a command, governing the recursion of the
/// compilation functions.
pub open spec fn cmd_size(c: CommandV) -> nat
    decreases c,
{
    match c {
        CommandV::If(_, cs, els) => {
            1 + cmds_size(cs) + match els {
                Some(e) => cmds_size(e),
                None => 0,
            }
        },
        CommandV::While(_, cs) => 1 + cmds_size(cs),
        CommandV::Repeat(cs, _) => 1 + cmds_size(cs),
        _ => 1,
    }
}

pub open spec fn cmds_size(cs: Seq<CommandV>) -> nat
    decreases cs,
{
    if cs.len() == 0 {
        0
    } else {
        1 + cmd_size(cs.last()) + cmds_size(cs.drop_last())
    }
}

/// Each command in a list weighs less than the whole list.
pub proof fn lemma_cmds_size_bound(cs: Seq<CommandV>, i: int)
    requires
        0 <= i < cs.len(),
    ensures
        cmd_size(cs[i]) < cmds_size(cs),
    decreases cs.len(),
{
    if i == cs.len() - 1 {
        assert(cs.last() == cs[i]);
    } else {
        lemma_cmds_size_bound(cs.drop_last(), i);
        assert(cs.drop_last()[i] == cs[i]);
    }
}

/// `p` occurs in `s` starting at position `i`.
pub open spec fn contains_at(s: Seq<char>, p: Seq<char>, i: int) -> bool {
    0 <= i && i + p.len() <= s.len() && s.subrange(i, i + p.len()) == p
}

/// `p` occurs somewhere in `s`.
pub open spec fn contains_seq(s: Seq<char>, p: Seq<char>) -> bool {
    exists|i: int| contains_at(s, p, i)
}

/// Fresh storage for a callee's locals: each declaration takes cells at
/// the allocation pointer under its qualified name, and the pointer
/// advances by the declaration's size.
pub open spec fn alloc_locals(st: EmitState, decls: Seq<DeclV>, scope: Seq<char>) -> EmitState
    decreases decls.len(),
{
    if decls.len() == 0 {
        st
    } else {
        let st1 = alloc_locals(st, decls.drop_last(), scope);
        match decls.last() {
            DeclV::Base(id) => EmitState {
                mem: st1.mem.insert(
                    qualified_name(id.0, scope),
                    VariableVariant::Atomic(st1.ptr),
                ),
                ptr: wadd(st1.ptr, 1),
                ..st1
            },
            DeclV::NumIndexed(id, len) => EmitState {
                mem: st1.mem.insert(
                    qualified_name(id.0, scope),
                    VariableVariant::Table(st1.ptr, len),
                ),
                ptr: wadd(st1.ptr, len),
                ..st1
            },
        }
    }
}

/// The first local declaration sharing the formal parameter's name, if
/// any: such a clash rejects the call.
pub open spec fn find_clash(decls: Seq<DeclV>, fname: Seq<char>) -> Option<IdV>
    decreases decls.len(),
{
    if decls.len() == 0 {
        None
    } else {
        let id = match decls[0] {
            DeclV::Base(i) => i,
            DeclV::NumIndexed(i, n) => i,
        };
        if id.0 == fname {
            Some(id)
        } else {
            find_clash(decls.drop_first(), fname)
        }
    }
}

/// The identifier of a formal parameter.
pub open spec fn formal_id(f: ArgDeclV) -> IdV {
    match f {
        ArgDeclV::Base(i) => i,
        ArgDeclV::Table(i) => i,
    }
}

/// By-reference binding of actuals to formals: each formal becomes an
/// alias descriptor of the caller's cells under its qualified name, and
/// both names enter the initialization set. Shape mismatches and
/// name clashes with locals reject the call.
pub open spec fn bind_formals(
    st: EmitState,
    args: Seq<IdV>,
    fargs: Seq<ArgDeclV>,
    decls: Option<Seq<DeclV>>,
    scope: Seq<char>,
) -> Result<EmitState, ErrorV>
    decreases args.len(),
{
    if args.len() == 0 || fargs.len() == 0 {
        Ok(st)
    } else {
        let a = args[0];
        let f = fargs[0];
        let fid = formal_id(f);
        let clash = match decls {
            Some(ds) => find_clash(ds, fid.0),
            None => None,
        };
        match clash {
            Some(did) => Err(ErrorV::DuplicateVariableDeclaration(did.0, did.1)),
            None => {
                if !st.mem.contains_key(a.0) {
                    Err(ErrorV::UndeclaredVariable(a.0, a.1))
                } else {
                    match (f, st.mem[a.0]) {
                        (ArgDeclV::Base(fid2), VariableVariant::Atomic(p)) => {
                            let q = qualified_name(fid2.0, scope);
                            let st1 = EmitState {
                                mem: st.mem.insert(q, VariableVariant::Atomic(p)),
                                init: st.init.insert(a.0).insert(q),
                                ..st
                            };
                            bind_formals(st1, args.drop_first(), fargs.drop_first(), decls, scope)
                        },
                        (ArgDeclV::Base(fid2), VariableVariant::Table(_, _)) => Err(
                            ErrorV::WrongArgumentType(fid2.0, fid2.1),
                        ),
                        (ArgDeclV::Table(fid2), VariableVariant::Table(p, s)) => {
                            let q = qualified_name(fid2.0, scope);
                            let st1 = EmitState {
                                mem: st.mem.insert(q, VariableVariant::Table(p, s)),
                                init: st.init.insert(a.0).insert(q),
                                ..st
                            };
                            bind_formals(st1, args.drop_first(), fargs.drop_first(), decls, scope)
                        },
                        (ArgDeclV::Table(fid2), VariableVariant::Atomic(_)) => Err(
                            ErrorV::WrongArgumentType(fid2.0, fid2.1),
                        ),
                    }
                }
            },
        }
    }
}

/// The instruction sequence and state evolution of one command.
///
/// A call site expands by allocating the callee's locals, binding the
/// formals by reference, and splicing the callee's renamed body. The
/// fuel bounds the nesting of expansions: a program whose call chains
/// exceed the number of declared procedures repeats one of them, which
/// is a recursive call and is rejected.
pub open spec fn cmd_instrs(
    procs: Map<Seq<char>, BuilderV>,
    st: EmitState,
    c: CommandV,
    fuel: nat,
) -> Result<(Seq<Instruction>, EmitState), ErrorV>
    decreases fuel, cmd_size(c),
{
    match c {
        CommandV::Assign(id, e) => {
            let st0 = EmitState { init: st.init.insert(root_id(id).0), ..st };
            match resolve_id(st0, id) {
                Ok((sa, st1)) => match expr_instrs(st1, e) {
                    Ok((se, st2)) => Ok(
                        (
                            sa.push(Instruction::Put(Registers::G)) + se + seq![
                                Instruction::Store(Registers::G),
                            ],
                            st2,
                        ),
                    ),
                    Err(er) => Err(er),
                },
                Err(er) => Err(er),
            }
        },
        CommandV::If(cond, cs, els) => match cmds_instrs(procs, st, cs, fuel) {
            Ok((sub, st1)) => {
                let else_cmds = match els {
                    Some(x) => x,
                    None => Seq::empty(),
                };
                match cmds_instrs(procs, st1, else_cmds, fuel) {
                    Ok((sels, st2)) => {
                        let ls = spec_total_len(sub) as int;
                        let le = spec_total_len(sels) as int;
                        match if_guard(st2, cond, ls, le) {
                            Ok((g, st3)) => Ok(
                                (
                                    if if_swapped(cond) {
                                        g + sels + seq![Instruction::Jump(sat_fwd(ls + 1))] + sub
                                    } else {
                                        g + sub + seq![Instruction::Jump(sat_fwd(le + 1))] + sels
                                    },
                                    st3,
                                ),
                            ),
                            Err(er) => Err(er),
                        }
                    },
                    Err(er) => Err(er),
                }
            },
            Err(er) => Err(er),
        },
        CommandV::While(cond, cs) => match cmds_instrs(procs, st, cs, fuel) {
            Ok((sub, st1)) => {
                let ls = spec_total_len(sub) as int;
                match while_guard(st1, cond, ls) {
                    Ok((g, st2)) => Ok(
                        (
                            g + sub + seq![
                                Instruction::Jump(sat_back(ls + spec_total_len(g))),
                            ],
                            st2,
                        ),
                    ),
                    Err(er) => Err(er),
                }
            },
            Err(er) => Err(er),
        },
        CommandV::Repeat(cs, cond) => match cmds_instrs(procs, st, cs, fuel) {
            Ok((sub, st1)) => {
                let ls = spec_total_len(sub) as int;
                match repeat_guard(st1, cond, ls) {
                    Ok((g, st2)) => Ok((sub + g, st2)),
                    Err(er) => Err(er),
                }
            },
            Err(er) => Err(er),
        },
        CommandV::ProcCall(pid, args) => {
            if exists|k: int|
                0 <= k < args.len() && contains_seq(#[trigger] args[k].0, seq!['@'] + pid.0) {
                Err(ErrorV::RecursiveProcedureCall(pid.0, pid.1))
            } else if !procs.contains_key(pid.0) {
                Err(ErrorV::UndeclaredProcedure(pid.0, pid.1))
            } else {
                let b = procs[pid.0];
                if b.args.len() != args.len() {
                    Err(ErrorV::WrongNumberOfArguments(pid.0, pid.1))
                } else {
                    let st1 = match b.decls {
                        Some(ds) => alloc_locals(st, ds, pid.0),
                        None => st,
                    };
                    match bind_formals(st1, args, b.args, b.decls, pid.0) {
                        Ok(st2) => {
                            if fuel == 0 {
                                Err(ErrorV::RecursiveProcedureCall(pid.0, pid.1))
                            } else {
                                cmds_instrs(procs, st2, b.cmds, (fuel - 1) as nat)
                            }
                        },
                        Err(er) => Err(er),
                    }
                }
            }
        },
        CommandV::Read(id) => {
            let st0 = EmitState { init: st.init.insert(root_id(id).0), ..st };
            match resolve_id(st0, id) {
                Ok((sa, st1)) => Ok(
                    (
                        sa + seq![
                            Instruction::Put(Registers::G),
                            Instruction::Read,
                            Instruction::Store(Registers::G),
                        ],
                        st1,
                    ),
                ),
                Err(er) => Err(er),
            }
        },
        CommandV::Write(v) => match value_instrs(st, v) {
            Ok((sv, st1)) => Ok((sv.push(Instruction::Write), st1)),
            Err(er) => Err(er),
        },
    }
}

/// The instruction sequence of a command list: the concatenation, with
/// the state threaded left to right and the first error aborting.
pub open spec fn cmds_instrs(
    procs: Map<Seq<char>, BuilderV>,
    st: EmitState,
    cs: Seq<CommandV>,
    fuel: nat,
) -> Result<(Seq<Instruction>, EmitState), ErrorV>
    decreases fuel, cmds_size(cs),
{
    if cs.len() == 0 {
        Ok((Seq::empty(), st))
    } else {
        match cmds_instrs(procs, st, cs.drop_last(), fuel) {
            Ok((pre, st1)) => match cmd_instrs(procs, st1, cs.last(), fuel) {
                Ok((s, st2)) => Ok((pre + s, st2)),
                Err(er) => Err(er),
            },
            Err(er) => Err(er),
        }
    }
}

/// Storage for the main program's declarations: as `alloc_locals`, but
/// under the plain source names.
pub open spec fn alloc_main(st: EmitState, decls: Seq<DeclV>) -> EmitState
    decreases decls.len(),
{
    if decls.len() == 0 {
        st
    } else {
        let st1 = alloc_main(st, decls.drop_last());
        match decls.last() {
            DeclV::Base(id) => EmitState {
                mem: st1.mem.insert(id.0, VariableVariant::Atomic(st1.ptr)),
                ptr: wadd(st1.ptr, 1),
                ..st1
            },
            DeclV::NumIndexed(id, len) => EmitState {
                mem: st1.mem.insert(id.0, VariableVariant::Table(st1.ptr, len)),
                ptr: wadd(st1.ptr, len),
                ..st1
            },
        }
    }
}

/// Allocation touches only the symbol table and the pointer.
pub proof fn lemma_alloc_main_keeps(st: EmitState, ds: Seq<DeclV>)
    ensures
        alloc_main(st, ds).init == st.init,
        alloc_main(st, ds).warns == st.warns,
    decreases ds.len(),
{
    if ds.len() > 0 {
        lemma_alloc_main_keeps(st, ds.drop_last());
    }
}

/// The declared name of a variable declaration.
pub open spec fn decl_name(d: DeclV) -> Seq<char> {
    match d {
        DeclV::Base(id) => id.0,
        DeclV::NumIndexed(id, _) => id.0,
    }
}

/// How many cells a declaration takes: one for a scalar, the declared
/// length for an array.
pub open spec fn decl_size(d: DeclV) -> int {
    match d {
        DeclV::Base(_) => 1,
        DeclV::NumIndexed(_, s) => s as int,
    }
}

/// The total number of cells a declaration list takes.
pub open spec fn decls_total(decls: Seq<DeclV>) -> int
    decreases decls.len(),
{
    if decls.len() == 0 {
        0
    } else {
        decls_total(decls.drop_last()) + decl_size(decls.last())
    }
}

/// No two declarations share a name.
pub open spec fn distinct_decl_names(decls: Seq<DeclV>) -> bool {
    forall|i: int, j: int|
        0 <= i < j < decls.len() ==> decl_name(decls[i]) != decl_name(decls[j])
}

/// Whether a descriptor's cells include address `a`.
pub open spec fn descriptor_covers(v: VariableVariant, a: u64) -> bool {
    match v {
        VariableVariant::Atomic(p) => a == p,
        VariableVariant::Table(p, s) => p <= a && (a as int) < p + s,
    }
}

/// Whether any installed descriptor's cells include address `a`.
pub open spec fn table_covers(mem: Map<Seq<char>, VariableVariant>, a: u64) -> bool {
    exists|k: Seq<char>| #[trigger] mem.contains_key(k) && descriptor_covers(mem[k], a)
}

/// The descriptor a declaration earns when its storage starts at
/// `start`.
pub open spec fn decl_descriptor(d: DeclV, start: int) -> VariableVariant {
    match d {
        DeclV::Base(_) => VariableVariant::Atomic(start as u64),
        DeclV::NumIndexed(_, s) => VariableVariant::Table(start as u64, s),
    }
}

/// The main program's declarations tile storage exactly: under
/// distinct names and a total that the address space holds, the
/// allocator leaves the pointer at the total, each declaration's
/// descriptor starts at the sum of the sizes before it, and the
/// installed descriptors cover an address if and only if it lies
/// below the total.
pub proof fn lemma_alloc_main_tiling(decls: Seq<DeclV>)
    requires
        distinct_decl_names(decls),
        decls_total(decls) <= u64::MAX,
    ensures
        alloc_main(empty_state(), decls).ptr == decls_total(decls),
        forall|k: Seq<char>|
            #[trigger] alloc_main(empty_state(), decls).mem.contains_key(k) <==> (exists|i: int|
                0 <= i < decls.len() && decl_name(#[trigger] decls[i]) == k),
        forall|i: int|
            0 <= i < decls.len() ==> alloc_main(empty_state(), decls).mem[decl_name(
                #[trigger] decls[i],
            )] == decl_descriptor(decls[i], decls_total(decls.take(i))),
        forall|a: u64|
            #[trigger] table_covers(alloc_main(empty_state(), decls).mem, a) <==> (a as int)
                < decls_total(decls),
    decreases decls.len(),
{
    let st = alloc_main(empty_state(), decls);
    if decls.len() == 0 {
        assert(st.mem =~= Map::<Seq<char>, VariableVariant>::empty());
        assert forall|a: u64| !table_covers(st.mem, a) by {
            assert(forall|k: Seq<char>| !st.mem.contains_key(k));
        }
    } else {
        let pre = decls.drop_last();
        let d = decls.last();
        let name = decl_name(d);
        assert(distinct_decl_names(pre)) by {
            assert(forall|i: int|
                0 <= i < pre.len() ==> pre[i] == #[trigger] decls[i]);
        }
        assert(decl_size(d) >= 0);
        assert(decls_total(pre) <= u64::MAX);
        lemma_alloc_main_tiling(pre);
        let st1 = alloc_main(empty_state(), pre);
        let total1 = decls_total(pre);
        assert(st1.ptr == total1);
        // the new name is fresh: distinctness over the whole list
        assert(!st1.mem.contains_key(name)) by {
            if st1.mem.contains_key(name) {
                let i = choose|i: int|
                    0 <= i < pre.len() && decl_name(#[trigger] pre[i]) == name;
                assert(decl_name(decls[i]) == decl_name(decls[decls.len() - 1]));
            }
        }
        assert(total1 + decl_size(d) <= u64::MAX);
        assert(wadd(st1.ptr, 1) == total1 + 1 || !(d is Base));
        match d {
            DeclV::Base(id) => {
                assert(st.mem == st1.mem.insert(name, VariableVariant::Atomic(st1.ptr)));
                assert(st.ptr == wadd(st1.ptr, 1) == decls_total(decls));
            },
            DeclV::NumIndexed(id, s) => {
                assert(st.mem == st1.mem.insert(name, VariableVariant::Table(st1.ptr, s)));
                assert(st.ptr == wadd(st1.ptr, s) == decls_total(decls));
            },
        }
        assert forall|i: int|
            0 <= i < decls.len() implies st.mem[decl_name(#[trigger] decls[i])]
            == decl_descriptor(decls[i], decls_total(decls.take(i))) by {
            if i == decls.len() - 1 {
                assert(decls.take(i) =~= pre);
            } else {
                assert(decl_name(decls[i]) != name);
                assert(pre[i] == decls[i]);
                assert(pre.take(i) =~= decls.take(i));
                assert(st1.mem[decl_name(pre[i])] == decl_descriptor(
                    pre[i],
                    decls_total(pre.take(i)),
                ));
            }
        }
        assert forall|k: Seq<char>|
            #[trigger] st.mem.contains_key(k) <==> (exists|i: int|
                0 <= i < decls.len() && decl_name(#[trigger] decls[i]) == k) by {
            if st.mem.contains_key(k) {
                if k == name {
                    assert(decl_name(decls[decls.len() - 1]) == k);
                } else {
                    let i = choose|i: int|
                        0 <= i < pre.len() && decl_name(#[trigger] pre[i]) == k;
                    assert(decl_name(decls[i]) == k);
                }
            }
            if exists|i: int| 0 <= i < decls.len() && decl_name(#[trigger] decls[i]) == k {
                let i = choose|i: int|
                    0 <= i < decls.len() && decl_name(#[trigger] decls[i]) == k;
                if i < decls.len() - 1 {
                    assert(decl_name(pre[i]) == k);
                }
            }
        }
        assert forall|a: u64|
            #[trigger] table_covers(st.mem, a) <==> (a as int) < decls_total(decls) by {
            if table_covers(st.mem, a) {
                let k = choose|k: Seq<char>|
                    #[trigger] st.mem.contains_key(k) && descriptor_covers(st.mem[k], a);
                if k == name {
                    assert((a as int) < decls_total(decls));
                } else {
                    assert(st1.mem.contains_key(k) && st.mem[k] == st1.mem[k]);
                    assert(table_covers(st1.mem, a));
                }
            }
            if (a as int) < decls_total(decls) {
                if (a as int) < total1 {
                    assert(table_covers(st1.mem, a));
                    let k = choose|k: Seq<char>|
                        #[trigger] st1.mem.contains_key(k) && descriptor_covers(st1.mem[k], a);
                    assert(k != name);
                    assert(st.mem.contains_key(k) && descriptor_covers(st.mem[k], a));
                } else {
                    assert(st.mem.contains_key(name) && descriptor_covers(st.mem[name], a));
                }
            }
        }
    }
}

/// The empty emitter state: no storage, nothing initialized, the
/// allocation pointer at the first cell.
pub open spec fn empty_state() -> EmitState {
    EmitState { mem: Map::empty(), init: Set::empty(), ptr: 0, warns: Seq::empty() }
}

/// The executable result matches the model's: same instructions on
/// success, the same error otherwise.
pub open spec fn emits_match(
    r: Result<Vec<Instruction>, crate::error::CompilerError>,
    s: Result<Seq<Instruction>, ErrorV>,
) -> bool {
    match r {
        Ok(v) => s is Ok && v@ == s->Ok_0,
        Err(e) => s is Err && e@ == s->Err_0,
    }
}

/// The executable result and final state match the model's: same
/// instructions and state on success; on rejection the same error,
/// with the real state differing from the entry state at most by
/// warnings already put out.
pub open spec fn st_emits_match(
    r: Result<Vec<Instruction>, crate::error::CompilerError>,
    s: Result<(Seq<Instruction>, EmitState), ErrorV>,
    pre: EmitState,
    post: EmitState,
) -> bool {
    match r {
        Ok(v) => s is Ok && v@ == s->Ok_0.0 && post == s->Ok_0.1,
        Err(e) => s is Err && e@ == s->Err_0 && warns_extended(pre, post),
    }
}

/// As `st_emits_match`, but with nothing said of the state after a
/// rejection: a rejected call site may already have allocated locals
/// and installed bindings, and compilation aborts there.
pub open spec fn cmd_emits_match(
    r: Result<Vec<Instruction>, crate::error::CompilerError>,
    s: Result<(Seq<Instruction>, EmitState), ErrorV>,
    post: EmitState,
) -> bool {
    match r {
        Ok(v) => s is Ok && v@ == s->Ok_0.0 && post == s->Ok_0.1,
        Err(e) => s is Err && e@ == s->Err_0,
    }
}

/// The post state differs from the pre state at most by further
/// warnings.
pub open spec fn warns_extended(pre: EmitState, post: EmitState) -> bool {
    &&& post.mem == pre.mem
    &&& post.init == pre.init
    &&& post.ptr == pre.ptr
    &&& pre.warns.is_prefix_of(post.warns)
}

/// One more command on the end of a list: the models compose.
pub proof fn lemma_cmds_instrs_step(
    procs: Map<Seq<char>, BuilderV>,
    st: EmitState,
    cs: Seq<CommandV>,
    fuel: nat,
    k: int,
)
    requires
        0 <= k < cs.len(),
    ensures
        cmds_instrs(procs, st, cs.subrange(0, k + 1), fuel) == (match cmds_instrs(
            procs,
            st,
            cs.subrange(0, k),
            fuel,
        ) {
            Ok((pre, st1)) => match cmd_instrs(procs, st1, cs[k], fuel) {
                Ok((s, st2)) => Ok((pre + s, st2)),
                Err(er) => Err(er),
            },
            Err(er) => Err(er),
        }),
{
    assert(cs.subrange(0, k + 1).drop_last() =~= cs.subrange(0, k));
    assert(cs.subrange(0, k + 1).last() == cs[k]);
}

/// A rejection within a prefix rejects the whole list, with the same
/// error.
pub proof fn lemma_cmds_instrs_prefix_err(
    procs: Map<Seq<char>, BuilderV>,
    st: EmitState,
    cs: Seq<CommandV>,
    fuel: nat,
    k: int,
)
    requires
        0 <= k <= cs.len(),
        cmds_instrs(procs, st, cs.subrange(0, k), fuel) is Err,
    ensures
        cmds_instrs(procs, st, cs, fuel) == cmds_instrs(procs, st, cs.subrange(0, k), fuel),
    decreases cs.len() - k,
{
    if k == cs.len() {
        assert(cs.subrange(0, k) =~= cs);
    } else {
        lemma_cmds_instrs_step(procs, st, cs, fuel, k);
        lemma_cmds_instrs_prefix_err(procs, st, cs, fuel, k + 1);
    }
}

/// Concatenation keeps a stream printable.
proof fn lemma_expandable_concat(a: Seq<Instruction>, b: Seq<Instruction>)
    requires
        crate::render::expandable(a),
        crate::render::expandable(b),
    ensures
        crate::render::expandable(a + b),
{
    assert forall|i: int| 0 <= i < (a + b).len() implies !((a + b)[i] is Strk) by {
        if i < a.len() {
            assert((a + b)[i] == a[i]);
        } else {
            assert((a + b)[i] == b[i - a.len()]);
        }
    }
}

/// One more non-`Strk` instruction keeps a stream printable.
proof fn lemma_expandable_push(a: Seq<Instruction>, x: Instruction)
    requires
        crate::render::expandable(a),
        !(x is Strk),
    ensures
        crate::render::expandable(a.push(x)),
{
    assert forall|i: int| 0 <= i < a.push(x).len() implies !(a.push(x)[i] is Strk) by {
        if i < a.len() {
            assert(a.push(x)[i] == a[i]);
        } else {
            assert(a.push(x)[i] == x);
        }
    }
}

/// The common shape of the lowered blocks: one part, a parked
/// register, another part, a literal tail.
proof fn lemma_expandable_shape(
    x: Seq<Instruction>,
    mid: Instruction,
    y: Seq<Instruction>,
    tail: Seq<Instruction>,
)
    requires
        crate::render::expandable(x),
        !(mid is Strk),
        crate::render::expandable(y),
        crate::render::expandable(tail),
    ensures
        crate::render::expandable(x.push(mid) + y + tail),
{
    lemma_expandable_push(x, mid);
    lemma_expandable_concat(x.push(mid), y);
    lemma_expandable_concat(x.push(mid) + y, tail);
}

/// The value loader never emits the save-program-counter form.
proof fn lemma_loader_suffix_expandable(n: nat)
    ensures
        crate::render::expandable(loader_suffix(n)),
    decreases n,
{
    if n <= 1 {
    } else if n % 2 == 1 {
        lemma_loader_suffix_expandable((n - 1) as nat);
        lemma_expandable_push(loader_suffix((n - 1) as nat), Instruction::Inc(Registers::A));
    } else {
        lemma_loader_suffix_expandable(n / 2);
        lemma_expandable_push(loader_suffix(n / 2), Instruction::Shl(Registers::A));
    }
}

proof fn lemma_loader_expandable(n: nat)
    ensures
        crate::render::expandable(loader_seq(n)),
{
    lemma_loader_suffix_expandable(n);
    lemma_expandable_concat(
        seq![Instruction::Rst(Registers::A), Instruction::Inc(Registers::A)],
        loader_suffix(n),
    );
}

/// Address resolution never emits the save-program-counter form.
proof fn lemma_resolve_expandable(st: EmitState, id: IdentifierV)
    ensures
        resolve_id(st, id) is Ok ==> crate::render::expandable((resolve_id(st, id)->Ok_0).0),
{
    if resolve_id(st, id) is Ok {
        match id {
            IdentifierV::Base(i) => {
                lemma_loader_expandable(st.mem[i.0]->Atomic_0 as nat);
            },
            IdentifierV::NumIndexed(i, n) => {
                lemma_loader_expandable(wadd(st.mem[i.0]->Table_0, n) as nat);
            },
            IdentifierV::PidIndexed(i, ix) => {
                let st1 = st.maybe_warn(ix.0);
                lemma_loader_expandable(st1.mem[ix.0]->Atomic_0 as nat);
                lemma_loader_expandable(st1.mem[i.0]->Table_0 as nat);
                lemma_expandable_concat(
                    loader_seq(st1.mem[ix.0]->Atomic_0 as nat),
                    seq![Instruction::Load(Registers::A), Instruction::Put(Registers::H)],
                );
                lemma_expandable_concat(
                    loader_seq(st1.mem[ix.0]->Atomic_0 as nat) + seq![
                        Instruction::Load(Registers::A),
                        Instruction::Put(Registers::H),
                    ],
                    loader_seq(st1.mem[i.0]->Table_0 as nat),
                );
                lemma_expandable_concat(
                    loader_seq(st1.mem[ix.0]->Atomic_0 as nat) + seq![
                        Instruction::Load(Registers::A),
                        Instruction::Put(Registers::H),
                    ] + loader_seq(st1.mem[i.0]->Table_0 as nat),
                    seq![Instruction::Add(Registers::H)],
                );
            },
        }
    }
}

/// Value extraction never emits the save-program-counter form.
proof fn lemma_value_expandable(st: EmitState, v: ValueV)
    ensures
        value_instrs(st, v) is Ok ==> crate::render::expandable((value_instrs(st, v)->Ok_0).0),
{
    match v {
        ValueV::Num(n) => {
            lemma_loader_expandable(n as nat);
        },
        ValueV::Id(id) => {
            lemma_resolve_expandable(st, id);
            if resolve_id(st, id) is Ok {
                lemma_expandable_push(
                    (resolve_id(st, id)->Ok_0).0,
                    Instruction::Load(Registers::A),
                );
            }
        },
    }
}

/// Expression lowering never emits the save-program-counter form.
proof fn lemma_expr_expandable(st: EmitState, e: ExpressionV)
    ensures
        expr_instrs(st, e) is Ok ==> crate::render::expandable((expr_instrs(st, e)->Ok_0).0),
{
    assert forall|s: EmitState, v: ValueV| #[trigger] value_instrs(s, v) is Ok
        implies crate::render::expandable((value_instrs(s, v)->Ok_0).0) by {
        lemma_value_expandable(s, v);
    }
    if expr_instrs(st, e) is Ok {
        match e {
            ExpressionV::Value(_) => {},
            ExpressionV::Add(a, b) => {
                let r1 = checked_value(st, a);
                let r2 = checked_value(r1->Ok_0.1, b);
                lemma_expandable_shape(
                    r1->Ok_0.0,
                    Instruction::Put(Registers::B),
                    r2->Ok_0.0,
                    seq![Instruction::Add(Registers::B)],
                );
            },
            ExpressionV::Sub(a, b) => {
                let r1 = checked_value(st, b);
                let r2 = checked_value(r1->Ok_0.1, a);
                lemma_expandable_shape(
                    r1->Ok_0.0,
                    Instruction::Put(Registers::B),
                    r2->Ok_0.0,
                    seq![Instruction::Sub(Registers::B)],
                );
            },
            ExpressionV::Mul(a, b) => {
                let r1 = checked_value(st, a);
                let r2 = checked_value(r1->Ok_0.1, b);
                lemma_expandable_shape(
                    r1->Ok_0.0,
                    Instruction::Put(Registers::B),
                    r2->Ok_0.0,
                    seq![Instruction::Put(Registers::C), Instruction::Mul],
                );
            },
            ExpressionV::Div(a, b) => {
                let r1 = value_instrs(check_init(check_init(st, a), b), a);
                let r2 = value_instrs(r1->Ok_0.1, b);
                lemma_expandable_shape(
                    r1->Ok_0.0,
                    Instruction::Put(Registers::B),
                    r2->Ok_0.0,
                    seq![Instruction::Put(Registers::C), Instruction::Div],
                );
            },
            ExpressionV::Mod(a, b) => {
                let r1 = value_instrs(check_init(check_init(st, a), b), a);
                let r2 = value_instrs(r1->Ok_0.1, b);
                lemma_expandable_shape(
                    r1->Ok_0.0,
                    Instruction::Put(Registers::B),
                    r2->Ok_0.0,
                    seq![Instruction::Put(Registers::C), Instruction::Mod],
                );
            },
        }
    }
}

/// Guard lowering never emits the save-program-counter form. All six
/// comparisons in all three contexts share the parked-operand shape.
#[verifier::rlimit(100)]
#[verifier::spinoff_prover]
proof fn lemma_guard_expandable(
    r: Result<(Seq<Instruction>, EmitState), ErrorV>,
    st: EmitState,
    c: ConditionV,
    which: int,
    sub_len: int,
    else_len: int,
)
    requires
        which == 0 ==> r == if_guard(st, c, sub_len, else_len),
        which == 1 ==> r == while_guard(st, c, sub_len),
        which == 2 ==> r == repeat_guard(st, c, sub_len),
        0 <= which <= 2,
    ensures
        r is Ok ==> crate::render::expandable((r->Ok_0).0),
{
    assert forall|s: EmitState, v: ValueV| #[trigger] value_instrs(s, v) is Ok
        implies crate::render::expandable((value_instrs(s, v)->Ok_0).0) by {
        lemma_value_expandable(s, v);
    }
    if r is Ok {
        let out = (r->Ok_0).0;
        let (a, b, first_is_a) = match c {
            ConditionV::Equal(a, b) => (a, b, true),
            ConditionV::NotEqual(a, b) => (a, b, true),
            ConditionV::Greater(a, b) => (a, b, false),
            ConditionV::Lower(a, b) => (a, b, true),
            ConditionV::GreaterOrEqual(a, b) => (a, b, true),
            ConditionV::LowerOrEqual(a, b) => (a, b, false),
        };
        let first = if first_is_a { a } else { b };
        let second = if first_is_a { b } else { a };
        let r1 = value_instrs(st, first);
        let r2 = value_instrs(r1->Ok_0.1, second);
        let sa = r1->Ok_0.0;
        let sb = r2->Ok_0.0;
        assert(crate::render::expandable(sa));
        assert(crate::render::expandable(sb));
        assert forall|tail: Seq<Instruction>| crate::render::expandable(tail) implies
            crate::render::expandable(sa.push(Instruction::Put(Registers::B)) + sb + tail) by {
            lemma_expandable_shape(sa, Instruction::Put(Registers::B), sb, tail);
        }
        // each arm's tail is a literal block of jumps and register
        // operations; the post-test guards append a second literal
        // block after measuring the first
        match c {
            ConditionV::Equal(_, _) => {
                if which == 2 {
                    let base = sa.push(Instruction::Put(Registers::B)) + sb + seq![
                        Instruction::Put(Registers::C),
                        Instruction::Sub(Registers::B),
                    ];
                    let cl = spec_total_len(base) as int;
                    lemma_expandable_concat(
                        base,
                        seq![
                            Instruction::Jpos(sat_back(cl + sub_len)),
                            Instruction::Get(Registers::B),
                            Instruction::Sub(Registers::C),
                            Instruction::Jpos(sat_back(cl + sub_len + 3)),
                        ],
                    );
                }
            },
            ConditionV::NotEqual(_, _) => {
                if which == 2 {
                    let base = sa.push(Instruction::Put(Registers::B)) + sb + seq![
                        Instruction::Put(Registers::C),
                        Instruction::Sub(Registers::B),
                    ];
                    let cl = spec_total_len(base) as int;
                    lemma_expandable_concat(
                        base,
                        seq![
                            Instruction::Jpos(5),
                            Instruction::Get(Registers::B),
                            Instruction::Sub(Registers::C),
                            Instruction::Jpos(2),
                            Instruction::Jump(sat_back(cl + sub_len + 4)),
                        ],
                    );
                }
            },
            ConditionV::Greater(_, _) => {
                if which == 2 {
                    let base = sa.push(Instruction::Put(Registers::B)) + sb + seq![
                        Instruction::Sub(Registers::B),
                        Instruction::Jpos(2),
                    ];
                    let cl = spec_total_len(base) as int;
                    lemma_expandable_concat(
                        base,
                        seq![Instruction::Jump(sat_back(cl + sub_len))],
                    );
                }
            },
            ConditionV::Lower(_, _) => {
                if which == 2 {
                    let base = sa.push(Instruction::Put(Registers::B)) + sb + seq![
                        Instruction::Sub(Registers::B),
                        Instruction::Jpos(2),
                    ];
                    let cl = spec_total_len(base) as int;
                    lemma_expandable_concat(
                        base,
                        seq![Instruction::Jump(sat_back(cl + sub_len))],
                    );
                }
            },
            ConditionV::GreaterOrEqual(_, _) => {
                if which == 2 {
                    let base = sa.push(Instruction::Put(Registers::B)) + sb + seq![
                        Instruction::Sub(Registers::B),
                    ];
                    let cl = spec_total_len(base) as int;
                    lemma_expandable_concat(
                        base,
                        seq![Instruction::Jpos(sat_back(cl + sub_len))],
                    );
                }
            },
            ConditionV::LowerOrEqual(_, _) => {
                if which == 2 {
                    let base = sa.push(Instruction::Put(Registers::B)) + sb + seq![
                        Instruction::Sub(Registers::B),
                    ];
                    let cl = spec_total_len(base) as int;
                    lemma_expandable_concat(
                        base,
                        seq![Instruction::Jpos(sat_back(cl + sub_len))],
                    );
                }
            },
        }
    }
}

/// Command lowering never emits the save-program-counter form.
proof fn lemma_cmd_expandable(
    procs: Map<Seq<char>, BuilderV>,
    st: EmitState,
    c: CommandV,
    fuel: nat,
)
    ensures
        cmd_instrs(procs, st, c, fuel) is Ok ==> crate::render::expandable(
            (cmd_instrs(procs, st, c, fuel)->Ok_0).0,
        ),
    decreases fuel, cmd_size(c), 1int,
{
    if cmd_instrs(procs, st, c, fuel) is Ok {
        match c {
            CommandV::Assign(id, e) => {
                let st0 = EmitState { init: st.init.insert(root_id(id).0), ..st };
                let r1 = resolve_id(st0, id);
                let r2 = expr_instrs(r1->Ok_0.1, e);
                lemma_resolve_expandable(st0, id);
                lemma_expr_expandable(r1->Ok_0.1, e);
                lemma_expandable_shape(
                    r1->Ok_0.0,
                    Instruction::Put(Registers::G),
                    r2->Ok_0.0,
                    seq![Instruction::Store(Registers::G)],
                );
            },
            CommandV::If(cond, cs, els) => {
                let r1 = cmds_instrs(procs, st, cs, fuel);
                let else_cmds = match els {
                    Some(x) => x,
                    None => Seq::empty(),
                };
                lemma_cmds_expandable(procs, st, cs, fuel);
                let r2 = cmds_instrs(procs, r1->Ok_0.1, else_cmds, fuel);
                lemma_cmds_expandable(procs, r1->Ok_0.1, else_cmds, fuel);
                let sub = r1->Ok_0.0;
                let sels = r2->Ok_0.0;
                let ls = spec_total_len(sub) as int;
                let le = spec_total_len(sels) as int;
                let g = if_guard(r2->Ok_0.1, cond, ls, le);
                lemma_guard_expandable(g, r2->Ok_0.1, cond, 0, ls, le);
                if if_swapped(cond) {
                    lemma_expandable_concat((g->Ok_0).0, sels);
                    lemma_expandable_concat(
                        (g->Ok_0).0 + sels,
                        seq![Instruction::Jump(sat_fwd(ls + 1))],
                    );
                    lemma_expandable_concat(
                        (g->Ok_0).0 + sels + seq![Instruction::Jump(sat_fwd(ls + 1))],
                        sub,
                    );
                } else {
                    lemma_expandable_concat((g->Ok_0).0, sub);
                    lemma_expandable_concat(
                        (g->Ok_0).0 + sub,
                        seq![Instruction::Jump(sat_fwd(le + 1))],
                    );
                    lemma_expandable_concat(
                        (g->Ok_0).0 + sub + seq![Instruction::Jump(sat_fwd(le + 1))],
                        sels,
                    );
                }
            },
            CommandV::While(cond, cs) => {
                let r1 = cmds_instrs(procs, st, cs, fuel);
                lemma_cmds_expandable(procs, st, cs, fuel);
                let sub = r1->Ok_0.0;
                let ls = spec_total_len(sub) as int;
                let g = while_guard(r1->Ok_0.1, cond, ls);
                lemma_guard_expandable(g, r1->Ok_0.1, cond, 1, ls, 0);
                lemma_expandable_concat((g->Ok_0).0, sub);
                lemma_expandable_concat(
                    (g->Ok_0).0 + sub,
                    seq![Instruction::Jump(sat_back(ls + spec_total_len((g->Ok_0).0)))],
                );
            },
            CommandV::Repeat(cs, cond) => {
                let r1 = cmds_instrs(procs, st, cs, fuel);
                lemma_cmds_expandable(procs, st, cs, fuel);
                let sub = r1->Ok_0.0;
                let ls = spec_total_len(sub) as int;
                let g = repeat_guard(r1->Ok_0.1, cond, ls);
                lemma_guard_expandable(g, r1->Ok_0.1, cond, 2, ls, 0);
                lemma_expandable_concat(sub, (g->Ok_0).0);
            },
            CommandV::ProcCall(pid, args) => {
                let b = procs[pid.0];
                let st1 = match b.decls {
                    Some(ds) => alloc_locals(st, ds, pid.0),
                    None => st,
                };
                let bound = bind_formals(st1, args, b.args, b.decls, pid.0);
                lemma_cmds_expandable(procs, bound->Ok_0, b.cmds, (fuel - 1) as nat);
            },
            CommandV::Read(id) => {
                let st0 = EmitState { init: st.init.insert(root_id(id).0), ..st };
                lemma_resolve_expandable(st0, id);
                let r1 = resolve_id(st0, id);
                lemma_expandable_concat(
                    r1->Ok_0.0,
                    seq![
                        Instruction::Put(Registers::G),
                        Instruction::Read,
                        Instruction::Store(Registers::G),
                    ],
                );
            },
            CommandV::Write(v) => {
                lemma_value_expandable(st, v);
                lemma_expandable_push((value_instrs(st, v)->Ok_0).0, Instruction::Write);
            },
        }
    }
}

proof fn lemma_cmds_expandable(
    procs: Map<Seq<char>, BuilderV>,
    st: EmitState,
    cs: Seq<CommandV>,
    fuel: nat,
)
    ensures
        cmds_instrs(procs, st, cs, fuel) is Ok ==> crate::render::expandable(
            (cmds_instrs(procs, st, cs, fuel)->Ok_0).0,
        ),
    decreases fuel, cmds_size(cs), 0int,
{
    if cmds_instrs(procs, st, cs, fuel) is Ok && cs.len() > 0 {
        let r1 = cmds_instrs(procs, st, cs.drop_last(), fuel);
        lemma_cmds_expandable(procs, st, cs.drop_last(), fuel);
        lemma_cmd_expandable(procs, r1->Ok_0.1, cs.last(), fuel);
        lemma_expandable_concat(
            r1->Ok_0.0,
            (cmd_instrs(procs, r1->Ok_0.1, cs.last(), fuel)->Ok_0).0,
        );
    }
}

/// A compiled program is printable line for line: the macro-length
/// invariant then gives its emitted line count exactly as the sum of
/// its instructions' declared lengths.
pub proof fn lemma_program_line_count(
    procs: Map<Seq<char>, BuilderV>,
    st: EmitState,
    cs: Seq<CommandV>,
    fuel: nat,
)
    requires
        program_instrs(procs, st, cs, fuel) is Ok,
    ensures
        crate::render::stream_lines((program_instrs(procs, st, cs, fuel)->Ok_0).0, 0).len()
            == spec_total_len((program_instrs(procs, st, cs, fuel)->Ok_0).0),
{
    lemma_cmds_expandable(procs, st, cs, fuel);
    let body = (cmds_instrs(procs, st, cs, fuel)->Ok_0).0;
    lemma_expandable_push(body, Instruction::Halt);
    crate::render::lemma_stream_line_count(body.push(Instruction::Halt), 0);
}

/// A whole program's stream: the main command list followed by `HALT`.
pub open spec fn program_instrs(
    procs: Map<Seq<char>, BuilderV>,
    st: EmitState,
    cs: Seq<CommandV>,
    fuel: nat,
) -> Result<(Seq<Instruction>, EmitState), ErrorV> {
    match cmds_instrs(procs, st, cs, fuel) {
        Ok((s, st1)) => Ok((s.push(Instruction::Halt), st1)),
        Err(er) => Err(er),
    }
}

} // verus!
