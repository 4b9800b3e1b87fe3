//! The code generator: register roles, storage descriptors, the value
//! loader, and the emitter that walks the syntax tree and produces the
//! abstract instruction stream.
use vstd::prelude::*;

verus! {

use crate::ast::{
    cmds_view, decls_view, ids_view, Arguments, ArgumentsDeclarationVariant, CommandV, Command,
    Commands, Condition, Declarations, DeclarationVariant, DeclV, Identifier, Procedure,
    Procedures, Program, SourceIdent, Value, Expression,
};
use crate::compile::{
    alloc_main, check_init, checked_value, cmd_emits_match, emits_match, empty_state,
    expr_instrs, resolve_base, resolve_dynamic, resolve_id, resolve_indexed, st_emits_match,
    value_instrs, BuilderV, EmitState,
};
use crate::error::CompilerError;
use crate::render::{
    instr_lines, lemma_text_of_push, push_jump_line, push_reg_line, stream_lines, text_of, AsmLine,
};
use vstd::string::StringExecFns;
use crate::instruct::{build_procs, off_back2, off_fwd, total_len, Instruction, ProcedureBuilder};
use crate::table::{StrMap, StrSet};

/// The eight named registers of the target machine. `A` is the
/// accumulator; the others have fixed roles in the emitted code.
#[derive(Debug, PartialEq, Eq, Clone, Copy)]
pub enum Registers {
    A,
    B,
    C,
    D,
    E,
    F,
    G,
    H,
}

/// Storage descriptor of a declared name: a scalar cell at an address,
/// or an array as a base address and a length.
#[derive(Debug, PartialEq, Eq, Clone, Copy)]
pub enum VariableVariant {
    Atomic(u64),
    Table(u64, u64),
}

/// The shift/increment suffix of the value loader: executed after the
/// accumulator holds 1, it scales the accumulator up to `n`.
pub open spec fn loader_suffix(n: nat) -> Seq<Instruction>
    decreases n,
{
    if n <= 1 {
        Seq::empty()
    } else if n % 2 == 1 {
        loader_suffix((n - 1) as nat).push(Instruction::Inc(Registers::A))
    } else {
        loader_suffix(n / 2).push(Instruction::Shl(Registers::A))
    }
}

/// The exact output of the value loader for `n`: clear the accumulator,
/// and for a nonzero target raise it to 1 and scale up.
pub open spec fn loader_seq(n: nat) -> Seq<Instruction> {
    if n == 0 {
        seq![Instruction::Rst(Registers::A)]
    } else {
        seq![Instruction::Rst(Registers::A), Instruction::Inc(Registers::A)] + loader_suffix(n)
    }
}

/// What one loader instruction does to the accumulator.
pub open spec fn loader_step(a: nat, i: Instruction) -> nat {
    match i {
        Instruction::Rst(Registers::A) => 0,
        Instruction::Inc(Registers::A) => a + 1,
        Instruction::Shl(Registers::A) => a * 2,
        _ => a,
    }
}

/// The accumulator after executing a loader sequence from `a`: the
/// instructions apply in order, the last one last.
pub open spec fn loader_exec(s: Seq<Instruction>, a: nat) -> nat
    decreases s.len(),
{
    if s.len() == 0 {
        a
    } else {
        loader_step(loader_exec(s.drop_last(), a), s.last())
    }
}

/// Executing a concatenation is executing the second part from where
/// the first part left off.
pub proof fn lemma_loader_exec_concat(p: Seq<Instruction>, q: Seq<Instruction>, a: nat)
    ensures
        loader_exec(p + q, a) == loader_exec(q, loader_exec(p, a)),
    decreases q.len(),
{
    if q.len() == 0 {
        assert(p + q =~= p);
    } else {
        assert((p + q).drop_last() =~= p + q.drop_last());
        assert((p + q).last() == q.last());
        lemma_loader_exec_concat(p, q.drop_last(), a);
    }
}

/// Executing the loader suffix from 1 yields exactly `n`.
proof fn lemma_loader_suffix_exec(n: nat)
    requires
        n >= 1,
    ensures
        loader_exec(loader_suffix(n), 1) == n,
    decreases n,
{
    if n == 1 {
    } else if n % 2 == 1 {
        let prev = loader_suffix((n - 1) as nat);
        assert(prev.push(Instruction::Inc(Registers::A)).drop_last() =~= prev);
        assert(prev.push(Instruction::Inc(Registers::A)).last() == Instruction::Inc(Registers::A));
        lemma_loader_suffix_exec((n - 1) as nat);
    } else {
        let prev = loader_suffix(n / 2);
        assert(prev.push(Instruction::Shl(Registers::A)).drop_last() =~= prev);
        assert(prev.push(Instruction::Shl(Registers::A)).last() == Instruction::Shl(Registers::A));
        lemma_loader_suffix_exec(n / 2);
    }
}

/// The value loader is correct: run from any accumulator value, its
/// output leaves exactly `n` in the accumulator.
pub proof fn lemma_loader_correct(n: nat, a: nat)
    ensures
        loader_exec(loader_seq(n), a) == n,
{
    let head = seq![Instruction::Rst(Registers::A), Instruction::Inc(Registers::A)];
    assert(head.drop_last() =~= seq![Instruction::Rst(Registers::A)]);
    assert(head.drop_last().drop_last() =~= Seq::<Instruction>::empty());
    assert(loader_exec(head.drop_last().drop_last(), a) == a);
    assert(head.drop_last().last() == Instruction::Rst(Registers::A));
    assert(loader_exec(head.drop_last(), a) == 0);
    assert(head.last() == Instruction::Inc(Registers::A));
    assert(loader_exec(head, a) == 1);
    if n == 0 {
        assert(loader_seq(0).drop_last() =~= Seq::<Instruction>::empty());
    } else {
        lemma_loader_exec_concat(head, loader_suffix(n), a);
        lemma_loader_suffix_exec(n);
    }
}

/// Emits the shortest clear/increment/shift prefix that leaves `num` in
/// the accumulator: clear; for a nonzero target, raise to 1, then apply
/// the recorded halving walk in reverse, doubling and incrementing up
/// to the target.
pub fn put_in_a(num: u64) -> (r: Vec<Instruction>)
    ensures
        r@ == loader_seq(num as nat),
{
    let mut instructions: Vec<Instruction> = Vec::new();
    instructions.push(Instruction::Rst(Registers::A));
    let mut n = num;
    if n != 0 {
        instructions.push(Instruction::Inc(Registers::A));
        let mut sub_instructions: Vec<Instruction> = Vec::new();
        while n != 1
            invariant
                1 <= n <= num,
                loader_suffix(num as nat) == loader_suffix(n as nat) + sub_instructions@.reverse(),
            decreases n,
        {
            if n % 2 == 1 {
                sub_instructions.push(Instruction::Inc(Registers::A));
                proof {
                    let prev = sub_instructions@.drop_last();
                    assert(sub_instructions@.reverse() =~= seq![
                        Instruction::Inc(Registers::A),
                    ] + prev.reverse());
                    assert(loader_suffix(n as nat) == loader_suffix((n - 1) as nat).push(
                        Instruction::Inc(Registers::A),
                    ));
                    assert(loader_suffix((n - 1) as nat) + sub_instructions@.reverse()
                        =~= loader_suffix(n as nat) + prev.reverse());
                }
                n = n - 1;
            } else {
                sub_instructions.push(Instruction::Shl(Registers::A));
                proof {
                    let prev = sub_instructions@.drop_last();
                    assert(sub_instructions@.reverse() =~= seq![
                        Instruction::Shl(Registers::A),
                    ] + prev.reverse());
                    assert(loader_suffix(n as nat) == loader_suffix((n / 2) as nat).push(
                        Instruction::Shl(Registers::A),
                    ));
                    assert(loader_suffix((n / 2) as nat) + sub_instructions@.reverse()
                        =~= loader_suffix(n as nat) + prev.reverse());
                }
                n = n / 2;
            }
        }
        let m = sub_instructions.len();
        let mut j: usize = m;
        while j > 0
            invariant
                0 <= j <= m,
                m == sub_instructions@.len(),
                instructions@ == seq![
                    Instruction::Rst(Registers::A),
                    Instruction::Inc(Registers::A),
                ] + sub_instructions@.subrange(j as int, m as int).reverse(),
            decreases j,
        {
            j = j - 1;
            let instr = sub_instructions[j];
            instructions.push(instr);
            proof {
                assert(sub_instructions@.subrange(j as int, m as int).reverse()
                    =~= sub_instructions@.subrange(j + 1, m as int).reverse().push(
                    sub_instructions@[j as int],
                ));
            }
        }
        proof {
            assert(sub_instructions@.subrange(0, m as int) =~= sub_instructions@);
            assert(loader_suffix(1) =~= Seq::<Instruction>::empty());
            assert(loader_suffix(num as nat) =~= sub_instructions@.reverse());
        }
    }
    proof {
        if num == 0 {
            assert(instructions@ =~= loader_seq(num as nat));
        } else {
            assert(instructions@ =~= loader_seq(num as nat));
        }
    }
    instructions
}

/// The view of a procedure table: each stored record's view under its
/// name.
pub open spec fn pmap_view(m: Map<Seq<char>, ProcedureBuilder>) -> Map<Seq<char>, BuilderV> {
    Map::new(|k: Seq<char>| m.dom().contains(k), |k: Seq<char>| m[k]@)
}

proof fn lemma_pmap_view_insert(m: Map<Seq<char>, ProcedureBuilder>, k: Seq<char>, b: ProcedureBuilder)
    ensures
        pmap_view(m.insert(k, b)) == pmap_view(m).insert(k, b@),
{
    assert(pmap_view(m.insert(k, b)) =~= pmap_view(m).insert(k, b@));
}

/// The view of the warning list: each message as a character sequence.
pub open spec fn warns_seq(v: Seq<String>) -> Seq<Seq<char>> {
    v.map_values(|s: String| s@)
}

/// The emitter: the instruction stream produced so far, the procedure
/// table, the symbol table with its allocation pointer, the
/// initialization set, the main program's command list, and the
/// warnings put out while emitting.
#[derive(Debug)]
pub struct Emitter {
    pseudo_assembly: Vec<Instruction>,
    procedures: StrMap<ProcedureBuilder>,
    memory: StrMap<VariableVariant>,
    initialisated_variables: StrSet,
    memory_pointer: u64,
    main_commands: Commands,
    warnings: Vec<String>,
}

impl Emitter {
    /// The tables keep their keys distinct.
    pub closed spec fn wf(&self) -> bool {
        &&& self.memory.wf()
        &&& self.procedures.wf()
        &&& self.initialisated_variables.wf()
    }

    /// The procedure table, as a map of record views.
    pub closed spec fn procs_view(&self) -> Map<Seq<char>, BuilderV> {
        pmap_view(self.procedures@)
    }

    /// How many procedures are declared.
    pub closed spec fn procs_len(&self) -> nat {
        self.procedures.spec_len()
    }

    /// The emitter state threaded by the model: symbol table,
    /// initialization set, allocation pointer, warnings.
    pub closed spec fn st(&self) -> EmitState {
        EmitState {
            mem: self.memory@,
            init: self.initialisated_variables@,
            ptr: self.memory_pointer,
            warns: warns_seq(self.warnings@),
        }
    }

    /// The abstract instruction stream produced so far.
    pub closed spec fn code_view(&self) -> Seq<Instruction> {
        self.pseudo_assembly@
    }

    /// The main program's command list.
    pub closed spec fn main_view(&self) -> Seq<CommandV> {
        cmds_view(self.main_commands@)
    }

    /// The warnings put out so far, for the front-end to print.
    pub fn warnings(&self) -> (r: &Vec<String>)
        ensures
            warns_seq(r@) == self.st().warns,
    {
        &self.warnings
    }

    /// Builds the emitter for a program: stores each procedure under
    /// its name, rejecting a reused one, then allocates the main
    /// program's declarations in order from address zero.
    #[verifier::rlimit(50)]
    pub fn new(ast: Program) -> (r: Result<Emitter, CompilerError>)
        ensures
            match r {
                Ok(em) => {
                    &&& em.wf()
                    &&& build_procs(spec_procs_of(ast)) is Ok
                    &&& em.procs_view() == build_procs(spec_procs_of(ast))->Ok_0
                    &&& em.st() == alloc_main(empty_state(), spec_decls_of(ast))
                    &&& em.code_view() == Seq::<Instruction>::empty()
                    &&& em.main_view() == cmds_view(ast.1.1@)
                },
                Err(e) => {
                    &&& build_procs(spec_procs_of(ast)) is Err
                    &&& e@ == build_procs(spec_procs_of(ast))->Err_0
                },
            },
    {
        let (procs_opt, main) = ast;
        let (decls_opt, main_commands) = main;
        let ghost ps0 = spec_procs_of_parts(&procs_opt);
        let mut procedures: StrMap<ProcedureBuilder> = StrMap::new();
        match procs_opt {
            Some(procedures_ast) => {
                let mut input = procedures_ast;
                let ghost mut k: int = 0;
                proof {
                    assert(input@ =~= ps0.subrange(0, ps0.len() as int));
                    assert(ps0.subrange(0, 0) =~= Seq::<Procedure>::empty());
                    assert(pmap_view(procedures@) =~= Map::<Seq<char>, BuilderV>::empty());
                }
                #[verifier::loop_isolation(false)]
                while input.len() > 0
                    invariant
                        0 <= k <= ps0.len(),
                        input@ == ps0.subrange(k, ps0.len() as int),
                        procedures.wf(),
                        build_procs(ps0.subrange(0, k)) is Ok,
                        pmap_view(procedures@) == build_procs(ps0.subrange(0, k))->Ok_0,
                    decreases input@.len(),
                {
                    let procedure = input.remove(0);
                    proof {
                        assert(procedure == ps0[k]);
                    }
                    let key = procedure.0.0.0.clone();
                    let err_name = procedure.0.0.0.clone();
                    let err_byte = procedure.0.0.1;
                    let pb = ProcedureBuilder::new(procedure);
                    let ghost m_pre = procedures@;
                    let was_present = procedures.insert(key, pb);
                    proof {
                        let pre = ps0.subrange(0, k);
                        assert(ps0.subrange(0, k + 1) =~= pre.push(ps0[k]));
                        assert(ps0.subrange(0, k + 1).drop_last() =~= pre);
                        lemma_pmap_view_insert(m_pre, ps0[k].0.0.0@, pb);
                    }
                    if was_present {
                        proof {
                            crate::instruct::lemma_build_procs_prefix_err(ps0, k + 1);
                        }
                        return Err(
                            CompilerError::DuplicateProcedureDeclaration(err_name, err_byte),
                        );
                    }
                    proof {
                        assert(input@ =~= ps0.subrange(k + 1, ps0.len() as int));
                        k = k + 1;
                    }
                }
                proof {
                    assert(ps0.subrange(0, k) =~= ps0);
                }
            },
            None => {
                proof {
                    assert(pmap_view(procedures@) =~= Map::<Seq<char>, BuilderV>::empty());
                }
            },
        }
        let ghost ds0 = spec_decls_of_parts(&decls_opt);
        let mut memory: StrMap<VariableVariant> = StrMap::new();
        let mut memory_pointer: u64 = 0;
        match decls_opt {
            Some(vars) => {
                let mut input = vars;
                let ghost mut k: int = 0;
                proof {
                    assert(input@ =~= ds0.subrange(0, ds0.len() as int));
                    assert(decls_view(ds0.subrange(0, 0)) =~= Seq::<DeclV>::empty());
                    assert(memory@ =~= Map::<Seq<char>, VariableVariant>::empty());
                }
                #[verifier::loop_isolation(false)]
                while input.len() > 0
                    invariant
                        0 <= k <= ds0.len(),
                        input@ == ds0.subrange(k, ds0.len() as int),
                        memory.wf(),
                        memory@ == alloc_main(empty_state(), decls_view(ds0.subrange(0, k))).mem,
                        memory_pointer == alloc_main(
                            empty_state(),
                            decls_view(ds0.subrange(0, k)),
                        ).ptr,
                    decreases input@.len(),
                {
                    let var = input.remove(0);
                    proof {
                        assert(var == ds0[k]);
                        let pre = ds0.subrange(0, k);
                        assert(ds0.subrange(0, k + 1) =~= pre.push(ds0[k]));
                        lemma_decls_view_push(pre, ds0[k]);
                    }
                    match var {
                        DeclarationVariant::Base(id) => {
                            memory.insert(id.0, VariableVariant::Atomic(memory_pointer));
                            memory_pointer = memory_pointer.wrapping_add(1);
                        },
                        DeclarationVariant::NumIndexed(id, size) => {
                            memory.insert(id.0, VariableVariant::Table(memory_pointer, size));
                            memory_pointer = memory_pointer.wrapping_add(size);
                        },
                    }
                    proof {
                        assert(input@ =~= ds0.subrange(k + 1, ds0.len() as int));
                        k = k + 1;
                        let now = decls_view(ds0.subrange(0, k));
                        assert(now.drop_last() =~= decls_view(ds0.subrange(0, k - 1)));
                    }
                }
                proof {
                    assert(ds0.subrange(0, k) =~= ds0);
                }
            },
            None => {
                proof {
                    assert(memory@ =~= Map::<Seq<char>, VariableVariant>::empty());
                    assert(decls_view(Seq::<DeclarationVariant>::empty())
                        =~= Seq::<DeclV>::empty());
                }
            },
        }
        let em = Emitter {
            pseudo_assembly: Vec::new(),
            procedures,
            memory,
            memory_pointer,
            main_commands,
            initialisated_variables: StrSet::new(),
            warnings: Vec::new(),
        };
        proof {
            assert(warns_seq(em.warnings@) =~= Seq::<Seq<char>>::empty());
            crate::compile::lemma_alloc_main_keeps(empty_state(), ds0_view_of(ds0));
            assert(em.st() =~= alloc_main(empty_state(), ds0_view_of(ds0)));
        }
        Ok(em)
    }
}

impl Emitter {
    /// Everything but the threaded state is untouched: the instruction
    /// stream, the procedure table and the main command list.
    pub open spec fn frame_kept(&self, pre: &Emitter) -> bool {
        &&& self.wf()
        &&& self.procs_view() == pre.procs_view()
        &&& self.procs_len() == pre.procs_len()
        &&& self.code_view() == pre.code_view()
        &&& self.main_view() == pre.main_view()
    }

    /// Records the use-before-initialization warning for `name` if the
    /// initialization set does not hold it.
    fn warn_if_uninitialised(&mut self, name: &String)
        requires
            old(self).wf(),
        ensures
            final(self).frame_kept(old(self)),
            final(self).st() == old(self).st().maybe_warn(name@),
    {
        if !self.initialisated_variables.contains(name) {
            let w = crate::names::warning_for(name);
            let ghost w0 = self.warnings@;
            self.warnings.push(w);
            proof {
                assert(warns_seq(self.warnings@) =~= warns_seq(w0).push(w@));
                assert(self.st() =~= old(self).st().maybe_warn(name@));
            }
        } else {
            proof {
                assert(self.st() =~= old(self).st().maybe_warn(name@));
            }
        }
    }

    /// Warns when a value position reads an identifier that is not
    /// known to be initialized.
    fn check_if_initialised(&mut self, value: &Value)
        requires
            old(self).wf(),
        ensures
            final(self).frame_kept(old(self)),
            final(self).st() == check_init(old(self).st(), value@),
    {
        match value {
            Value::Num(_) => {
                proof {
                    assert(self.st() =~= check_init(old(self).st(), value@));
                }
            },
            Value::Id(identifier) => {
                let id = match identifier {
                    Identifier::Base(id) => id,
                    Identifier::NumIndexed(id, _) => id,
                    Identifier::PidIndexed(id, _) => id,
                };
                self.warn_if_uninitialised(&id.0);
            },
        }
    }

    /// Instructions leaving a scalar's address in the accumulator.
    fn access_common_variable(&self, id: &SourceIdent) -> (r: Result<
        Vec<Instruction>,
        CompilerError,
    >)
        requires
            self.wf(),
        ensures
            emits_match(r, resolve_base(self.st(), id@)),
    {
        match self.memory.get(&id.0) {
            None => Err(CompilerError::UndeclaredVariable(id.0.clone(), id.1)),
            Some(variable) => match *variable {
                VariableVariant::Atomic(pointer) => Ok(put_in_a(pointer)),
                VariableVariant::Table(_, _) => Err(
                    CompilerError::IncorrectUseOfVariable(id.0.clone(), id.1),
                ),
            },
        }
    }

    /// Instructions leaving a fixed-index array element's address in
    /// the accumulator, after the bounds check.
    fn access_array_element(&self, id: &SourceIdent, num: u64) -> (r: Result<
        Vec<Instruction>,
        CompilerError,
    >)
        requires
            self.wf(),
        ensures
            emits_match(r, resolve_indexed(self.st(), id@, num)),
    {
        match self.memory.get(&id.0) {
            None => Err(CompilerError::UndeclaredVariable(id.0.clone(), id.1)),
            Some(variable) => match *variable {
                VariableVariant::Atomic(_) => Err(
                    CompilerError::IncorrectUseOfVariable(id.0.clone(), id.1),
                ),
                VariableVariant::Table(pointer, size) => {
                    if num >= size {
                        Err(CompilerError::IndexOutOfBounds(id.0.clone(), id.1))
                    } else {
                        let addr = pointer.wrapping_add(num);
                        proof {
                            assert(addr == crate::compile::wadd(pointer, num));
                        }
                        Ok(put_in_a(addr))
                    }
                },
            },
        }
    }

    /// Instructions leaving a variable-index array element's address
    /// in the accumulator: the index variable's value parked in H,
    /// added to the array base.
    fn access_dynamic_index_element(&mut self, id: &SourceIdent, index_id: &SourceIdent) -> (r:
        Result<Vec<Instruction>, CompilerError>)
        requires
            old(self).wf(),
        ensures
            final(self).frame_kept(old(self)),
            st_emits_match(
                r,
                resolve_dynamic(old(self).st(), id@, index_id@),
                old(self).st(),
                final(self).st(),
            ),
    {
        self.warn_if_uninitialised(&index_id.0);
        match self.memory.get(&index_id.0) {
            None => {
                return Err(CompilerError::UndeclaredVariable(index_id.0.clone(), index_id.1));
            },
            Some(variable) => match *variable {
                VariableVariant::Table(_, _) => {
                    return Err(CompilerError::ArrayUsedAsIndex(id.0.clone(), id.1));
                },
                VariableVariant::Atomic(pointer) => {
                    let mut instructions = put_in_a(pointer);
                    instructions.push(Instruction::Load(Registers::A));
                    instructions.push(Instruction::Put(Registers::H));
                    match self.memory.get(&id.0) {
                        None => Err(CompilerError::UndeclaredVariable(id.0.clone(), id.1)),
                        Some(target) => match *target {
                            VariableVariant::Atomic(_) => Err(
                                CompilerError::IncorrectUseOfVariable(id.0.clone(), id.1),
                            ),
                            VariableVariant::Table(base, _) => {
                                let mut tail = put_in_a(base);
                                instructions.append(&mut tail);
                                instructions.push(Instruction::Add(Registers::H));
                                proof {
                                    assert(instructions@ =~= loader_seq(pointer as nat) + seq![
                                        Instruction::Load(Registers::A),
                                        Instruction::Put(Registers::H),
                                    ] + loader_seq(base as nat) + seq![
                                        Instruction::Add(Registers::H),
                                    ]);
                                }
                                Ok(instructions)
                            },
                        },
                    }
                },
            },
        }
    }

    /// Instructions leaving an identifier occurrence's address in the
    /// accumulator, whichever shape it has.
    fn load_variable_address(&mut self, identifier: &Identifier) -> (r: Result<
        Vec<Instruction>,
        CompilerError,
    >)
        requires
            old(self).wf(),
        ensures
            final(self).frame_kept(old(self)),
            st_emits_match(
                r,
                resolve_id(old(self).st(), identifier@),
                old(self).st(),
                final(self).st(),
            ),
    {
        match identifier {
            Identifier::Base(id) => self.access_common_variable(id),
            Identifier::NumIndexed(id, num) => self.access_array_element(id, *num),
            Identifier::PidIndexed(id, index_id) => self.access_dynamic_index_element(
                id,
                index_id,
            ),
        }
    }

    /// Instructions leaving a value position's value in the
    /// accumulator.
    fn extract_value(&mut self, value: &Value) -> (r: Result<Vec<Instruction>, CompilerError>)
        requires
            old(self).wf(),
        ensures
            final(self).frame_kept(old(self)),
            st_emits_match(
                r,
                value_instrs(old(self).st(), value@),
                old(self).st(),
                final(self).st(),
            ),
    {
        match value {
            Value::Num(num) => Ok(put_in_a(*num)),
            Value::Id(identifier) => {
                let mut sub_instructions = self.load_variable_address(identifier)?;
                sub_instructions.push(Instruction::Load(Registers::A));
                Ok(sub_instructions)
            },
        }
    }

    /// An initialization check followed by value extraction, as the
    /// expression operands do it.
    fn checked_extract(&mut self, value: &Value) -> (r: Result<Vec<Instruction>, CompilerError>)
        requires
            old(self).wf(),
        ensures
            final(self).frame_kept(old(self)),
            st_emits_match(
                r,
                checked_value(old(self).st(), value@),
                old(self).st(),
                final(self).st(),
            ),
    {
        self.check_if_initialised(value);
        self.extract_value(value)
    }

    /// Instructions for evaluating an expression: operands through the
    /// fixed register roles, the three heavy operators as synthetic
    /// macros.
    #[verifier::rlimit(100)]
    fn make_expressions(&mut self, expression: &Expression) -> (r: Result<
        Vec<Instruction>,
        CompilerError,
    >)
        requires
            old(self).wf(),
        ensures
            final(self).frame_kept(old(self)),
            st_emits_match(
                r,
                expr_instrs(old(self).st(), expression@),
                old(self).st(),
                final(self).st(),
            ),
    {
        match expression {
            Expression::Value(value) => self.checked_extract(value),
            Expression::Add(value_0, value_1) => {
                let mut instructions = self.checked_extract(value_0)?;
                instructions.push(Instruction::Put(Registers::B));
                let mut rhs = self.checked_extract(value_1)?;
                instructions.append(&mut rhs);
                instructions.push(Instruction::Add(Registers::B));
                proof {
                    let sres = expr_instrs(old(self).st(), expression@);
                    assert(sres is Ok);
                    assert(instructions@ =~= sres->Ok_0.0);
                }
                Ok(instructions)
            },
            Expression::Sub(value_0, value_1) => {
                let mut instructions = self.checked_extract(value_1)?;
                instructions.push(Instruction::Put(Registers::B));
                let mut lhs = self.checked_extract(value_0)?;
                instructions.append(&mut lhs);
                instructions.push(Instruction::Sub(Registers::B));
                proof {
                    let sres = expr_instrs(old(self).st(), expression@);
                    assert(sres is Ok);
                    assert(instructions@ =~= sres->Ok_0.0);
                }
                Ok(instructions)
            },
            Expression::Mul(value_0, value_1) => {
                let mut instructions = self.checked_extract(value_0)?;
                instructions.push(Instruction::Put(Registers::B));
                let mut rhs = self.checked_extract(value_1)?;
                instructions.append(&mut rhs);
                instructions.push(Instruction::Put(Registers::C));
                instructions.push(Instruction::Mul);
                proof {
                    let sres = expr_instrs(old(self).st(), expression@);
                    assert(sres is Ok);
                    assert(instructions@ =~= sres->Ok_0.0);
                }
                Ok(instructions)
            },
            Expression::Div(value_0, value_1) => {
                self.check_if_initialised(value_0);
                self.check_if_initialised(value_1);
                let mut instructions = self.extract_value(value_0)?;
                instructions.push(Instruction::Put(Registers::B));
                let mut rhs = self.extract_value(value_1)?;
                instructions.append(&mut rhs);
                instructions.push(Instruction::Put(Registers::C));
                instructions.push(Instruction::Div);
                proof {
                    let sres = expr_instrs(old(self).st(), expression@);
                    assert(sres is Ok);
                    assert(instructions@ =~= sres->Ok_0.0);
                }
                Ok(instructions)
            },
            Expression::Mod(value_0, value_1) => {
                self.check_if_initialised(value_0);
                self.check_if_initialised(value_1);
                let mut instructions = self.extract_value(value_0)?;
                instructions.push(Instruction::Put(Registers::B));
                let mut rhs = self.extract_value(value_1)?;
                instructions.append(&mut rhs);
                instructions.push(Instruction::Put(Registers::C));
                instructions.push(Instruction::Mod);
                proof {
                    let sres = expr_instrs(old(self).st(), expression@);
                    assert(sres is Ok);
                    assert(instructions@ =~= sres->Ok_0.0);
                }
                Ok(instructions)
            },
        }
    }
}

impl Emitter {
    /// The guard block of a two-armed conditional, parameterized by the
    /// expanded lengths of the two arms.
    #[verifier::rlimit(100)]
    fn emit_if_guard(&mut self, condition: &Condition, sub_len: u128, else_len: u128) -> (r:
        Result<Vec<Instruction>, CompilerError>)
        requires
            old(self).wf(),
        ensures
            final(self).frame_kept(old(self)),
            st_emits_match(
                r,
                crate::compile::if_guard(
                    old(self).st(),
                    condition@,
                    sub_len as int,
                    else_len as int,
                ),
                old(self).st(),
                final(self).st(),
            ),
    {
        let ghost sres = crate::compile::if_guard(
            old(self).st(),
            condition@,
            sub_len as int,
            else_len as int,
        );
        match condition {
            Condition::Equal(value_0, value_1) => {
                let mut instructions = self.extract_value(value_0)?;
                instructions.push(Instruction::Put(Registers::B));
                let mut second = self.extract_value(value_1)?;
                instructions.append(&mut second);
                instructions.push(Instruction::Put(Registers::C));
                instructions.push(Instruction::Sub(Registers::B));
                instructions.push(Instruction::Jpos(off_fwd(sub_len, 5)));
                instructions.push(Instruction::Get(Registers::B));
                instructions.push(Instruction::Sub(Registers::C));
                instructions.push(Instruction::Jpos(off_fwd(sub_len, 2)));
                proof {
                    assert(sres is Ok);
                    assert(instructions@ =~= sres->Ok_0.0);
                }
                Ok(instructions)
            },
            Condition::NotEqual(value_0, value_1) => {
                let mut instructions = self.extract_value(value_0)?;
                instructions.push(Instruction::Put(Registers::B));
                let mut second = self.extract_value(value_1)?;
                instructions.append(&mut second);
                instructions.push(Instruction::Put(Registers::C));
                instructions.push(Instruction::Sub(Registers::B));
                instructions.push(Instruction::Jpos(off_fwd(else_len, 5)));
                instructions.push(Instruction::Get(Registers::B));
                instructions.push(Instruction::Sub(Registers::C));
                instructions.push(Instruction::Jpos(off_fwd(else_len, 2)));
                proof {
                    assert(sres is Ok);
                    assert(instructions@ =~= sres->Ok_0.0);
                }
                Ok(instructions)
            },
            Condition::Greater(value_0, value_1) => {
                let mut instructions = self.extract_value(value_1)?;
                instructions.push(Instruction::Put(Registers::B));
                let mut second = self.extract_value(value_0)?;
                instructions.append(&mut second);
                instructions.push(Instruction::Sub(Registers::B));
                instructions.push(Instruction::Jpos(off_fwd(else_len, 2)));
                proof {
                    assert(sres is Ok);
                    assert(instructions@ =~= sres->Ok_0.0);
                }
                Ok(instructions)
            },
            Condition::Lower(value_0, value_1) => {
                let mut instructions = self.extract_value(value_0)?;
                instructions.push(Instruction::Put(Registers::B));
                let mut second = self.extract_value(value_1)?;
                instructions.append(&mut second);
                instructions.push(Instruction::Sub(Registers::B));
                instructions.push(Instruction::Jpos(off_fwd(else_len, 2)));
                proof {
                    assert(sres is Ok);
                    assert(instructions@ =~= sres->Ok_0.0);
                }
                Ok(instructions)
            },
            Condition::GreaterOrEqual(value_0, value_1) => {
                let mut instructions = self.extract_value(value_0)?;
                instructions.push(Instruction::Put(Registers::B));
                let mut second = self.extract_value(value_1)?;
                instructions.append(&mut second);
                instructions.push(Instruction::Sub(Registers::B));
                instructions.push(Instruction::Jpos(off_fwd(sub_len, 2)));
                proof {
                    assert(sres is Ok);
                    assert(instructions@ =~= sres->Ok_0.0);
                }
                Ok(instructions)
            },
            Condition::LowerOrEqual(value_0, value_1) => {
                let mut instructions = self.extract_value(value_1)?;
                instructions.push(Instruction::Put(Registers::B));
                let mut second = self.extract_value(value_0)?;
                instructions.append(&mut second);
                instructions.push(Instruction::Sub(Registers::B));
                instructions.push(Instruction::Jpos(off_fwd(sub_len, 2)));
                proof {
                    assert(sres is Ok);
                    assert(instructions@ =~= sres->Ok_0.0);
                }
                Ok(instructions)
            },
        }
    }

    /// The guard block of a pre-test loop, parameterized by the
    /// expanded length of the body.
    #[verifier::rlimit(100)]
    fn emit_while_guard(&mut self, condition: &Condition, sub_len: u128) -> (r: Result<
        Vec<Instruction>,
        CompilerError,
    >)
        requires
            old(self).wf(),
        ensures
            final(self).frame_kept(old(self)),
            st_emits_match(
                r,
                crate::compile::while_guard(old(self).st(), condition@, sub_len as int),
                old(self).st(),
                final(self).st(),
            ),
    {
        let ghost sres = crate::compile::while_guard(old(self).st(), condition@, sub_len as int);
        match condition {
            Condition::Equal(value_0, value_1) => {
                let mut instructions = self.extract_value(value_0)?;
                instructions.push(Instruction::Put(Registers::B));
                let mut second = self.extract_value(value_1)?;
                instructions.append(&mut second);
                instructions.push(Instruction::Put(Registers::C));
                instructions.push(Instruction::Sub(Registers::B));
                instructions.push(Instruction::Jpos(off_fwd(sub_len, 5)));
                instructions.push(Instruction::Get(Registers::B));
                instructions.push(Instruction::Sub(Registers::C));
                instructions.push(Instruction::Jpos(off_fwd(sub_len, 2)));
                proof {
                    assert(sres is Ok);
                    assert(instructions@ =~= sres->Ok_0.0);
                }
                Ok(instructions)
            },
            Condition::NotEqual(value_0, value_1) => {
                let mut instructions = self.extract_value(value_0)?;
                instructions.push(Instruction::Put(Registers::B));
                let mut second = self.extract_value(value_1)?;
                instructions.append(&mut second);
                instructions.push(Instruction::Put(Registers::C));
                instructions.push(Instruction::Sub(Registers::B));
                instructions.push(Instruction::Jpos(5));
                instructions.push(Instruction::Get(Registers::B));
                instructions.push(Instruction::Sub(Registers::C));
                instructions.push(Instruction::Jpos(2));
                instructions.push(Instruction::Jump(off_fwd(sub_len, 2)));
                proof {
                    assert(sres is Ok);
                    assert(instructions@ =~= sres->Ok_0.0);
                }
                Ok(instructions)
            },
            Condition::Greater(value_0, value_1) => {
                let mut instructions = self.extract_value(value_1)?;
                instructions.push(Instruction::Put(Registers::B));
                let mut second = self.extract_value(value_0)?;
                instructions.append(&mut second);
                instructions.push(Instruction::Sub(Registers::B));
                instructions.push(Instruction::Jpos(2));
                instructions.push(Instruction::Jump(off_fwd(sub_len, 2)));
                proof {
                    assert(sres is Ok);
                    assert(instructions@ =~= sres->Ok_0.0);
                }
                Ok(instructions)
            },
            Condition::Lower(value_0, value_1) => {
                let mut instructions = self.extract_value(value_0)?;
                instructions.push(Instruction::Put(Registers::B));
                let mut second = self.extract_value(value_1)?;
                instructions.append(&mut second);
                instructions.push(Instruction::Sub(Registers::B));
                instructions.push(Instruction::Jpos(2));
                instructions.push(Instruction::Jump(off_fwd(sub_len, 2)));
                proof {
                    assert(sres is Ok);
                    assert(instructions@ =~= sres->Ok_0.0);
                }
                Ok(instructions)
            },
            Condition::GreaterOrEqual(value_0, value_1) => {
                let mut instructions = self.extract_value(value_0)?;
                instructions.push(Instruction::Put(Registers::B));
                let mut second = self.extract_value(value_1)?;
                instructions.append(&mut second);
                instructions.push(Instruction::Sub(Registers::B));
                instructions.push(Instruction::Jpos(off_fwd(sub_len, 2)));
                proof {
                    assert(sres is Ok);
                    assert(instructions@ =~= sres->Ok_0.0);
                }
                Ok(instructions)
            },
            Condition::LowerOrEqual(value_0, value_1) => {
                let mut instructions = self.extract_value(value_1)?;
                instructions.push(Instruction::Put(Registers::B));
                let mut second = self.extract_value(value_0)?;
                instructions.append(&mut second);
                instructions.push(Instruction::Sub(Registers::B));
                instructions.push(Instruction::Jpos(off_fwd(sub_len, 2)));
                proof {
                    assert(sres is Ok);
                    assert(instructions@ =~= sres->Ok_0.0);
                }
                Ok(instructions)
            },
        }
    }

    /// The guard block of a post-test loop, parameterized by the
    /// expanded length of the body it follows.
    #[verifier::rlimit(100)]
    fn emit_repeat_guard(&mut self, condition: &Condition, sub_len: u128) -> (r: Result<
        Vec<Instruction>,
        CompilerError,
    >)
        requires
            old(self).wf(),
        ensures
            final(self).frame_kept(old(self)),
            st_emits_match(
                r,
                crate::compile::repeat_guard(old(self).st(), condition@, sub_len as int),
                old(self).st(),
                final(self).st(),
            ),
    {
        let ghost sres = crate::compile::repeat_guard(old(self).st(), condition@, sub_len as int);
        match condition {
            Condition::Equal(value_0, value_1) => {
                let mut instructions = self.extract_value(value_0)?;
                instructions.push(Instruction::Put(Registers::B));
                let mut second = self.extract_value(value_1)?;
                instructions.append(&mut second);
                instructions.push(Instruction::Put(Registers::C));
                instructions.push(Instruction::Sub(Registers::B));
                let ghost base_v = instructions@;
                proof {
                    let r1 = value_instrs(old(self).st(), value_0@);
                    let r2 = value_instrs(r1->Ok_0.1, value_1@);
                    assert(base_v =~= (r1->Ok_0.0).push(Instruction::Put(Registers::B))
                        + r2->Ok_0.0 + seq![Instruction::Put(Registers::C), Instruction::Sub(Registers::B)]);
                }
                let cl = total_len(&instructions);
                instructions.push(Instruction::Jpos(off_back2(cl, sub_len, 0)));
                instructions.push(Instruction::Get(Registers::B));
                instructions.push(Instruction::Sub(Registers::C));
                instructions.push(Instruction::Jpos(off_back2(cl, sub_len, 3)));
                proof {
                    assert(sres is Ok);
                    assert(instructions@ =~= sres->Ok_0.0);
                }
                Ok(instructions)
            },
            Condition::NotEqual(value_0, value_1) => {
                let mut instructions = self.extract_value(value_0)?;
                instructions.push(Instruction::Put(Registers::B));
                let mut second = self.extract_value(value_1)?;
                instructions.append(&mut second);
                instructions.push(Instruction::Put(Registers::C));
                instructions.push(Instruction::Sub(Registers::B));
                let ghost base_v = instructions@;
                proof {
                    let r1 = value_instrs(old(self).st(), value_0@);
                    let r2 = value_instrs(r1->Ok_0.1, value_1@);
                    assert(base_v =~= (r1->Ok_0.0).push(Instruction::Put(Registers::B))
                        + r2->Ok_0.0 + seq![Instruction::Put(Registers::C), Instruction::Sub(Registers::B)]);
                }
                let cl = total_len(&instructions);
                instructions.push(Instruction::Jpos(5));
                instructions.push(Instruction::Get(Registers::B));
                instructions.push(Instruction::Sub(Registers::C));
                instructions.push(Instruction::Jpos(2));
                instructions.push(Instruction::Jump(off_back2(cl, sub_len, 4)));
                proof {
                    assert(sres is Ok);
                    assert(instructions@ =~= sres->Ok_0.0);
                }
                Ok(instructions)
            },
            Condition::Greater(value_0, value_1) => {
                let mut instructions = self.extract_value(value_1)?;
                instructions.push(Instruction::Put(Registers::B));
                let mut second = self.extract_value(value_0)?;
                instructions.append(&mut second);
                instructions.push(Instruction::Sub(Registers::B));
                instructions.push(Instruction::Jpos(2));
                let ghost base_v = instructions@;
                proof {
                    let r1 = value_instrs(old(self).st(), value_1@);
                    let r2 = value_instrs(r1->Ok_0.1, value_0@);
                    assert(base_v =~= (r1->Ok_0.0).push(Instruction::Put(Registers::B))
                        + r2->Ok_0.0 + seq![Instruction::Sub(Registers::B), Instruction::Jpos(2)]);
                }
                let cl = total_len(&instructions);
                instructions.push(Instruction::Jump(off_back2(cl, sub_len, 0)));
                proof {
                    assert(sres is Ok);
                    assert(instructions@ =~= sres->Ok_0.0);
                }
                Ok(instructions)
            },
            Condition::Lower(value_0, value_1) => {
                let mut instructions = self.extract_value(value_0)?;
                instructions.push(Instruction::Put(Registers::B));
                let mut second = self.extract_value(value_1)?;
                instructions.append(&mut second);
                instructions.push(Instruction::Sub(Registers::B));
                instructions.push(Instruction::Jpos(2));
                let ghost base_v = instructions@;
                proof {
                    let r1 = value_instrs(old(self).st(), value_0@);
                    let r2 = value_instrs(r1->Ok_0.1, value_1@);
                    assert(base_v =~= (r1->Ok_0.0).push(Instruction::Put(Registers::B))
                        + r2->Ok_0.0 + seq![Instruction::Sub(Registers::B), Instruction::Jpos(2)]);
                }
                let cl = total_len(&instructions);
                instructions.push(Instruction::Jump(off_back2(cl, sub_len, 0)));
                proof {
                    assert(sres is Ok);
                    assert(instructions@ =~= sres->Ok_0.0);
                }
                Ok(instructions)
            },
            Condition::GreaterOrEqual(value_0, value_1) => {
                let mut instructions = self.extract_value(value_0)?;
                instructions.push(Instruction::Put(Registers::B));
                let mut second = self.extract_value(value_1)?;
                instructions.append(&mut second);
                instructions.push(Instruction::Sub(Registers::B));
                let ghost base_v = instructions@;
                proof {
                    let r1 = value_instrs(old(self).st(), value_0@);
                    let r2 = value_instrs(r1->Ok_0.1, value_1@);
                    assert(base_v =~= (r1->Ok_0.0).push(Instruction::Put(Registers::B))
                        + r2->Ok_0.0 + seq![Instruction::Sub(Registers::B)]);
                }
                let cl = total_len(&instructions);
                instructions.push(Instruction::Jpos(off_back2(cl, sub_len, 0)));
                proof {
                    assert(sres is Ok);
                    assert(instructions@ =~= sres->Ok_0.0);
                }
                Ok(instructions)
            },
            Condition::LowerOrEqual(value_0, value_1) => {
                let mut instructions = self.extract_value(value_1)?;
                instructions.push(Instruction::Put(Registers::B));
                let mut second = self.extract_value(value_0)?;
                instructions.append(&mut second);
                instructions.push(Instruction::Sub(Registers::B));
                let ghost base_v = instructions@;
                proof {
                    let r1 = value_instrs(old(self).st(), value_1@);
                    let r2 = value_instrs(r1->Ok_0.1, value_0@);
                    assert(base_v =~= (r1->Ok_0.0).push(Instruction::Put(Registers::B))
                        + r2->Ok_0.0 + seq![Instruction::Sub(Registers::B)]);
                }
                let cl = total_len(&instructions);
                instructions.push(Instruction::Jpos(off_back2(cl, sub_len, 0)));
                proof {
                    assert(sres is Ok);
                    assert(instructions@ =~= sres->Ok_0.0);
                }
                Ok(instructions)
            },
        }
    }
}

impl Emitter {
    /// Lowers one command into instructions, against the given
    /// procedure table. The fuel bounds the nesting of call-site
    /// expansions: any chain deeper than the number of declared
    /// procedures repeats one, which is a recursive call.
    #[verifier::loop_isolation(false)]
    #[verifier::rlimit(100)]
    fn make_instructions_list(
        &mut self,
        procs: &StrMap<ProcedureBuilder>,
        command: &Command,
        fuel: u64,
    ) -> (r: Result<Vec<Instruction>, CompilerError>)
        requires
            old(self).wf(),
            procs.wf(),
        ensures
            final(self).frame_kept(old(self)),
            cmd_emits_match(
                r,
                crate::compile::cmd_instrs(
                    pmap_view(procs@),
                    old(self).st(),
                    command@,
                    fuel as nat,
                ),
                final(self).st(),
            ),
        decreases fuel, crate::compile::cmd_size(command@), 1int,
    {
        let ghost pv = pmap_view(procs@);
        let ghost sres = crate::compile::cmd_instrs(pv, old(self).st(), command@, fuel as nat);
        match command {
            Command::Assign(identifier, expression) => {
                let id = match identifier {
                    Identifier::Base(id) => id,
                    Identifier::NumIndexed(id, _) => id,
                    Identifier::PidIndexed(id, _) => id,
                };
                self.initialisated_variables.insert(id.0.clone());
                proof {
                    assert(self.st() =~= EmitState {
                        init: old(self).st().init.insert(
                            crate::compile::root_id(identifier@).0,
                        ),
                        ..old(self).st()
                    });
                }
                let mut instructions = self.load_variable_address(identifier)?;
                instructions.push(Instruction::Put(Registers::G));
                let mut e_ins = self.make_expressions(expression)?;
                instructions.append(&mut e_ins);
                instructions.push(Instruction::Store(Registers::G));
                proof {
                    assert(sres is Ok);
                    assert(instructions@ =~= sres->Ok_0.0);
                }
                Ok(instructions)
            },
            Command::If(condition, commands, else_commands) => {
                let sub_instructions = self.make_commands_list(procs, commands, fuel)?;
                let mut sub_else = match else_commands {
                    Some(else_cmds) => self.make_commands_list(procs, else_cmds, fuel)?,
                    None => Vec::new(),
                };
                let sub_len = total_len(&sub_instructions);
                let else_len = total_len(&sub_else);
                let mut instructions = self.emit_if_guard(condition, sub_len, else_len)?;
                match condition {
                    Condition::Equal(_, _)
                    | Condition::GreaterOrEqual(_, _)
                    | Condition::LowerOrEqual(_, _) => {
                        let mut sub = sub_instructions;
                        instructions.append(&mut sub);
                        instructions.push(Instruction::Jump(off_fwd(else_len, 1)));
                        instructions.append(&mut sub_else);
                    },
                    Condition::NotEqual(_, _) | Condition::Greater(_, _) | Condition::Lower(
                        _,
                        _,
                    ) => {
                        let mut sub = sub_instructions;
                        instructions.append(&mut sub_else);
                        instructions.push(Instruction::Jump(off_fwd(sub_len, 1)));
                        instructions.append(&mut sub);
                    },
                }
                proof {
                    assert(sres is Ok);
                    assert(instructions@ =~= sres->Ok_0.0);
                }
                Ok(instructions)
            },
            Command::While(condition, commands) => {
                let sub_instructions = self.make_commands_list(procs, commands, fuel)?;
                let sub_len = total_len(&sub_instructions);
                let mut instructions = self.emit_while_guard(condition, sub_len)?;
                let guard_len = total_len(&instructions);
                let mut sub = sub_instructions;
                instructions.append(&mut sub);
                instructions.push(Instruction::Jump(off_back2(sub_len, guard_len, 0)));
                proof {
                    assert(sres is Ok);
                    assert(instructions@ =~= sres->Ok_0.0);
                }
                Ok(instructions)
            },
            Command::Repeat(commands, condition) => {
                let mut instructions = self.make_commands_list(procs, commands, fuel)?;
                let sub_len = total_len(&instructions);
                let mut guard = self.emit_repeat_guard(condition, sub_len)?;
                instructions.append(&mut guard);
                proof {
                    assert(sres is Ok);
                    assert(instructions@ =~= sres->Ok_0.0);
                }
                Ok(instructions)
            },
            Command::ProcCall(pcall) => self.expand_call(procs, &pcall.0, &pcall.1, fuel),
            Command::Read(identifier) => {
                let id = match identifier {
                    Identifier::Base(id) => id,
                    Identifier::NumIndexed(id, _) => id,
                    Identifier::PidIndexed(id, _) => id,
                };
                self.initialisated_variables.insert(id.0.clone());
                proof {
                    assert(self.st() =~= EmitState {
                        init: old(self).st().init.insert(
                            crate::compile::root_id(identifier@).0,
                        ),
                        ..old(self).st()
                    });
                }
                let mut instructions = self.load_variable_address(identifier)?;
                instructions.push(Instruction::Put(Registers::G));
                instructions.push(Instruction::Read);
                instructions.push(Instruction::Store(Registers::G));
                proof {
                    assert(sres is Ok);
                    assert(instructions@ =~= sres->Ok_0.0);
                }
                Ok(instructions)
            },
            Command::Write(value) => {
                let mut instructions = self.extract_value(value)?;
                instructions.push(Instruction::Write);
                proof {
                    assert(sres is Ok);
                    assert(instructions@ =~= sres->Ok_0.0);
                }
                Ok(instructions)
            },
        }
    }

    /// Fresh storage for a callee's locals, under their qualified
    /// names, advancing the allocation pointer.
    #[verifier::loop_isolation(false)]
    fn alloc_locals_exec(&mut self, declarations: &Declarations, procedure_id: &SourceIdent)
        requires
            old(self).wf(),
        ensures
            final(self).frame_kept(old(self)),
            final(self).st() == crate::compile::alloc_locals(
                old(self).st(),
                decls_view(declarations@),
                procedure_id.0@,
            ),
    {
        let nd = declarations.len();
        let ghost dv = decls_view(declarations@);
        let ghost st_pre = self.st();
        let mut di: usize = 0;
        proof {
            assert(dv.subrange(0, 0) =~= Seq::<DeclV>::empty());
        }
        while di < nd
            invariant
                0 <= di <= nd,
                self.wf(),
                self.frame_kept(old(self)),
                self.st() == crate::compile::alloc_locals(
                    st_pre,
                    dv.subrange(0, di as int),
                    procedure_id.0@,
                ),
            decreases nd - di,
        {
            proof {
                assert(dv.subrange(0, di + 1).drop_last() =~= dv.subrange(0, di as int));
                assert(dv.subrange(0, di + 1).last() == dv[di as int]);
            }
            match &declarations[di] {
                DeclarationVariant::Base(id) => {
                    let q = crate::names::qualify(&id.0, &procedure_id.0);
                    self.memory.insert(q, VariableVariant::Atomic(self.memory_pointer));
                    self.memory_pointer = self.memory_pointer.wrapping_add(1);
                },
                DeclarationVariant::NumIndexed(id, length) => {
                    let q = crate::names::qualify(&id.0, &procedure_id.0);
                    let len_v = *length;
                    self.memory.insert(q, VariableVariant::Table(self.memory_pointer, len_v));
                    self.memory_pointer = self.memory_pointer.wrapping_add(len_v);
                },
            }
            proof {
                assert(self.st() =~= crate::compile::alloc_locals(
                    st_pre,
                    dv.subrange(0, di + 1),
                    procedure_id.0@,
                ));
            }
            di += 1;
        }
        proof {
            assert(dv.subrange(0, nd as int) =~= dv);
        }
    }

    /// The first local declaration sharing the formal's name, if any.
    #[verifier::loop_isolation(false)]
    fn find_clash_exec<'a>(declarations: &'a Declarations, fid: &SourceIdent) -> (r: Option<
        &'a SourceIdent,
    >)
        ensures
            match r {
                Some(did) => crate::compile::find_clash(decls_view(declarations@), fid@.0)
                    == Some(did@),
                None => crate::compile::find_clash(decls_view(declarations@), fid@.0) is None,
            },
    {
        let nd = declarations.len();
        let ghost dv = decls_view(declarations@);
        let mut d: usize = 0;
        proof {
            assert(dv.subrange(0, nd as int) =~= dv);
        }
        while d < nd
            invariant
                0 <= d <= nd,
                crate::compile::find_clash(dv, fid@.0) == crate::compile::find_clash(
                    dv.subrange(d as int, nd as int),
                    fid@.0,
                ),
            decreases nd - d,
        {
            proof {
                assert(dv.subrange(d as int, nd as int)[0] == dv[d as int]);
                assert(dv.subrange(d as int, nd as int).drop_first() =~= dv.subrange(
                    d + 1,
                    nd as int,
                ));
            }
            let did = match &declarations[d] {
                DeclarationVariant::Base(id) => id,
                DeclarationVariant::NumIndexed(id, _) => id,
            };
            if did.0 == fid.0 {
                return Some(did);
            }
            d += 1;
        }
        proof {
            assert(dv.subrange(nd as int, nd as int) =~= Seq::<DeclV>::empty());
        }
        None
    }

    /// By-reference binding of the actuals to the callee's formals.
    #[verifier::loop_isolation(false)]
    #[verifier::rlimit(100)]
    fn bind_formals_exec(
        &mut self,
        arguments: &Arguments,
        declared_arguments: &Vec<ArgumentsDeclarationVariant>,
        declarations: &Option<Declarations>,
        procedure_id: &SourceIdent,
    ) -> (r: Result<(), CompilerError>)
        requires
            old(self).wf(),
            arguments@.len() == declared_arguments@.len(),
        ensures
            final(self).frame_kept(old(self)),
            match r {
                Ok(_) => crate::compile::bind_formals(
                    old(self).st(),
                    ids_view(arguments@),
                    crate::ast::arg_decls_view(declared_arguments@),
                    (match declarations {
                        Some(d) => Some(decls_view(d@)),
                        None => None,
                    }),
                    procedure_id.0@,
                ) == Ok::<_, crate::error::ErrorV>(final(self).st()),
                Err(e) => {
                    &&& crate::compile::bind_formals(
                        old(self).st(),
                        ids_view(arguments@),
                        crate::ast::arg_decls_view(declared_arguments@),
                        (match declarations {
                            Some(d) => Some(decls_view(d@)),
                            None => None,
                        }),
                        procedure_id.0@,
                    ) is Err
                    &&& e@ == crate::compile::bind_formals(
                        old(self).st(),
                        ids_view(arguments@),
                        crate::ast::arg_decls_view(declared_arguments@),
                        (match declarations {
                            Some(d) => Some(decls_view(d@)),
                            None => None,
                        }),
                        procedure_id.0@,
                    )->Err_0
                },
            },
    {
        let ghost args_v = ids_view(arguments@);
        let ghost fargs_v = crate::ast::arg_decls_view(declared_arguments@);
        let ghost decls_opt_v: Option<Seq<DeclV>> = match declarations {
            Some(d) => Some(decls_view(d@)),
            None => None,
        };
        let ghost scope_v = procedure_id.0@;
        let ghost st_bind0 = self.st();
        let n_args = arguments.len();
        let mut bi: usize = 0;
        proof {
            assert(args_v.subrange(0, n_args as int) =~= args_v);
            assert(fargs_v.subrange(0, n_args as int) =~= fargs_v);
        }
        while bi < n_args
            invariant
                0 <= bi <= n_args,
                self.wf(),
                self.frame_kept(old(self)),
                crate::compile::bind_formals(st_bind0, args_v, fargs_v, decls_opt_v, scope_v)
                    == crate::compile::bind_formals(
                    self.st(),
                    args_v.subrange(bi as int, n_args as int),
                    fargs_v.subrange(bi as int, n_args as int),
                    decls_opt_v,
                    scope_v,
                ),
            decreases n_args - bi,
        {
            let ghost args_suf = args_v.subrange(bi as int, n_args as int);
            let ghost fargs_suf = fargs_v.subrange(bi as int, n_args as int);
            let ghost st_iter = self.st();
            proof {
                assert(args_suf[0] == args_v[bi as int]);
                assert(fargs_suf[0] == fargs_v[bi as int]);
                assert(args_suf.drop_first() =~= args_v.subrange(bi + 1, n_args as int));
                assert(fargs_suf.drop_first() =~= fargs_v.subrange(bi + 1, n_args as int));
            }
            let farg = &declared_arguments[bi];
            let fid = match farg {
                ArgumentsDeclarationVariant::Base(id) => id,
                ArgumentsDeclarationVariant::Table(id) => id,
            };
            match declarations {
                Some(decls) => {
                    match Self::find_clash_exec(decls, fid) {
                        Some(did) => {
                            return Err(
                                CompilerError::DuplicateVariableDeclaration(
                                    did.0.clone(),
                                    did.1,
                                ),
                            );
                        },
                        None => {},
                    }
                },
                None => {},
            }
            let argument = &arguments[bi];
            let pointee = match self.memory.get(&argument.0) {
                None => {
                    return Err(
                        CompilerError::UndeclaredVariable(argument.0.clone(), argument.1),
                    );
                },
                Some(p) => *p,
            };
            match farg {
                ArgumentsDeclarationVariant::Base(fid2) => match pointee {
                    VariableVariant::Atomic(pointer) => {
                        self.initialisated_variables.insert(argument.0.clone());
                        let q = crate::names::qualify(&fid2.0, &procedure_id.0);
                        let q2 = q.clone();
                        self.memory.insert(q, VariableVariant::Atomic(pointer));
                        self.initialisated_variables.insert(q2);
                        proof {
                            let qn = crate::compile::qualified_name(fid2.0@, scope_v);
                            assert(self.st() =~= EmitState {
                                mem: st_iter.mem.insert(qn, VariableVariant::Atomic(pointer)),
                                init: st_iter.init.insert(args_suf[0].0).insert(qn),
                                ..st_iter
                            });
                        }
                    },
                    VariableVariant::Table(_, _) => {
                        return Err(CompilerError::WrongArgumentType(fid2.0.clone(), fid2.1));
                    },
                },
                ArgumentsDeclarationVariant::Table(fid2) => match pointee {
                    VariableVariant::Table(start, size) => {
                        self.initialisated_variables.insert(argument.0.clone());
                        let q = crate::names::qualify(&fid2.0, &procedure_id.0);
                        let q2 = q.clone();
                        self.memory.insert(q, VariableVariant::Table(start, size));
                        self.initialisated_variables.insert(q2);
                        proof {
                            let qn = crate::compile::qualified_name(fid2.0@, scope_v);
                            assert(self.st() =~= EmitState {
                                mem: st_iter.mem.insert(
                                    qn,
                                    VariableVariant::Table(start, size),
                                ),
                                init: st_iter.init.insert(args_suf[0].0).insert(qn),
                                ..st_iter
                            });
                        }
                    },
                    VariableVariant::Atomic(_) => {
                        return Err(CompilerError::WrongArgumentType(fid2.0.clone(), fid2.1));
                    },
                },
            }
            bi += 1;
        }
        proof {
            assert(args_v.subrange(n_args as int, n_args as int)
                =~= Seq::<crate::ast::IdV>::empty());
        }
        Ok(())
    }

    /// Expands one call site: checks the recursion rule, resolves the
    /// callee, allocates its locals, binds the formals by reference,
    /// and splices the callee's renamed body.
    #[verifier::loop_isolation(false)]
    #[verifier::rlimit(100)]
    fn expand_call(
        &mut self,
        procs: &StrMap<ProcedureBuilder>,
        procedure_id: &SourceIdent,
        arguments: &Arguments,
        fuel: u64,
    ) -> (r: Result<Vec<Instruction>, CompilerError>)
        requires
            old(self).wf(),
            procs.wf(),
        ensures
            final(self).frame_kept(old(self)),
            cmd_emits_match(
                r,
                crate::compile::cmd_instrs(
                    pmap_view(procs@),
                    old(self).st(),
                    CommandV::ProcCall(procedure_id@, ids_view(arguments@)),
                    fuel as nat,
                ),
                final(self).st(),
            ),
        decreases fuel, 1int, 0int,
    {
        let ghost pv = pmap_view(procs@);
        let ghost args_v = ids_view(arguments@);
        let ghost cv = CommandV::ProcCall(procedure_id@, args_v);
        let ghost sres = crate::compile::cmd_instrs(pv, old(self).st(), cv, fuel as nat);
        let ghost pat_v = seq!['@'] + procedure_id.0@;
        let mut pattern = String::from_str("@");
        pattern.append(procedure_id.0.as_str());
        proof {
            reveal_strlit("@");
            assert(pattern@ =~= pat_v);
        }
        let n_args = arguments.len();
        let mut k: usize = 0;
        while k < n_args
            invariant
                0 <= k <= n_args,
                forall|t: int|
                    0 <= t < k ==> !crate::compile::contains_seq(#[trigger] args_v[t].0, pat_v),
            decreases n_args - k,
        {
            if crate::names::contains_sub(&arguments[k].0, &pattern) {
                proof {
                    assert(args_v[k as int].0 == arguments@[k as int].0@);
                    assert(crate::compile::contains_seq(args_v[k as int].0, pat_v));
                }
                return Err(
                    CompilerError::RecursiveProcedureCall(procedure_id.0.clone(), procedure_id.1),
                );
            }
            k += 1;
        }
        proof {
            assert(!(exists|t: int|
                0 <= t < args_v.len() && crate::compile::contains_seq(
                    #[trigger] args_v[t].0,
                    pat_v,
                )));
        }
        let builder = match procs.get(&procedure_id.0) {
            None => {
                return Err(
                    CompilerError::UndeclaredProcedure(procedure_id.0.clone(), procedure_id.1),
                );
            },
            Some(b) => b,
        };
        proof {
            assert(pv.contains_key(procedure_id.0@));
            assert(builder@ == pv[procedure_id.0@]);
        }
        if builder.declared_arguments.len() != arguments.len() {
            return Err(
                CompilerError::WrongNumberOfArguments(procedure_id.0.clone(), procedure_id.1),
            );
        }
        match &builder.declarations {
            Some(declarations) => {
                self.alloc_locals_exec(declarations, procedure_id);
            },
            None => {},
        }
        let bound = self.bind_formals_exec(
            arguments,
            &builder.declared_arguments,
            &builder.declarations,
            procedure_id,
        );
        match bound {
            Ok(_) => {},
            Err(e) => {
                return Err(e);
            },
        }
        if fuel == 0 {
            return Err(
                CompilerError::RecursiveProcedureCall(procedure_id.0.clone(), procedure_id.1),
            );
        }
        let result = self.make_commands_list(procs, &builder.commands, fuel - 1);
        result
    }

    /// Lowers a command list in order, with the state threaded left to
    /// right and the first rejection aborting.
    #[verifier::loop_isolation(false)]
    #[verifier::rlimit(100)]
    fn make_commands_list(
        &mut self,
        procs: &StrMap<ProcedureBuilder>,
        commands: &Vec<Command>,
        fuel: u64,
    ) -> (r: Result<Vec<Instruction>, CompilerError>)
        requires
            old(self).wf(),
            procs.wf(),
        ensures
            final(self).frame_kept(old(self)),
            cmd_emits_match(
                r,
                crate::compile::cmds_instrs(
                    pmap_view(procs@),
                    old(self).st(),
                    cmds_view(commands@),
                    fuel as nat,
                ),
                final(self).st(),
            ),
        decreases fuel, crate::compile::cmds_size(cmds_view(commands@)), 0int,
    {
        let ghost pv = pmap_view(procs@);
        let ghost cs_v = cmds_view(commands@);
        let mut instructions: Vec<Instruction> = Vec::new();
        let n = commands.len();
        let mut i: usize = 0;
        proof {
            crate::ast::lemma_cmds_view_index(commands@);
            assert(cs_v.subrange(0, 0) =~= Seq::<CommandV>::empty());
        }
        while i < n
            invariant
                0 <= i <= n,
                n == commands@.len(),
                self.wf(),
                self.frame_kept(old(self)),
                crate::compile::cmds_instrs(pv, old(self).st(), cs_v.subrange(0, i as int), fuel as nat)
                    == Ok::<_, crate::error::ErrorV>((instructions@, self.st())),
            decreases n - i,
        {
            proof {
                crate::compile::lemma_cmds_size_bound(cs_v, i as int);
            }
            let sub = self.make_instructions_list(procs, &commands[i], fuel);
            proof {
                crate::compile::lemma_cmds_instrs_step(pv, old(self).st(), cs_v, fuel as nat, i as int);
            }
            match sub {
                Ok(mut v) => {
                    instructions.append(&mut v);
                    i += 1;
                },
                Err(e) => {
                    proof {
                        crate::compile::lemma_cmds_instrs_prefix_err(
                            pv,
                            old(self).st(),
                            cs_v,
                            fuel as nat,
                            i + 1,
                        );
                    }
                    return Err(e);
                },
            }
        }
        proof {
            assert(cs_v.subrange(0, n as int) =~= cs_v);
        }
        Ok(instructions)
    }
}

impl Emitter {
    /// Lowers the main program's command list and appends it to the
    /// instruction stream; nothing is appended on a rejection.
    fn construct_main(&mut self) -> (r: Result<(), CompilerError>)
        requires
            old(self).wf(),
        ensures
            final(self).wf(),
            final(self).procs_view() == old(self).procs_view(),
            final(self).procs_len() == old(self).procs_len(),
            final(self).main_view() == old(self).main_view(),
            match r {
                Ok(_) => {
                    &&& crate::compile::cmds_instrs(
                        old(self).procs_view(),
                        old(self).st(),
                        old(self).main_view(),
                        old(self).procs_len(),
                    ) is Ok
                    &&& final(self).code_view() == old(self).code_view()
                        + crate::compile::cmds_instrs(
                        old(self).procs_view(),
                        old(self).st(),
                        old(self).main_view(),
                        old(self).procs_len(),
                    )->Ok_0.0
                    &&& final(self).st() == crate::compile::cmds_instrs(
                        old(self).procs_view(),
                        old(self).st(),
                        old(self).main_view(),
                        old(self).procs_len(),
                    )->Ok_0.1
                },
                Err(e) => {
                    &&& crate::compile::cmds_instrs(
                        old(self).procs_view(),
                        old(self).st(),
                        old(self).main_view(),
                        old(self).procs_len(),
                    ) is Err
                    &&& e@ == crate::compile::cmds_instrs(
                        old(self).procs_view(),
                        old(self).st(),
                        old(self).main_view(),
                        old(self).procs_len(),
                    )->Err_0
                    &&& final(self).code_view() == old(self).code_view()
                },
            },
    {
        let mut procs_local: StrMap<ProcedureBuilder> = StrMap::new();
        core::mem::swap(&mut self.procedures, &mut procs_local);
        let mut cmds_local: Commands = Vec::new();
        core::mem::swap(&mut self.main_commands, &mut cmds_local);
        let fuel = procs_local.len() as u64;
        let result = self.make_commands_list(&procs_local, &cmds_local, fuel);
        core::mem::swap(&mut self.procedures, &mut procs_local);
        core::mem::swap(&mut self.main_commands, &mut cmds_local);
        match result {
            Ok(mut constructed) => {
                self.pseudo_assembly.append(&mut constructed);
                Ok(())
            },
            Err(e) => Err(e),
        }
    }

    /// Lowers the whole program: the main command list followed by the
    /// final halt.
    pub fn construct(&mut self) -> (r: Result<(), CompilerError>)
        requires
            old(self).wf(),
        ensures
            final(self).wf(),
            final(self).procs_view() == old(self).procs_view(),
            final(self).procs_len() == old(self).procs_len(),
            final(self).main_view() == old(self).main_view(),
            match r {
                Ok(_) => {
                    &&& crate::compile::program_instrs(
                        old(self).procs_view(),
                        old(self).st(),
                        old(self).main_view(),
                        old(self).procs_len(),
                    ) is Ok
                    &&& final(self).code_view() == old(self).code_view()
                        + crate::compile::program_instrs(
                        old(self).procs_view(),
                        old(self).st(),
                        old(self).main_view(),
                        old(self).procs_len(),
                    )->Ok_0.0
                    &&& final(self).st() == crate::compile::program_instrs(
                        old(self).procs_view(),
                        old(self).st(),
                        old(self).main_view(),
                        old(self).procs_len(),
                    )->Ok_0.1
                },
                Err(e) => {
                    &&& crate::compile::program_instrs(
                        old(self).procs_view(),
                        old(self).st(),
                        old(self).main_view(),
                        old(self).procs_len(),
                    ) is Err
                    &&& e@ == crate::compile::program_instrs(
                        old(self).procs_view(),
                        old(self).st(),
                        old(self).main_view(),
                        old(self).procs_len(),
                    )->Err_0
                    &&& final(self).code_view() == old(self).code_view()
                },
            },
    {
        match self.construct_main() {
            Ok(_) => {},
            Err(e) => {
                return Err(e);
            },
        }
        self.pseudo_assembly.push(Instruction::Halt);
        Ok(())
    }
}

/// Prints the literal body of the `Mul` macro standing at line
/// `pos_x`, its internal jumps already absolute.
#[verifier::rlimit(100)]
fn emit_mul(out: &mut String, pos_x: u128, Ghost(ls0): Ghost<Seq<AsmLine>>)
    requires
        pos_x <= 0x1_0000_0000_0000_0000_0000,
        old(out)@ == text_of(ls0),
    ensures
        final(out)@ == text_of(ls0 + instr_lines(Instruction::Mul, pos_x as int)),
{
    let ghost mut cur: Seq<AsmLine> = ls0;
    push_reg_line(out, "PUT ", Registers::E);
    proof {
        lemma_text_of_push(cur, AsmLine::Put(Registers::E));
        cur = cur.push(AsmLine::Put(Registers::E));
    }
    push_reg_line(out, "ADD ", Registers::E);
    proof {
        lemma_text_of_push(cur, AsmLine::Add(Registers::E));
        cur = cur.push(AsmLine::Add(Registers::E));
    }
    push_reg_line(out, "SUB ", Registers::E);
    proof {
        lemma_text_of_push(cur, AsmLine::Sub(Registers::E));
        cur = cur.push(AsmLine::Sub(Registers::E));
    }
    push_reg_line(out, "RST ", Registers::F);
    proof {
        lemma_text_of_push(cur, AsmLine::Rst(Registers::F));
        cur = cur.push(AsmLine::Rst(Registers::F));
    }
    push_reg_line(out, "GET ", Registers::C);
    proof {
        lemma_text_of_push(cur, AsmLine::Get(Registers::C));
        cur = cur.push(AsmLine::Get(Registers::C));
    }
    push_jump_line(out, "JZERO ", pos_x as i128 + 19);
    proof {
        lemma_text_of_push(cur, AsmLine::Jzero(pos_x as int + 19));
        cur = cur.push(AsmLine::Jzero(pos_x as int + 19));
    }
    push_reg_line(out, "SHR ", Registers::E);
    proof {
        lemma_text_of_push(cur, AsmLine::Shr(Registers::E));
        cur = cur.push(AsmLine::Shr(Registers::E));
    }
    push_reg_line(out, "SHL ", Registers::E);
    proof {
        lemma_text_of_push(cur, AsmLine::Shl(Registers::E));
        cur = cur.push(AsmLine::Shl(Registers::E));
    }
    push_reg_line(out, "GET ", Registers::C);
    proof {
        lemma_text_of_push(cur, AsmLine::Get(Registers::C));
        cur = cur.push(AsmLine::Get(Registers::C));
    }
    push_reg_line(out, "SUB ", Registers::E);
    proof {
        lemma_text_of_push(cur, AsmLine::Sub(Registers::E));
        cur = cur.push(AsmLine::Sub(Registers::E));
    }
    push_jump_line(out, "JZERO ", pos_x as i128 + 14);
    proof {
        lemma_text_of_push(cur, AsmLine::Jzero(pos_x as int + 14));
        cur = cur.push(AsmLine::Jzero(pos_x as int + 14));
    }
    push_reg_line(out, "GET ", Registers::F);
    proof {
        lemma_text_of_push(cur, AsmLine::Get(Registers::F));
        cur = cur.push(AsmLine::Get(Registers::F));
    }
    push_reg_line(out, "ADD ", Registers::B);
    proof {
        lemma_text_of_push(cur, AsmLine::Add(Registers::B));
        cur = cur.push(AsmLine::Add(Registers::B));
    }
    push_reg_line(out, "PUT ", Registers::F);
    proof {
        lemma_text_of_push(cur, AsmLine::Put(Registers::F));
        cur = cur.push(AsmLine::Put(Registers::F));
    }
    push_reg_line(out, "SHL ", Registers::B);
    proof {
        lemma_text_of_push(cur, AsmLine::Shl(Registers::B));
        cur = cur.push(AsmLine::Shl(Registers::B));
    }
    push_reg_line(out, "SHR ", Registers::C);
    proof {
        lemma_text_of_push(cur, AsmLine::Shr(Registers::C));
        cur = cur.push(AsmLine::Shr(Registers::C));
    }
    push_reg_line(out, "GET ", Registers::C);
    proof {
        lemma_text_of_push(cur, AsmLine::Get(Registers::C));
        cur = cur.push(AsmLine::Get(Registers::C));
    }
    push_reg_line(out, "PUT ", Registers::E);
    proof {
        lemma_text_of_push(cur, AsmLine::Put(Registers::E));
        cur = cur.push(AsmLine::Put(Registers::E));
    }
    push_jump_line(out, "JPOS ", pos_x as i128 + 4);
    proof {
        lemma_text_of_push(cur, AsmLine::Jpos(pos_x as int + 4));
        cur = cur.push(AsmLine::Jpos(pos_x as int + 4));
    }
    push_reg_line(out, "GET ", Registers::F);
    proof {
        lemma_text_of_push(cur, AsmLine::Get(Registers::F));
        cur = cur.push(AsmLine::Get(Registers::F));
    }
    proof {
        assert(cur =~= ls0 + instr_lines(Instruction::Mul, pos_x as int));
    }
}

/// Prints the literal body of the `Div` macro standing at line
/// `pos_x`, its internal jumps already absolute.
#[verifier::rlimit(100)]
fn emit_div(out: &mut String, pos_x: u128, Ghost(ls0): Ghost<Seq<AsmLine>>)
    requires
        pos_x <= 0x1_0000_0000_0000_0000_0000,
        old(out)@ == text_of(ls0),
    ensures
        final(out)@ == text_of(ls0 + instr_lines(Instruction::Div, pos_x as int)),
{
    let ghost mut cur: Seq<AsmLine> = ls0;
    push_reg_line(out, "RST ", Registers::D);
    proof {
        lemma_text_of_push(cur, AsmLine::Rst(Registers::D));
        cur = cur.push(AsmLine::Rst(Registers::D));
    }
    push_reg_line(out, "ADD ", Registers::E);
    proof {
        lemma_text_of_push(cur, AsmLine::Add(Registers::E));
        cur = cur.push(AsmLine::Add(Registers::E));
    }
    push_reg_line(out, "SUB ", Registers::E);
    proof {
        lemma_text_of_push(cur, AsmLine::Sub(Registers::E));
        cur = cur.push(AsmLine::Sub(Registers::E));
    }
    push_jump_line(out, "JZERO ", pos_x as i128 + 24);
    proof {
        lemma_text_of_push(cur, AsmLine::Jzero(pos_x as int + 24));
        cur = cur.push(AsmLine::Jzero(pos_x as int + 24));
    }
    push_reg_line(out, "GET ", Registers::C);
    proof {
        lemma_text_of_push(cur, AsmLine::Get(Registers::C));
        cur = cur.push(AsmLine::Get(Registers::C));
    }
    push_reg_line(out, "SUB ", Registers::B);
    proof {
        lemma_text_of_push(cur, AsmLine::Sub(Registers::B));
        cur = cur.push(AsmLine::Sub(Registers::B));
    }
    push_jump_line(out, "JPOS ", pos_x as i128 + 24);
    proof {
        lemma_text_of_push(cur, AsmLine::Jpos(pos_x as int + 24));
        cur = cur.push(AsmLine::Jpos(pos_x as int + 24));
    }
    push_reg_line(out, "GET ", Registers::C);
    proof {
        lemma_text_of_push(cur, AsmLine::Get(Registers::C));
        cur = cur.push(AsmLine::Get(Registers::C));
    }
    push_reg_line(out, "PUT ", Registers::E);
    proof {
        lemma_text_of_push(cur, AsmLine::Put(Registers::E));
        cur = cur.push(AsmLine::Put(Registers::E));
    }
    push_reg_line(out, "RST ", Registers::F);
    proof {
        lemma_text_of_push(cur, AsmLine::Rst(Registers::F));
        cur = cur.push(AsmLine::Rst(Registers::F));
    }
    push_reg_line(out, "INC ", Registers::F);
    proof {
        lemma_text_of_push(cur, AsmLine::Inc(Registers::F));
        cur = cur.push(AsmLine::Inc(Registers::F));
    }
    push_reg_line(out, "GET ", Registers::E);
    proof {
        lemma_text_of_push(cur, AsmLine::Get(Registers::E));
        cur = cur.push(AsmLine::Get(Registers::E));
    }
    push_reg_line(out, "SUB ", Registers::B);
    proof {
        lemma_text_of_push(cur, AsmLine::Sub(Registers::B));
        cur = cur.push(AsmLine::Sub(Registers::B));
    }
    push_jump_line(out, "JPOS ", pos_x as i128 + 23);
    proof {
        lemma_text_of_push(cur, AsmLine::Jpos(pos_x as int + 23));
        cur = cur.push(AsmLine::Jpos(pos_x as int + 23));
    }
    push_reg_line(out, "GET ", Registers::B);
    proof {
        lemma_text_of_push(cur, AsmLine::Get(Registers::B));
        cur = cur.push(AsmLine::Get(Registers::B));
    }
    push_reg_line(out, "SUB ", Registers::E);
    proof {
        lemma_text_of_push(cur, AsmLine::Sub(Registers::E));
        cur = cur.push(AsmLine::Sub(Registers::E));
    }
    push_reg_line(out, "PUT ", Registers::B);
    proof {
        lemma_text_of_push(cur, AsmLine::Put(Registers::B));
        cur = cur.push(AsmLine::Put(Registers::B));
    }
    push_reg_line(out, "GET ", Registers::D);
    proof {
        lemma_text_of_push(cur, AsmLine::Get(Registers::D));
        cur = cur.push(AsmLine::Get(Registers::D));
    }
    push_reg_line(out, "ADD ", Registers::F);
    proof {
        lemma_text_of_push(cur, AsmLine::Add(Registers::F));
        cur = cur.push(AsmLine::Add(Registers::F));
    }
    push_reg_line(out, "PUT ", Registers::D);
    proof {
        lemma_text_of_push(cur, AsmLine::Put(Registers::D));
        cur = cur.push(AsmLine::Put(Registers::D));
    }
    push_reg_line(out, "SHL ", Registers::E);
    proof {
        lemma_text_of_push(cur, AsmLine::Shl(Registers::E));
        cur = cur.push(AsmLine::Shl(Registers::E));
    }
    push_reg_line(out, "SHL ", Registers::F);
    proof {
        lemma_text_of_push(cur, AsmLine::Shl(Registers::F));
        cur = cur.push(AsmLine::Shl(Registers::F));
    }
    push_jump_line(out, "JPOS ", pos_x as i128 + 11);
    proof {
        lemma_text_of_push(cur, AsmLine::Jpos(pos_x as int + 11));
        cur = cur.push(AsmLine::Jpos(pos_x as int + 11));
    }
    push_jump_line(out, "JPOS ", pos_x as i128 + 4);
    proof {
        lemma_text_of_push(cur, AsmLine::Jpos(pos_x as int + 4));
        cur = cur.push(AsmLine::Jpos(pos_x as int + 4));
    }
    push_reg_line(out, "GET ", Registers::D);
    proof {
        lemma_text_of_push(cur, AsmLine::Get(Registers::D));
        cur = cur.push(AsmLine::Get(Registers::D));
    }
    proof {
        assert(cur =~= ls0 + instr_lines(Instruction::Div, pos_x as int));
    }
}

/// Prints the literal body of the `Mod` macro standing at line
/// `pos_x`, its internal jumps already absolute.
#[verifier::rlimit(100)]
fn emit_modulo(out: &mut String, pos_x: u128, Ghost(ls0): Ghost<Seq<AsmLine>>)
    requires
        pos_x <= 0x1_0000_0000_0000_0000_0000,
        old(out)@ == text_of(ls0),
    ensures
        final(out)@ == text_of(ls0 + instr_lines(Instruction::Mod, pos_x as int)),
{
    let ghost mut cur: Seq<AsmLine> = ls0;
    push_reg_line(out, "RST ", Registers::D);
    proof {
        lemma_text_of_push(cur, AsmLine::Rst(Registers::D));
        cur = cur.push(AsmLine::Rst(Registers::D));
    }
    push_reg_line(out, "ADD ", Registers::E);
    proof {
        lemma_text_of_push(cur, AsmLine::Add(Registers::E));
        cur = cur.push(AsmLine::Add(Registers::E));
    }
    push_reg_line(out, "SUB ", Registers::E);
    proof {
        lemma_text_of_push(cur, AsmLine::Sub(Registers::E));
        cur = cur.push(AsmLine::Sub(Registers::E));
    }
    push_jump_line(out, "JZERO ", pos_x as i128 + 24);
    proof {
        lemma_text_of_push(cur, AsmLine::Jzero(pos_x as int + 24));
        cur = cur.push(AsmLine::Jzero(pos_x as int + 24));
    }
    push_reg_line(out, "GET ", Registers::C);
    proof {
        lemma_text_of_push(cur, AsmLine::Get(Registers::C));
        cur = cur.push(AsmLine::Get(Registers::C));
    }
    push_reg_line(out, "SUB ", Registers::B);
    proof {
        lemma_text_of_push(cur, AsmLine::Sub(Registers::B));
        cur = cur.push(AsmLine::Sub(Registers::B));
    }
    push_jump_line(out, "JPOS ", pos_x as i128 + 25);
    proof {
        lemma_text_of_push(cur, AsmLine::Jpos(pos_x as int + 25));
        cur = cur.push(AsmLine::Jpos(pos_x as int + 25));
    }
    push_reg_line(out, "GET ", Registers::C);
    proof {
        lemma_text_of_push(cur, AsmLine::Get(Registers::C));
        cur = cur.push(AsmLine::Get(Registers::C));
    }
    push_reg_line(out, "PUT ", Registers::E);
    proof {
        lemma_text_of_push(cur, AsmLine::Put(Registers::E));
        cur = cur.push(AsmLine::Put(Registers::E));
    }
    push_reg_line(out, "RST ", Registers::F);
    proof {
        lemma_text_of_push(cur, AsmLine::Rst(Registers::F));
        cur = cur.push(AsmLine::Rst(Registers::F));
    }
    push_reg_line(out, "INC ", Registers::F);
    proof {
        lemma_text_of_push(cur, AsmLine::Inc(Registers::F));
        cur = cur.push(AsmLine::Inc(Registers::F));
    }
    push_reg_line(out, "GET ", Registers::E);
    proof {
        lemma_text_of_push(cur, AsmLine::Get(Registers::E));
        cur = cur.push(AsmLine::Get(Registers::E));
    }
    push_reg_line(out, "SUB ", Registers::B);
    proof {
        lemma_text_of_push(cur, AsmLine::Sub(Registers::B));
        cur = cur.push(AsmLine::Sub(Registers::B));
    }
    push_jump_line(out, "JPOS ", pos_x as i128 + 23);
    proof {
        lemma_text_of_push(cur, AsmLine::Jpos(pos_x as int + 23));
        cur = cur.push(AsmLine::Jpos(pos_x as int + 23));
    }
    push_reg_line(out, "GET ", Registers::B);
    proof {
        lemma_text_of_push(cur, AsmLine::Get(Registers::B));
        cur = cur.push(AsmLine::Get(Registers::B));
    }
    push_reg_line(out, "SUB ", Registers::E);
    proof {
        lemma_text_of_push(cur, AsmLine::Sub(Registers::E));
        cur = cur.push(AsmLine::Sub(Registers::E));
    }
    push_reg_line(out, "PUT ", Registers::B);
    proof {
        lemma_text_of_push(cur, AsmLine::Put(Registers::B));
        cur = cur.push(AsmLine::Put(Registers::B));
    }
    push_reg_line(out, "GET ", Registers::D);
    proof {
        lemma_text_of_push(cur, AsmLine::Get(Registers::D));
        cur = cur.push(AsmLine::Get(Registers::D));
    }
    push_reg_line(out, "ADD ", Registers::F);
    proof {
        lemma_text_of_push(cur, AsmLine::Add(Registers::F));
        cur = cur.push(AsmLine::Add(Registers::F));
    }
    push_reg_line(out, "PUT ", Registers::D);
    proof {
        lemma_text_of_push(cur, AsmLine::Put(Registers::D));
        cur = cur.push(AsmLine::Put(Registers::D));
    }
    push_reg_line(out, "SHL ", Registers::E);
    proof {
        lemma_text_of_push(cur, AsmLine::Shl(Registers::E));
        cur = cur.push(AsmLine::Shl(Registers::E));
    }
    push_reg_line(out, "SHL ", Registers::F);
    proof {
        lemma_text_of_push(cur, AsmLine::Shl(Registers::F));
        cur = cur.push(AsmLine::Shl(Registers::F));
    }
    push_jump_line(out, "JUMP ", pos_x as i128 + 11);
    proof {
        lemma_text_of_push(cur, AsmLine::Jump(pos_x as int + 11));
        cur = cur.push(AsmLine::Jump(pos_x as int + 11));
    }
    push_jump_line(out, "JUMP ", pos_x as i128 + 4);
    proof {
        lemma_text_of_push(cur, AsmLine::Jump(pos_x as int + 4));
        cur = cur.push(AsmLine::Jump(pos_x as int + 4));
    }
    push_reg_line(out, "RST ", Registers::B);
    proof {
        lemma_text_of_push(cur, AsmLine::Rst(Registers::B));
        cur = cur.push(AsmLine::Rst(Registers::B));
    }
    push_reg_line(out, "GET ", Registers::B);
    proof {
        lemma_text_of_push(cur, AsmLine::Get(Registers::B));
        cur = cur.push(AsmLine::Get(Registers::B));
    }
    proof {
        assert(cur =~= ls0 + instr_lines(Instruction::Mod, pos_x as int));
    }
}

impl Emitter {
    /// Prints the instruction stream: one line per entry, each
    /// relative jump resolved by adding the number of lines already
    /// put out, and the three synthetic macros expanded to their
    /// literal bodies.
    #[verifier::loop_isolation(false)]
    #[verifier::rlimit(100)]
    pub fn emit(&self) -> (r: String)
        ensures
            r@ == text_of(stream_lines(self.code_view(), 0)),
    {
        let ghost s = self.pseudo_assembly@;
        let mut out = String::new();
        let mut count: u128 = 0;
        let ghost mut lines_g: Seq<AsmLine> = Seq::empty();
        let n = self.pseudo_assembly.len();
        let mut i: usize = 0;
        proof {
            assert(s.subrange(0, 0) =~= Seq::<Instruction>::empty());
            assert(text_of(lines_g) =~= Seq::<char>::empty());
        }
        while i < n
            invariant
                0 <= i <= n,
                n == s.len(),
                lines_g == stream_lines(s.subrange(0, i as int), 0),
                out@ == text_of(lines_g),
                count == lines_g.len(),
                count <= 26 * (i as u128),
            decreases n - i,
        {
            let instruction = &self.pseudo_assembly[i];
            let ghost pos = count as int;
            let ghost lines0 = lines_g;
            match instruction {
                Instruction::Read => {
                    out.append("READ\n");
                    proof {
                        lemma_text_of_push(lines_g, AsmLine::Read);
                        lines_g = lines_g.push(AsmLine::Read);
                    }
                    count = count + 1;
                },
                Instruction::Write => {
                    out.append("WRITE\n");
                    proof {
                        lemma_text_of_push(lines_g, AsmLine::Write);
                        lines_g = lines_g.push(AsmLine::Write);
                    }
                    count = count + 1;
                },
                Instruction::Load(register) => {
                    push_reg_line(&mut out, "LOAD ", *register);
                    proof {
                        lemma_text_of_push(lines_g, AsmLine::Load(*register));
                        lines_g = lines_g.push(AsmLine::Load(*register));
                    }
                    count = count + 1;
                },
                Instruction::Store(register) => {
                    push_reg_line(&mut out, "STORE ", *register);
                    proof {
                        lemma_text_of_push(lines_g, AsmLine::Store(*register));
                        lines_g = lines_g.push(AsmLine::Store(*register));
                    }
                    count = count + 1;
                },
                Instruction::Add(register) => {
                    push_reg_line(&mut out, "ADD ", *register);
                    proof {
                        lemma_text_of_push(lines_g, AsmLine::Add(*register));
                        lines_g = lines_g.push(AsmLine::Add(*register));
                    }
                    count = count + 1;
                },
                Instruction::Sub(register) => {
                    push_reg_line(&mut out, "SUB ", *register);
                    proof {
                        lemma_text_of_push(lines_g, AsmLine::Sub(*register));
                        lines_g = lines_g.push(AsmLine::Sub(*register));
                    }
                    count = count + 1;
                },
                Instruction::Get(register) => {
                    push_reg_line(&mut out, "GET ", *register);
                    proof {
                        lemma_text_of_push(lines_g, AsmLine::Get(*register));
                        lines_g = lines_g.push(AsmLine::Get(*register));
                    }
                    count = count + 1;
                },
                Instruction::Put(register) => {
                    push_reg_line(&mut out, "PUT ", *register);
                    proof {
                        lemma_text_of_push(lines_g, AsmLine::Put(*register));
                        lines_g = lines_g.push(AsmLine::Put(*register));
                    }
                    count = count + 1;
                },
                Instruction::Rst(register) => {
                    push_reg_line(&mut out, "RST ", *register);
                    proof {
                        lemma_text_of_push(lines_g, AsmLine::Rst(*register));
                        lines_g = lines_g.push(AsmLine::Rst(*register));
                    }
                    count = count + 1;
                },
                Instruction::Inc(register) => {
                    push_reg_line(&mut out, "INC ", *register);
                    proof {
                        lemma_text_of_push(lines_g, AsmLine::Inc(*register));
                        lines_g = lines_g.push(AsmLine::Inc(*register));
                    }
                    count = count + 1;
                },
                Instruction::Dec(register) => {
                    push_reg_line(&mut out, "DEC ", *register);
                    proof {
                        lemma_text_of_push(lines_g, AsmLine::Dec(*register));
                        lines_g = lines_g.push(AsmLine::Dec(*register));
                    }
                    count = count + 1;
                },
                Instruction::Shl(register) => {
                    push_reg_line(&mut out, "SHL ", *register);
                    proof {
                        lemma_text_of_push(lines_g, AsmLine::Shl(*register));
                        lines_g = lines_g.push(AsmLine::Shl(*register));
                    }
                    count = count + 1;
                },
                Instruction::Shr(register) => {
                    push_reg_line(&mut out, "SHR ", *register);
                    proof {
                        lemma_text_of_push(lines_g, AsmLine::Shr(*register));
                        lines_g = lines_g.push(AsmLine::Shr(*register));
                    }
                    count = count + 1;
                },
                Instruction::Strk => {
                    out.append("PUT k\n");
                    proof {
                        lemma_text_of_push(lines_g, AsmLine::PutK);
                        lines_g = lines_g.push(AsmLine::PutK);
                    }
                    out.append("INC k\n");
                    proof {
                        lemma_text_of_push(lines_g, AsmLine::IncK);
                        lines_g = lines_g.push(AsmLine::IncK);
                    }
                    count = count + 2;
                },
                Instruction::Jumpr(register) => {
                    push_reg_line(&mut out, "GET ", *register);
                    proof {
                        lemma_text_of_push(lines_g, AsmLine::Get(*register));
                        lines_g = lines_g.push(AsmLine::Get(*register));
                    }
                    count = count + 1;
                },
                Instruction::Jump(offset) => {
                    let t: i128 = *offset as i128 + count as i128;
                    push_jump_line(&mut out, "JUMP ", t);
                    proof {
                        assert(t as int == *offset + pos);
                        lemma_text_of_push(lines_g, AsmLine::Jump(*offset + pos));
                        lines_g = lines_g.push(AsmLine::Jump(*offset + pos));
                    }
                    count = count + 1;
                },
                Instruction::Jpos(offset) => {
                    let t: i128 = *offset as i128 + count as i128;
                    push_jump_line(&mut out, "JPOS ", t);
                    proof {
                        assert(t as int == *offset + pos);
                        lemma_text_of_push(lines_g, AsmLine::Jpos(*offset + pos));
                        lines_g = lines_g.push(AsmLine::Jpos(*offset + pos));
                    }
                    count = count + 1;
                },
                Instruction::Jzero(offset) => {
                    let t: i128 = *offset as i128 + count as i128;
                    push_jump_line(&mut out, "JZERO ", t);
                    proof {
                        assert(t as int == *offset + pos);
                        lemma_text_of_push(lines_g, AsmLine::Jzero(*offset + pos));
                        lines_g = lines_g.push(AsmLine::Jzero(*offset + pos));
                    }
                    count = count + 1;
                },
                Instruction::Halt => {
                    out.append("HALT\n");
                    proof {
                        lemma_text_of_push(lines_g, AsmLine::Halt);
                        lines_g = lines_g.push(AsmLine::Halt);
                    }
                    count = count + 1;
                },
                Instruction::Mul => {
                    emit_mul(&mut out, count, Ghost(lines_g));
                    proof {
                        lines_g = lines0 + instr_lines(Instruction::Mul, pos);
                    }
                    count = count + 20;
                },
                Instruction::Div => {
                    emit_div(&mut out, count, Ghost(lines_g));
                    proof {
                        lines_g = lines0 + instr_lines(Instruction::Div, pos);
                    }
                    count = count + 25;
                },
                Instruction::Mod => {
                    emit_modulo(&mut out, count, Ghost(lines_g));
                    proof {
                        lines_g = lines0 + instr_lines(Instruction::Mod, pos);
                    }
                    count = count + 26;
                },
            }
            proof {
                assert(lines_g =~= lines0 + instr_lines(s[i as int], pos));
                assert(s.subrange(0, i + 1).drop_last() =~= s.subrange(0, i as int));
                assert(s.subrange(0, i + 1).last() == s[i as int]);
            }
            i += 1;
        }
        proof {
            assert(s.subrange(0, n as int) =~= s);
        }
        out
    }
}

/// The procedure list of a program, empty when absent.
pub open spec fn spec_procs_of(ast: Program) -> Seq<Procedure> {
    match ast.0 {
        Some(ps) => ps@,
        None => Seq::empty(),
    }
}

spec fn spec_procs_of_parts(p: &Option<Procedures>) -> Seq<Procedure> {
    match p {
        Some(ps) => ps@,
        None => Seq::empty(),
    }
}

/// The main declarations of a program, as views, empty when absent.
pub open spec fn spec_decls_of(ast: Program) -> Seq<DeclV> {
    match ast.1.0 {
        Some(ds) => decls_view(ds@),
        None => Seq::empty(),
    }
}

spec fn spec_decls_of_parts(p: &Option<Declarations>) -> Seq<DeclarationVariant> {
    match p {
        Some(ds) => ds@,
        None => Seq::empty(),
    }
}

spec fn ds0_view_of(ds0: Seq<DeclarationVariant>) -> Seq<DeclV> {
    decls_view(ds0)
}

proof fn lemma_decls_view_push(ds: Seq<DeclarationVariant>, d: DeclarationVariant)
    ensures
        decls_view(ds.push(d)) == decls_view(ds).push(d@),
{
    assert(decls_view(ds.push(d)) =~= decls_view(ds).push(d@));
}

} // verus!
