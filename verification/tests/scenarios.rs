// End-to-end scenarios: source trees are compiled and the emitted
// pseudo-assembly is executed on a small interpreter of the target
// machine, checking the produced outputs for the given inputs.
use codegen::ast::{
    ArgumentsDeclarationVariant, Command, Condition, DeclarationVariant, Expression, Identifier,
    Procedure, Program, Value,
};
use codegen::emitter::Emitter;
use codegen::error::CompilerError;

fn reg_index(name: &str) -> usize {
    match name {
        "a" => 0,
        "b" => 1,
        "c" => 2,
        "d" => 3,
        "e" => 4,
        "f" => 5,
        "g" => 6,
        "h" => 7,
        other => panic!("unexpected register {}", other),
    }
}

// Executes emitted text on the target machine: eight registers, a
// word-addressable store, saturating subtraction and decrement.
fn run_vm(listing: &str, inputs: &[u128]) -> Vec<u128> {
    let lines: Vec<&str> = listing.lines().collect();
    let mut regs = [0u128; 8];
    let mut mem: std::collections::HashMap<u128, u128> = std::collections::HashMap::new();
    let mut outputs: Vec<u128> = Vec::new();
    let mut next_input = 0usize;
    let mut pc = 0usize;
    let mut steps = 0u64;
    loop {
        steps += 1;
        assert!(steps < 1_000_000, "program did not halt");
        let line = lines[pc];
        let mut parts = line.split_whitespace();
        let op = parts.next().unwrap();
        match op {
            "READ" => {
                regs[0] = inputs[next_input];
                next_input += 1;
                pc += 1;
            }
            "WRITE" => {
                outputs.push(regs[0]);
                pc += 1;
            }
            "LOAD" => {
                let r = reg_index(parts.next().unwrap());
                regs[0] = *mem.get(&regs[r]).unwrap_or(&0);
                pc += 1;
            }
            "STORE" => {
                let r = reg_index(parts.next().unwrap());
                mem.insert(regs[r], regs[0]);
                pc += 1;
            }
            "ADD" => {
                let r = reg_index(parts.next().unwrap());
                regs[0] += regs[r];
                pc += 1;
            }
            "SUB" => {
                let r = reg_index(parts.next().unwrap());
                regs[0] = regs[0].saturating_sub(regs[r]);
                pc += 1;
            }
            "GET" => {
                let r = reg_index(parts.next().unwrap());
                regs[0] = regs[r];
                pc += 1;
            }
            "PUT" => {
                let r = reg_index(parts.next().unwrap());
                regs[r] = regs[0];
                pc += 1;
            }
            "RST" => {
                let r = reg_index(parts.next().unwrap());
                regs[r] = 0;
                pc += 1;
            }
            "INC" => {
                let r = reg_index(parts.next().unwrap());
                regs[r] += 1;
                pc += 1;
            }
            "DEC" => {
                let r = reg_index(parts.next().unwrap());
                regs[r] = regs[r].saturating_sub(1);
                pc += 1;
            }
            "SHL" => {
                let r = reg_index(parts.next().unwrap());
                regs[r] *= 2;
                pc += 1;
            }
            "SHR" => {
                let r = reg_index(parts.next().unwrap());
                regs[r] /= 2;
                pc += 1;
            }
            "JUMP" => {
                pc = parts.next().unwrap().parse().unwrap();
            }
            "JPOS" => {
                let target: usize = parts.next().unwrap().parse().unwrap();
                if regs[0] > 0 {
                    pc = target;
                } else {
                    pc += 1;
                }
            }
            "JZERO" => {
                let target: usize = parts.next().unwrap().parse().unwrap();
                if regs[0] == 0 {
                    pc = target;
                } else {
                    pc += 1;
                }
            }
            "HALT" => break,
            other => panic!("unexpected opcode {}", other),
        }
    }
    outputs
}

fn ident(name: &str) -> Identifier {
    Identifier::Base((name.to_string(), 0))
}

fn var(name: &str) -> Value {
    Value::Id(ident(name))
}

fn decl(name: &str) -> DeclarationVariant {
    DeclarationVariant::Base((name.to_string(), 0))
}

fn compile(program: Program) -> String {
    let mut emitter = Emitter::new(program).unwrap();
    emitter.construct().unwrap();
    emitter.emit()
}

#[test]
fn echo_input() {
    // BEGIN READ a; WRITE a; END on input 42 outputs 42
    let program: Program = (
        None,
        (
            Some(vec![decl("a")]),
            vec![Command::Read(ident("a")), Command::Write(var("a"))],
        ),
    );
    assert_eq!(run_vm(&compile(program), &[42]), vec![42]);
}

#[test]
fn sum_of_two_inputs() {
    // READ a; READ b; c := a + b; WRITE c on inputs 7 5 outputs 12
    let program: Program = (
        None,
        (
            Some(vec![decl("a"), decl("b"), decl("c")]),
            vec![
                Command::Read(ident("a")),
                Command::Read(ident("b")),
                Command::Assign(ident("c"), Expression::Add(var("a"), var("b"))),
                Command::Write(var("c")),
            ],
        ),
    );
    assert_eq!(run_vm(&compile(program), &[7, 5]), vec![12]);
}

fn max_program() -> Program {
    // READ a; READ b; IF a > b THEN WRITE a; ELSE WRITE b; ENDIF
    (
        None,
        (
            Some(vec![decl("a"), decl("b")]),
            vec![
                Command::Read(ident("a")),
                Command::Read(ident("b")),
                Command::If(
                    Condition::Greater(var("a"), var("b")),
                    vec![Command::Write(var("a"))],
                    Some(vec![Command::Write(var("b"))]),
                ),
            ],
        ),
    )
}

#[test]
fn conditional_picks_larger_of_three_nine() {
    assert_eq!(run_vm(&compile(max_program()), &[3, 9]), vec![9]);
}

#[test]
fn conditional_picks_larger_of_nine_three() {
    assert_eq!(run_vm(&compile(max_program()), &[9, 3]), vec![9]);
}

#[test]
fn while_loop_sums_ten_down_to_one() {
    // a := 0; b := 10; WHILE b > 0 DO a := a + b; b := b - 1; ENDWHILE WRITE a
    let program: Program = (
        None,
        (
            Some(vec![decl("a"), decl("b")]),
            vec![
                Command::Assign(ident("a"), Expression::Value(Value::Num(0))),
                Command::Assign(ident("b"), Expression::Value(Value::Num(10))),
                Command::While(
                    Condition::Greater(var("b"), Value::Num(0)),
                    vec![
                        Command::Assign(ident("a"), Expression::Add(var("a"), var("b"))),
                        Command::Assign(ident("b"), Expression::Sub(var("b"), Value::Num(1))),
                    ],
                ),
                Command::Write(var("a")),
            ],
        ),
    );
    assert_eq!(run_vm(&compile(program), &[]), vec![55]);
}

#[test]
fn repeat_loop_runs_body_then_tests() {
    // a := 0; REPEAT a := a + 1; UNTIL a = 3; WRITE a
    let program: Program = (
        None,
        (
            Some(vec![decl("a")]),
            vec![
                Command::Assign(ident("a"), Expression::Value(Value::Num(0))),
                Command::Repeat(
                    vec![Command::Assign(ident("a"), Expression::Add(var("a"), Value::Num(1)))],
                    Condition::Equal(var("a"), Value::Num(3)),
                ),
                Command::Write(var("a")),
            ],
        ),
    );
    assert_eq!(run_vm(&compile(program), &[]), vec![3]);
}

#[test]
fn procedure_call_binds_by_reference() {
    // PROCEDURE p(x): x := x * 2; BEGIN a := 21; p(a); WRITE a; END outputs 42
    let procedure: Procedure = (
        (
            ("p".to_string(), 0),
            vec![ArgumentsDeclarationVariant::Base(("x".to_string(), 0))],
        ),
        None,
        vec![Command::Assign(
            Identifier::Base(("x".to_string(), 0)),
            Expression::Mul(Value::Id(Identifier::Base(("x".to_string(), 0))), Value::Num(2)),
        )],
    );
    let program: Program = (
        Some(vec![procedure]),
        (
            Some(vec![decl("a")]),
            vec![
                Command::Assign(ident("a"), Expression::Value(Value::Num(21))),
                Command::ProcCall((("p".to_string(), 0), vec![("a".to_string(), 0)])),
                Command::Write(var("a")),
            ],
        ),
    );
    assert_eq!(run_vm(&compile(program), &[]), vec![42]);
}

#[test]
fn self_call_is_rejected_as_recursive() {
    // PROCEDURE p(x): p(x); BEGIN a := 1; p(a); END
    let procedure: Procedure = (
        (
            ("p".to_string(), 0),
            vec![ArgumentsDeclarationVariant::Base(("x".to_string(), 0))],
        ),
        None,
        vec![Command::ProcCall((("p".to_string(), 7), vec![("x".to_string(), 7)]))],
    );
    let program: Program = (
        Some(vec![procedure]),
        (
            Some(vec![decl("a")]),
            vec![
                Command::Assign(ident("a"), Expression::Value(Value::Num(1))),
                Command::ProcCall((("p".to_string(), 9), vec![("a".to_string(), 9)])),
            ],
        ),
    );
    let mut emitter = Emitter::new(program).unwrap();
    let result = emitter.construct();
    assert!(matches!(result, Err(CompilerError::RecursiveProcedureCall(_, _))));
}

#[test]
fn mutual_recursion_is_rejected() {
    // PROCEDURE p(x): q(x); PROCEDURE q(y): p(y); BEGIN a := 1; p(a); END
    let proc_p: Procedure = (
        (
            ("p".to_string(), 0),
            vec![ArgumentsDeclarationVariant::Base(("x".to_string(), 0))],
        ),
        None,
        vec![Command::ProcCall((("q".to_string(), 3), vec![("x".to_string(), 3)]))],
    );
    let proc_q: Procedure = (
        (
            ("q".to_string(), 0),
            vec![ArgumentsDeclarationVariant::Base(("y".to_string(), 0))],
        ),
        None,
        vec![Command::ProcCall((("p".to_string(), 5), vec![("y".to_string(), 5)]))],
    );
    let program: Program = (
        Some(vec![proc_p, proc_q]),
        (
            Some(vec![decl("a")]),
            vec![
                Command::Assign(ident("a"), Expression::Value(Value::Num(1))),
                Command::ProcCall((("p".to_string(), 9), vec![("a".to_string(), 9)])),
            ],
        ),
    );
    let mut emitter = Emitter::new(program).unwrap();
    let result = emitter.construct();
    assert!(matches!(result, Err(CompilerError::RecursiveProcedureCall(_, _))));
}

#[test]
fn nested_calls_without_recursion_are_accepted() {
    // PROCEDURE q(y): y := y + 1; PROCEDURE p(x): q(x); q(x);
    // BEGIN a := 40; p(a); WRITE a; END outputs 42
    let proc_q: Procedure = (
        (
            ("q".to_string(), 0),
            vec![ArgumentsDeclarationVariant::Base(("y".to_string(), 0))],
        ),
        None,
        vec![Command::Assign(
            Identifier::Base(("y".to_string(), 0)),
            Expression::Add(Value::Id(Identifier::Base(("y".to_string(), 0))), Value::Num(1)),
        )],
    );
    let proc_p: Procedure = (
        (
            ("p".to_string(), 0),
            vec![ArgumentsDeclarationVariant::Base(("x".to_string(), 0))],
        ),
        None,
        vec![
            Command::ProcCall((("q".to_string(), 0), vec![("x".to_string(), 0)])),
            Command::ProcCall((("q".to_string(), 0), vec![("x".to_string(), 0)])),
        ],
    );
    let program: Program = (
        Some(vec![proc_q, proc_p]),
        (
            Some(vec![decl("a")]),
            vec![
                Command::Assign(ident("a"), Expression::Value(Value::Num(40))),
                Command::ProcCall((("p".to_string(), 0), vec![("a".to_string(), 0)])),
                Command::Write(var("a")),
            ],
        ),
    );
    assert_eq!(run_vm(&compile(program), &[]), vec![42]);
}

#[test]
fn one_armed_conditional_skips_when_false() {
    // READ a; IF a > 5 THEN a := 0; ENDIF WRITE a
    let program: Program = (
        None,
        (
            Some(vec![decl("a")]),
            vec![
                Command::Read(ident("a")),
                Command::If(
                    Condition::Greater(var("a"), Value::Num(5)),
                    vec![Command::Assign(ident("a"), Expression::Value(Value::Num(0)))],
                    None,
                ),
                Command::Write(var("a")),
            ],
        ),
    );
    let listing = compile(program);
    assert_eq!(run_vm(&listing, &[3]), vec![3]);
    assert_eq!(run_vm(&listing, &[9]), vec![0]);
}

#[test]
fn repeat_loop_with_inequality_exit() {
    // a := 0; REPEAT a := a + 2; UNTIL a > 3; WRITE a
    let program: Program = (
        None,
        (
            Some(vec![decl("a")]),
            vec![
                Command::Assign(ident("a"), Expression::Value(Value::Num(0))),
                Command::Repeat(
                    vec![Command::Assign(ident("a"), Expression::Add(var("a"), Value::Num(2)))],
                    Condition::Greater(var("a"), Value::Num(3)),
                ),
                Command::Write(var("a")),
            ],
        ),
    );
    assert_eq!(run_vm(&compile(program), &[]), vec![4]);
}

#[test]
fn repeat_loop_with_not_equal_exit() {
    // a := 2; REPEAT a := a + 2; UNTIL a != 4; WRITE a: the first pass
    // leaves a equal to 4, so the back edge runs once before the exit
    let program: Program = (
        None,
        (
            Some(vec![decl("a")]),
            vec![
                Command::Assign(ident("a"), Expression::Value(Value::Num(2))),
                Command::Repeat(
                    vec![Command::Assign(ident("a"), Expression::Add(var("a"), Value::Num(2)))],
                    Condition::NotEqual(var("a"), Value::Num(4)),
                ),
                Command::Write(var("a")),
            ],
        ),
    );
    assert_eq!(run_vm(&compile(program), &[]), vec![6]);
}

#[test]
fn equality_conditions_in_both_loop_forms() {
    // a := 0; WHILE a != 4 DO a := a + 2; ENDWHILE WRITE a
    let program: Program = (
        None,
        (
            Some(vec![decl("a")]),
            vec![
                Command::Assign(ident("a"), Expression::Value(Value::Num(0))),
                Command::While(
                    Condition::NotEqual(var("a"), Value::Num(4)),
                    vec![Command::Assign(ident("a"), Expression::Add(var("a"), Value::Num(2)))],
                ),
                Command::Write(var("a")),
            ],
        ),
    );
    assert_eq!(run_vm(&compile(program), &[]), vec![4]);
}

#[test]
fn division_and_modulo_including_by_zero() {
    // READ a; READ b; c := a / b; WRITE c; c := a % b; WRITE c
    let program: Program = (
        None,
        (
            Some(vec![decl("a"), decl("b"), decl("c")]),
            vec![
                Command::Read(ident("a")),
                Command::Read(ident("b")),
                Command::Assign(ident("c"), Expression::Div(var("a"), var("b"))),
                Command::Write(var("c")),
                Command::Assign(ident("c"), Expression::Mod(var("a"), var("b"))),
                Command::Write(var("c")),
            ],
        ),
    );
    let listing = compile(program);
    assert_eq!(run_vm(&listing, &[17, 5]), vec![3, 2]);
    // division by zero falls through to quotient 0 and remainder 0
    assert_eq!(run_vm(&listing, &[17, 0]), vec![0, 0]);
}

#[test]
fn value_loader_reaches_each_target() {
    // a := n; WRITE a, for a spread of loader targets
    for n in [0u64, 1, 2, 3, 5, 10, 42, 255, 256, 1023, 4_294_967_296] {
        let program: Program = (
            None,
            (
                Some(vec![decl("a")]),
                vec![
                    Command::Assign(ident("a"), Expression::Value(Value::Num(n))),
                    Command::Write(var("a")),
                ],
            ),
        );
        assert_eq!(run_vm(&compile(program), &[]), vec![n as u128]);
    }
}

#[test]
fn array_elements_fixed_and_dynamic() {
    // t[0] := 7; i := 0; WRITE t[i]
    let program: Program = (
        None,
        (
            Some(vec![
                DeclarationVariant::NumIndexed(("t".to_string(), 0), 3),
                decl("i"),
            ]),
            vec![
                Command::Assign(
                    Identifier::NumIndexed(("t".to_string(), 0), 0),
                    Expression::Value(Value::Num(7)),
                ),
                Command::Assign(ident("i"), Expression::Value(Value::Num(0))),
                Command::Write(Value::Id(Identifier::PidIndexed(
                    ("t".to_string(), 0),
                    ("i".to_string(), 0),
                ))),
            ],
        ),
    );
    assert_eq!(run_vm(&compile(program), &[]), vec![7]);
}

#[test]
fn saturating_subtraction_clamps_at_zero() {
    // a := 3 - 5; WRITE a outputs 0
    let program: Program = (
        None,
        (
            Some(vec![decl("a")]),
            vec![
                Command::Assign(ident("a"), Expression::Sub(Value::Num(3), Value::Num(5))),
                Command::Write(var("a")),
            ],
        ),
    );
    assert_eq!(run_vm(&compile(program), &[]), vec![0]);
}
