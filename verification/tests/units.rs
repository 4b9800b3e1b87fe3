// Unit checks: the value loader's exact output, the printed text and
// its line accounting, each rejection kind, the warnings, and the
// diagnostic helpers.
use codegen::ast::{
    ArgumentsDeclarationVariant, Command, DeclarationVariant, Expression, Identifier, Procedure,
    Program, Value,
};
use codegen::emitter::{put_in_a, Emitter, Registers};
use codegen::error::CompilerError;
use codegen::instruct::Instruction;
use codegen::names::{base_of, qualify, warning_for};
use codegen::report::{error_message, find_line_number};

fn ident(name: &str) -> Identifier {
    Identifier::Base((name.to_string(), 0))
}

fn ident_at(name: &str, byte: usize) -> Identifier {
    Identifier::Base((name.to_string(), byte))
}

fn var(name: &str) -> Value {
    Value::Id(ident(name))
}

fn decl(name: &str) -> DeclarationVariant {
    DeclarationVariant::Base((name.to_string(), 0))
}

fn compile(program: Program) -> String {
    let mut emitter = Emitter::new(program).unwrap();
    emitter.construct().unwrap();
    emitter.emit()
}

fn construct_err(program: Program) -> CompilerError {
    let mut emitter = Emitter::new(program).unwrap();
    emitter.construct().unwrap_err()
}

#[test]
fn loader_output_for_zero() {
    assert_eq!(put_in_a(0), vec![Instruction::Rst(Registers::A)]);
}

#[test]
fn loader_output_for_five() {
    // 5 = ((1 shifted) shifted) incremented
    assert_eq!(
        put_in_a(5),
        vec![
            Instruction::Rst(Registers::A),
            Instruction::Inc(Registers::A),
            Instruction::Shl(Registers::A),
            Instruction::Shl(Registers::A),
            Instruction::Inc(Registers::A),
        ]
    );
}

#[test]
fn loader_output_for_six() {
    // 6 = (1 shifted, incremented) shifted
    assert_eq!(
        put_in_a(6),
        vec![
            Instruction::Rst(Registers::A),
            Instruction::Inc(Registers::A),
            Instruction::Shl(Registers::A),
            Instruction::Inc(Registers::A),
            Instruction::Shl(Registers::A),
        ]
    );
}

#[test]
fn instruction_lengths() {
    assert_eq!(Instruction::Mul.len(), 20);
    assert_eq!(Instruction::Div.len(), 25);
    assert_eq!(Instruction::Mod.len(), 26);
    assert_eq!(Instruction::Read.len(), 1);
    assert_eq!(Instruction::Jump(3).len(), 1);
}

#[test]
fn emitted_text_for_write_one() {
    // WRITE 1 with no declarations
    let program: Program = (
        None,
        (None, vec![Command::Write(Value::Num(1))]),
    );
    assert_eq!(compile(program), "RST a\nINC a\nWRITE\nHALT\n");
}

#[test]
fn emitted_line_count_matches_declared_lengths() {
    // c := 2 * 3; WRITE c: every instruction counts 1 but the
    // multiplication macro, which counts 20
    let program: Program = (
        None,
        (
            Some(vec![decl("c")]),
            vec![
                Command::Assign(ident("c"), Expression::Mul(Value::Num(2), Value::Num(3))),
                Command::Write(var("c")),
            ],
        ),
    );
    let listing = compile(program);
    let lines: Vec<&str> = listing.lines().collect();
    // 12 lines before the macro, 20 inside, 4 after
    assert_eq!(lines.len(), 36);
    // the macro's internal jumps are absolute: it starts at line 11
    assert_eq!(lines[16], "JZERO 30");
    assert_eq!(lines[21], "JZERO 25");
    assert_eq!(lines[29], "JPOS 15");
}

#[test]
fn backward_jump_is_absolute() {
    // a := 0; WHILE a > 0 DO a := a - 1; ENDWHILE
    let program: Program = (
        None,
        (
            Some(vec![decl("a")]),
            vec![
                Command::Assign(ident("a"), Expression::Value(Value::Num(0))),
                Command::While(
                    codegen::ast::Condition::Greater(var("a"), Value::Num(0)),
                    vec![Command::Assign(ident("a"), Expression::Sub(var("a"), Value::Num(1)))],
                ),
            ],
        ),
    );
    let listing = compile(program);
    let lines: Vec<&str> = listing.lines().collect();
    // the trailing back-edge jumps to the first guard line
    let last_jump = lines
        .iter()
        .rev()
        .find(|l| l.starts_with("JUMP"))
        .unwrap();
    assert_eq!(*last_jump, "JUMP 4");
}

#[test]
fn undeclared_variable_is_rejected() {
    let program: Program = (
        None,
        (None, vec![Command::Write(Value::Id(ident_at("x", 4)))]),
    );
    let e = construct_err(program);
    assert!(matches!(e, CompilerError::UndeclaredVariable(ref n, 4) if n == "x"));
}

#[test]
fn undeclared_procedure_is_rejected() {
    let program: Program = (
        None,
        (
            Some(vec![decl("a")]),
            vec![Command::ProcCall((("q".to_string(), 6), vec![("a".to_string(), 6)]))],
        ),
    );
    let e = construct_err(program);
    assert!(matches!(e, CompilerError::UndeclaredProcedure(ref n, 6) if n == "q"));
}

#[test]
fn array_read_as_scalar_is_rejected() {
    let program: Program = (
        None,
        (
            Some(vec![DeclarationVariant::NumIndexed(("t".to_string(), 0), 3)]),
            vec![Command::Write(Value::Id(ident_at("t", 2)))],
        ),
    );
    let e = construct_err(program);
    assert!(matches!(e, CompilerError::IncorrectUseOfVariable(ref n, 2) if n == "t"));
}

#[test]
fn index_out_of_bounds_is_rejected() {
    let program: Program = (
        None,
        (
            Some(vec![DeclarationVariant::NumIndexed(("t".to_string(), 0), 2)]),
            vec![Command::Write(Value::Id(Identifier::NumIndexed(("t".to_string(), 3), 5)))],
        ),
    );
    let e = construct_err(program);
    assert!(matches!(e, CompilerError::IndexOutOfBounds(ref n, 3) if n == "t"));
}

#[test]
fn array_used_as_index_is_rejected() {
    let program: Program = (
        None,
        (
            Some(vec![
                DeclarationVariant::NumIndexed(("t".to_string(), 0), 2),
                DeclarationVariant::NumIndexed(("u".to_string(), 0), 2),
            ]),
            vec![Command::Write(Value::Id(Identifier::PidIndexed(
                ("t".to_string(), 8),
                ("u".to_string(), 9),
            )))],
        ),
    );
    let e = construct_err(program);
    assert!(matches!(e, CompilerError::ArrayUsedAsIndex(ref n, 8) if n == "t"));
}

#[test]
fn wrong_argument_shape_is_rejected() {
    // p expects a scalar, the call hands it an array
    let procedure: Procedure = (
        (
            ("p".to_string(), 0),
            vec![ArgumentsDeclarationVariant::Base(("x".to_string(), 5))],
        ),
        None,
        vec![],
    );
    let program: Program = (
        Some(vec![procedure]),
        (
            Some(vec![DeclarationVariant::NumIndexed(("t".to_string(), 0), 2)]),
            vec![Command::ProcCall((("p".to_string(), 9), vec![("t".to_string(), 9)]))],
        ),
    );
    let e = construct_err(program);
    assert!(matches!(e, CompilerError::WrongArgumentType(ref n, 5) if n == "x"));
}

#[test]
fn formal_clashing_with_local_is_rejected() {
    // p declares a local named like its formal
    let procedure: Procedure = (
        (
            ("p".to_string(), 0),
            vec![ArgumentsDeclarationVariant::Base(("x".to_string(), 5))],
        ),
        Some(vec![DeclarationVariant::Base(("x".to_string(), 6))]),
        vec![],
    );
    let program: Program = (
        Some(vec![procedure]),
        (
            Some(vec![decl("a")]),
            vec![Command::ProcCall((("p".to_string(), 9), vec![("a".to_string(), 9)]))],
        ),
    );
    let e = construct_err(program);
    assert!(matches!(e, CompilerError::DuplicateVariableDeclaration(ref n, 6) if n == "x"));
}

#[test]
fn reused_procedure_name_is_rejected() {
    let make_p = |byte: usize| -> Procedure {
        (
            (("p".to_string(), byte), vec![]),
            None,
            vec![],
        )
    };
    let program: Program = (
        Some(vec![make_p(1), make_p(8)]),
        (None, vec![]),
    );
    let e = Emitter::new(program).unwrap_err();
    assert!(matches!(e, CompilerError::DuplicateProcedureDeclaration(ref n, 8) if n == "p"));
}

#[test]
fn wrong_arity_is_rejected() {
    let procedure: Procedure = (
        (
            ("p".to_string(), 0),
            vec![ArgumentsDeclarationVariant::Base(("x".to_string(), 0))],
        ),
        None,
        vec![],
    );
    let program: Program = (
        Some(vec![procedure]),
        (
            Some(vec![decl("a"), decl("b")]),
            vec![Command::ProcCall((
                ("p".to_string(), 4),
                vec![("a".to_string(), 4), ("b".to_string(), 4)],
            ))],
        ),
    );
    let e = construct_err(program);
    assert!(matches!(e, CompilerError::WrongNumberOfArguments(ref n, 4) if n == "p"));
}

#[test]
fn use_before_initialisation_warns_with_source_name() {
    // a := b with b never assigned warns about b
    let program: Program = (
        None,
        (
            Some(vec![decl("a"), decl("b")]),
            vec![Command::Assign(ident("a"), Expression::Value(var("b")))],
        ),
    );
    let mut emitter = Emitter::new(program).unwrap();
    emitter.construct().unwrap();
    let warnings = emitter.warnings();
    assert_eq!(
        warnings,
        &vec!["Warning: Variable b used before initialisation".to_string()]
    );
}

#[test]
fn warning_inside_procedure_reports_unqualified_name() {
    // p's local d is read before assignment; the warning names d
    let procedure: Procedure = (
        (
            ("p".to_string(), 0),
            vec![ArgumentsDeclarationVariant::Base(("x".to_string(), 0))],
        ),
        Some(vec![DeclarationVariant::Base(("d".to_string(), 0))]),
        vec![Command::Assign(
            Identifier::Base(("x".to_string(), 0)),
            Expression::Value(Value::Id(Identifier::Base(("d".to_string(), 0)))),
        )],
    );
    let program: Program = (
        Some(vec![procedure]),
        (
            Some(vec![decl("a")]),
            vec![
                Command::Assign(ident("a"), Expression::Value(Value::Num(1))),
                Command::ProcCall((("p".to_string(), 0), vec![("a".to_string(), 0)])),
            ],
        ),
    );
    let mut emitter = Emitter::new(program).unwrap();
    emitter.construct().unwrap();
    assert_eq!(
        emitter.warnings(),
        &vec!["Warning: Variable d used before initialisation".to_string()]
    );
}

#[test]
fn initialised_variable_does_not_warn() {
    let program: Program = (
        None,
        (
            Some(vec![decl("a"), decl("b")]),
            vec![
                Command::Read(ident("b")),
                Command::Assign(ident("a"), Expression::Value(var("b"))),
            ],
        ),
    );
    let mut emitter = Emitter::new(program).unwrap();
    emitter.construct().unwrap();
    assert!(emitter.warnings().is_empty());
}

#[test]
fn get_byte_returns_offset() {
    let e = CompilerError::IndexOutOfBounds("t".to_string(), 17);
    assert_eq!(e.get_byte(), 17);
}

#[test]
fn qualified_and_base_names() {
    let q = qualify(&"x".to_string(), &"p".to_string());
    assert_eq!(q, "x@p");
    assert_eq!(base_of(&q), "x");
    assert_eq!(base_of(&"plain".to_string()), "plain");
    assert_eq!(warning_for(&"i@p".to_string()),
        "Warning: Variable i used before initialisation");
}

#[test]
fn line_numbers_from_byte_offsets() {
    // one more than the newline bytes before the offset
    let source = "ab\ncd\nef";
    assert_eq!(find_line_number(source, 0), Some(1));
    assert_eq!(find_line_number(source, 2), Some(1));
    assert_eq!(find_line_number(source, 3), Some(2));
    assert_eq!(find_line_number(source, 4), Some(2));
    assert_eq!(find_line_number(source, 8), Some(3));
    assert_eq!(find_line_number(source, 9), None);
    assert_eq!(find_line_number(source, 100), None);
}

#[test]
fn line_numbers_count_newline_bytes_only() {
    // a carriage return is an ordinary byte; only newlines advance the
    // line number
    let source = "ab\r\ncd";
    assert_eq!(find_line_number(source, 3), Some(1));
    assert_eq!(find_line_number(source, 4), Some(2));
    assert_eq!(find_line_number(source, 6), Some(2));
}

#[test]
fn index_error_in_procedure_carries_index_offset() {
    // inside p, x[u] with u undeclared: the error points at the index
    // occurrence's own source position, not the array's
    let procedure: Procedure = (
        (
            ("p".to_string(), 0),
            vec![ArgumentsDeclarationVariant::Table(("x".to_string(), 0))],
        ),
        None,
        vec![Command::Write(Value::Id(Identifier::PidIndexed(
            ("x".to_string(), 3),
            ("u".to_string(), 7),
        )))],
    );
    let program: Program = (
        Some(vec![procedure]),
        (
            Some(vec![DeclarationVariant::NumIndexed(("t".to_string(), 0), 2)]),
            vec![Command::ProcCall((("p".to_string(), 9), vec![("t".to_string(), 9)]))],
        ),
    );
    let e = construct_err(program);
    assert!(matches!(e, CompilerError::UndeclaredVariable(ref n, 7) if n == "u@p"));
}

#[test]
fn error_messages_name_the_variable_or_the_kind() {
    let e = CompilerError::UndeclaredVariable("x@p".to_string(), 7);
    assert_eq!(error_message(&e, 3), "ERROR: `x` line: 3");
    let e = CompilerError::RecursiveProcedureCall("p".to_string(), 5);
    assert_eq!(error_message(&e, 2), "ERROR: RecursiveProcedureCall(\"p\", 5) line: 2");
}
