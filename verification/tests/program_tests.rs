use lox_bytecode::compiler::Chunk;
use lox_bytecode::emoji::{decode_ops, encode_ops};
use lox_bytecode::lox_type::LoxType;
use lox_bytecode::syntax::{BinaryOp, Expr, LogicalOp, Statement};
use lox_bytecode::vm::interpret;

fn num(x: f64) -> LoxType {
    LoxType::Number(x.to_bits())
}

fn lit(x: f64) -> Expr {
    Expr::Literal(num(x))
}

fn var(name: &str) -> Expr {
    Expr::Variable(name.to_string())
}

// var n = 0; while (n < 5) { n = n + 1; }
fn counting_program() -> Vec<Statement> {
    vec![
        Statement::Variable("n".to_string(), Some(lit(0.0))),
        Statement::While(
            Expr::Logical(Box::new(var("n")), LogicalOp::Less, Box::new(lit(5.0))),
            Box::new(Statement::Block(vec![Statement::Expression(Expr::Assign(
                "n".to_string(),
                Box::new(Expr::Binary(
                    Box::new(var("n")),
                    BinaryOp::Plus,
                    Box::new(lit(1.0)),
                )),
            ))])),
        ),
    ]
}

#[test]
fn while_loop_counts_to_five() {
    let mut c = Chunk::new();
    c.compile_to_ops(&counting_program());
    let name_idx = c
        .constants
        .iter()
        .position(|v| matches!(v, LoxType::Text(s) if s == "n"))
        .unwrap();
    let stack = interpret(c.encode_ops(), c.constants).unwrap();
    assert_eq!(stack.len(), 1);
    assert_eq!(stack[0].idx as usize, name_idx);
    match &stack[0].v {
        LoxType::Number(b) => assert_eq!(*b, (5.0f64).to_bits()),
        _ => panic!("expected a number"),
    }
}

#[test]
fn while_program_survives_the_printable_round_trip() {
    let mut c = Chunk::new();
    c.compile_to_ops(&counting_program());
    let bytes = c.encode_ops();
    let text = encode_ops(&bytes);
    assert_eq!(decode_ops(text), bytes);
}

#[test]
fn block_pops_its_declarations() {
    // { var a = 1; var b = 2; }
    let mut c = Chunk::new();
    let sts = vec![Statement::Block(vec![
        Statement::Variable("a".to_string(), Some(lit(1.0))),
        Statement::Variable("b".to_string(), Some(lit(2.0))),
    ])];
    c.compile_to_ops(&sts);
    let stack = interpret(c.encode_ops(), c.constants).unwrap();
    assert!(stack.is_empty());
}

#[test]
fn taken_then_branch_falls_through_into_else() {
    // With no jump over the else branch, a true condition runs the then
    // branch and then the else branch as well.
    let mut c = Chunk::new();
    let sts = vec![Statement::If(
        Expr::Literal(LoxType::Boolean(true)),
        Box::new(Statement::Variable("a".to_string(), Some(lit(1.0)))),
        Some(Box::new(Statement::Variable("b".to_string(), Some(lit(2.0))))),
    )];
    c.compile_to_ops(&sts);
    let stack = interpret(c.encode_ops(), c.constants).unwrap();
    assert_eq!(stack.len(), 2);
}

#[test]
fn false_condition_overshoots_the_else_start() {
    // The forward delta spans condition plus then-branch, but the
    // condition's bytes are consumed before the delta is applied, so a
    // false condition lands condition-length past the else branch's
    // start: here past the else's `Var`, straight onto its assignment,
    // which then finds no slot.
    let mut c = Chunk::new();
    let sts = vec![Statement::If(
        Expr::Literal(LoxType::Boolean(false)),
        Box::new(Statement::Variable("a".to_string(), Some(lit(1.0)))),
        Some(Box::new(Statement::Variable("b".to_string(), Some(lit(2.0))))),
    )];
    c.compile_to_ops(&sts);
    assert_eq!(
        interpret(c.encode_ops(), c.constants).unwrap_err(),
        lox_bytecode::vm::VmError::UnresolvedVariable
    );
}

#[test]
fn false_condition_lands_condition_length_past_the_then_branch() {
    // With expression statements on both branches the overshoot is
    // visible directly: the two-byte condition makes the jump land two
    // bytes past the else start, here exactly at the buffer's end.
    let mut c = Chunk::new();
    let sts = vec![Statement::If(
        Expr::Literal(LoxType::Boolean(false)),
        Box::new(Statement::Expression(lit(1.0))),
        Some(Box::new(Statement::Expression(lit(2.0)))),
    )];
    c.compile_to_ops(&sts);
    let bytes = c.encode_ops();
    assert_eq!(bytes.len(), 8);
    let stack = interpret(bytes, c.constants).unwrap();
    assert!(stack.is_empty());
}

#[test]
fn text_variables_run_through_the_machine() {
    // var s = "ab"; s = s + "cd";
    let mut c = Chunk::new();
    let sts = vec![
        Statement::Variable(
            "s".to_string(),
            Some(Expr::Literal(LoxType::Text("ab".to_string()))),
        ),
        Statement::Expression(Expr::Assign(
            "s".to_string(),
            Box::new(Expr::Binary(
                Box::new(var("s")),
                BinaryOp::Plus,
                Box::new(Expr::Literal(LoxType::Text("cd".to_string()))),
            )),
        )),
    ];
    c.compile_to_ops(&sts);
    let stack = interpret(c.encode_ops(), c.constants).unwrap();
    assert_eq!(stack.len(), 1);
    match &stack[0].v {
        LoxType::Text(s) => assert_eq!(s, "abcd"),
        _ => panic!("expected text"),
    }
}
