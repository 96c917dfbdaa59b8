use lox_bytecode::compiler::Chunk;
use lox_bytecode::lox_type::LoxType;
use lox_bytecode::syntax::{BinaryOp, Expr, Statement};
use lox_bytecode::vm::{interpret, Vm, VmError};

fn num(x: f64) -> LoxType {
    LoxType::Number(x.to_bits())
}

fn lit(x: f64) -> Expr {
    Expr::Literal(num(x))
}

#[test]
fn invalid_opcode_is_reported() {
    assert_eq!(interpret(vec![99], vec![]).unwrap_err(), VmError::InvalidOpcode);
}

#[test]
fn missing_operand_is_unexpected_end() {
    assert_eq!(interpret(vec![1], vec![]).unwrap_err(), VmError::UnexpectedEnd);
}

#[test]
fn constant_index_outside_pool_is_unexpected_end() {
    assert_eq!(
        interpret(vec![1, 5], vec![num(1.0)]).unwrap_err(),
        VmError::UnexpectedEnd
    );
}

#[test]
fn return_halts_normally() {
    let r = interpret(vec![0], vec![]).unwrap();
    assert!(r.is_empty());
}

#[test]
fn return_halts_before_later_errors() {
    // The invalid byte after the return is never dispatched.
    let r = interpret(vec![0, 99], vec![]).unwrap();
    assert!(r.is_empty());
}

#[test]
fn assignment_to_undeclared_name_is_unresolved() {
    // Assign name index 0, value Constant 1; no Var ever ran.
    let pool = vec![LoxType::Text("x".to_string()), num(1.0)];
    assert_eq!(
        interpret(vec![16, 0, 1, 1], pool).unwrap_err(),
        VmError::UnresolvedVariable
    );
}

#[test]
fn read_of_undeclared_name_is_unresolved() {
    assert_eq!(interpret(vec![18, 0], vec![]).unwrap_err(), VmError::UnresolvedVariable);
}

#[test]
fn declare_then_assign_updates_the_slot() {
    // Var 0; Assign 0 <- Constant 0.
    let pool = vec![num(7.0)];
    let stack = interpret(vec![15, 0, 16, 0, 1, 0], pool).unwrap();
    assert_eq!(stack.len(), 1);
    assert_eq!(stack[0].idx, 0);
    match &stack[0].v {
        LoxType::Number(b) => assert_eq!(*b, (7.0f64).to_bits()),
        _ => panic!("expected a number"),
    }
}

#[test]
fn declared_slot_starts_absent() {
    let stack = interpret(vec![15, 3], vec![]).unwrap();
    assert_eq!(stack.len(), 1);
    assert_eq!(stack[0].idx, 3);
    assert!(matches!(stack[0].v, LoxType::Absence));
}

#[test]
fn pop_removes_trailing_slots() {
    let stack = interpret(vec![15, 0, 15, 1, 17, 1], vec![]).unwrap();
    assert_eq!(stack.len(), 1);
    assert_eq!(stack[0].idx, 0);
}

#[test]
fn pop_count_beyond_stack_is_reported() {
    assert_eq!(interpret(vec![17, 1], vec![]).unwrap_err(), VmError::UnexpectedEnd);
}

#[test]
fn back_jump_out_of_the_buffer_is_reported() {
    // JumpBackIfTrue with a true condition and a delta past the start.
    let pool = vec![num(1.0)];
    assert_eq!(
        interpret(vec![19, 1, 0, 200], pool).unwrap_err(),
        VmError::UnexpectedEnd
    );
}

#[test]
fn arithmetic_expression_evaluates_recursively() {
    // 1 + 2 * 3 as a bare expression statement.
    let e = Expr::Binary(
        Box::new(lit(1.0)),
        BinaryOp::Plus,
        Box::new(Expr::Binary(Box::new(lit(2.0)), BinaryOp::Star, Box::new(lit(3.0)))),
    );
    let mut c = Chunk::new();
    c.compile_to_ops(&vec![Statement::Expression(e)]);
    let mut vm = Vm::new(c.encode_ops(), c.constants);
    match vm.do_op().unwrap() {
        LoxType::Number(b) => assert_eq!(b, (7.0f64).to_bits()),
        _ => panic!("expected a number"),
    }
}

#[test]
fn subtraction_and_division_through_the_machine() {
    // (10 - 4) / 3 == 2.
    let e = Expr::Binary(
        Box::new(Expr::Binary(Box::new(lit(10.0)), BinaryOp::Minus, Box::new(lit(4.0)))),
        BinaryOp::Slash,
        Box::new(lit(3.0)),
    );
    let mut c = Chunk::new();
    c.compile_to_ops(&vec![Statement::Expression(e)]);
    let mut vm = Vm::new(c.encode_ops(), c.constants);
    match vm.do_op().unwrap() {
        LoxType::Number(b) => assert_eq!(b, (2.0f64).to_bits()),
        _ => panic!("expected a number"),
    }
}

#[test]
fn negate_opcode_applies_truthiness_negation() {
    // Negate (Constant 0) on a number.
    let pool = vec![num(2.0)];
    let mut vm = Vm::new(vec![7, 1, 0], pool);
    match vm.do_op().unwrap() {
        LoxType::Number(b) => assert_eq!(b, (-2.0f64).to_bits()),
        _ => panic!("expected a number"),
    }
}

#[test]
fn comparison_opcodes_yield_booleans() {
    // Lesser (Constant 0) (Constant 1) with pool [1.0, 2.0].
    let pool = vec![num(1.0), num(2.0)];
    let mut vm = Vm::new(vec![13, 1, 0, 1, 1], pool);
    assert!(matches!(vm.do_op().unwrap(), LoxType::Boolean(true)));
}

#[test]
fn equality_opcode_compares_values() {
    let pool = vec![num(1.0), num(1.0)];
    let mut vm = Vm::new(vec![10, 1, 0, 1, 1], pool);
    assert!(matches!(vm.do_op().unwrap(), LoxType::Boolean(true)));
}

#[test]
fn and_or_opcodes_combine_truthiness() {
    let pool = vec![LoxType::Boolean(true), LoxType::Absence];
    let mut vm = Vm::new(vec![8, 1, 0, 1, 1], pool.clone());
    assert!(matches!(vm.do_op().unwrap(), LoxType::Boolean(false)));
    let mut vm = Vm::new(vec![9, 1, 0, 1, 1], pool);
    assert!(matches!(vm.do_op().unwrap(), LoxType::Boolean(true)));
}

#[test]
fn long_constant_reads_two_operand_bytes() {
    let mut pool = Vec::new();
    for i in 0..=256 {
        pool.push(num(i as f64));
    }
    // LongConstant with index 256 encoded little-endian as 0, 1.
    let mut vm = Vm::new(vec![2, 0, 1], pool);
    match vm.do_op().unwrap() {
        LoxType::Number(b) => assert_eq!(b, (256.0f64).to_bits()),
        _ => panic!("expected a number"),
    }
}

#[test]
fn empty_buffer_halts_with_an_empty_stack() {
    let stack = interpret(vec![], vec![]).unwrap();
    assert!(stack.is_empty());
}

#[test]
fn encoder_and_machine_agree_on_the_long_constant_width() {
    // Fill the pool past one byte's reach, then load a fresh constant:
    // the compiler must pick LongConstant, the encoder a two-byte
    // operand, and the machine must read exactly those two bytes back.
    let mut c = Chunk::new();
    for i in 0..256 {
        c.set_const(num(i as f64));
    }
    c.compile_to_ops(&vec![Statement::Expression(lit(9999.0))]);
    let bytes = c.encode_ops();
    assert_eq!(bytes, vec![2, 0, 1]);
    let mut vm = Vm::new(bytes, c.constants);
    match vm.do_op().unwrap() {
        LoxType::Number(b) => assert_eq!(b, (9999.0f64).to_bits()),
        _ => panic!("expected a number"),
    }
}

#[test]
fn operand_sub_expression_must_advance_the_cursor() {
    // Add whose first operand is a taken back-jump landing on the Add
    // itself: the operand fails to advance the cursor, which is
    // reported rather than re-consumed.
    let pool = vec![num(1.0)];
    let mut vm = Vm::new(vec![0, 0, 0, 0, 3, 19, 1, 0, 5], pool);
    vm.idx = 4;
    assert_eq!(vm.do_op().unwrap_err(), VmError::UnexpectedEnd);
}
