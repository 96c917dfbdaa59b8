use lox_bytecode::compiler::Chunk;
use lox_bytecode::emoji::{decode_ops, encode_ops};
use lox_bytecode::lox_type::LoxType;
use lox_bytecode::syntax::{Expr, LogicalOp, Statement};

fn num(x: f64) -> LoxType {
    LoxType::Number(x.to_bits())
}

#[test]
fn round_trip_on_sample_bytes() {
    let bytes: Vec<u8> = vec![0, 1, 2, 3, 15, 22, 23, 24, 42, 100, 200, 255];
    assert_eq!(decode_ops(encode_ops(&bytes)), bytes);
}

#[test]
fn round_trip_on_every_byte_value() {
    let bytes: Vec<u8> = (0..=255).collect();
    assert_eq!(decode_ops(encode_ops(&bytes)), bytes);
}

#[test]
fn round_trip_on_compiled_program() {
    let mut c = Chunk::new();
    let sts = vec![
        Statement::Variable("n".to_string(), Some(Expr::Literal(num(0.0)))),
        Statement::While(
            Expr::Logical(
                Box::new(Expr::Variable("n".to_string())),
                LogicalOp::Less,
                Box::new(Expr::Literal(num(5.0))),
            ),
            Box::new(Statement::Block(vec![Statement::Expression(Expr::Assign(
                "n".to_string(),
                Box::new(Expr::Literal(num(1.0))),
            ))])),
        ),
    ];
    c.compile_to_ops(&sts);
    let bytes = c.encode_ops();
    assert_eq!(decode_ops(encode_ops(&bytes)), bytes);
}

#[test]
fn opcode_bytes_map_to_distinct_symbols() {
    let bytes: Vec<u8> = (0..24).collect();
    let text = encode_ops(&bytes);
    let mut seen: Vec<char> = Vec::new();
    for c in text.chars() {
        assert!(!seen.contains(&c));
        assert!((c as u32) > 127);
        seen.push(c);
    }
    assert_eq!(seen.len(), 24);
}

#[test]
fn return_opcode_maps_to_its_symbol() {
    let text = encode_ops(&vec![0]);
    let c = text.chars().next().unwrap();
    assert_eq!(c as u32, 0x1F51A);
}

#[test]
fn plain_bytes_map_to_their_code_points() {
    let text = encode_ops(&vec![65, 66, 67]);
    assert_eq!(text, "ABC");
}

#[test]
fn decoding_plain_text_gives_code_points() {
    assert_eq!(decode_ops("ABC".to_string()), vec![65, 66, 67]);
}

#[test]
fn decoding_unknown_character_truncates_its_code_point() {
    // U+0141 truncates to 0x41.
    assert_eq!(decode_ops("\u{141}".to_string()), vec![0x41]);
}
