//! The instruction set, its byte encoding, and the compiler that lowers
//! a statement tree into an instruction sequence plus a deduplicated
//! constant pool.

use vstd::prelude::*;
use vstd::arithmetic::div_mod::lemma_fundamental_div_mod;
use crate::lox_type::{LoxType, LoxVal, lox_eq_val};
use crate::syntax::{BinaryOp, LogicalOp, Expr, Statement};

verus! {

/// One element of an instruction sequence: either an opcode, or a
/// standalone operand value that trails the opcode consuming it.
#[derive(Clone, Copy, Debug, PartialEq, Eq)]
pub enum Operation {
    Return,
    Constant,
    LongConstant,
    Add,
    Subtract,
    Multiply,
    Divide,
    Negate,
    And,
    Or,
    Equals,
    Greater,
    GreaterEqual,
    Lesser,
    LesserEqual,
    Var,
    Assign,
    Pop,
    Get,
    JumpBackIfTrue,
    JumpBackIfFalse,
    JumpIfTrue,
    JumpIfFalse,
    NotEquals,
    Operand(u64),
}

/// The fixed byte value of each opcode.
pub open spec fn opcode_byte(op: Operation) -> u8 {
    match op {
        Operation::Return => 0,
        Operation::Constant => 1,
        Operation::LongConstant => 2,
        Operation::Add => 3,
        Operation::Subtract => 4,
        Operation::Multiply => 5,
        Operation::Divide => 6,
        Operation::Negate => 7,
        Operation::And => 8,
        Operation::Or => 9,
        Operation::Equals => 10,
        Operation::Greater => 11,
        Operation::GreaterEqual => 12,
        Operation::Lesser => 13,
        Operation::LesserEqual => 14,
        Operation::Var => 15,
        Operation::Assign => 16,
        Operation::Pop => 17,
        Operation::Get => 18,
        Operation::JumpBackIfTrue => 19,
        Operation::JumpBackIfFalse => 20,
        Operation::JumpIfTrue => 21,
        Operation::JumpIfFalse => 22,
        Operation::NotEquals => 23,
        Operation::Operand(_) => 0,
    }
}

/// The byte width chosen for an operand value: the least of 1, 2, 4 or 8
/// bytes whose maximum unsigned value strictly exceeds the magnitude.
pub open spec fn operand_width(a: u64) -> nat {
    if a < 255 {
        1
    } else if a < 65535 {
        2
    } else if a < 4294967295 {
        4
    } else {
        8
    }
}

/// The `w` low-order bytes of `a`, least significant first.
pub open spec fn spec_le_bytes(a: u64, w: nat) -> Seq<u8>
    decreases w,
{
    if w == 0 {
        Seq::empty()
    } else {
        seq![(a % 256) as u8] + spec_le_bytes(a / 256, (w - 1) as nat)
    }
}

/// The unsigned integer a little-endian byte sequence denotes.
pub open spec fn spec_le_value(s: Seq<u8>) -> int
    decreases s.len(),
{
    if s.len() == 0 {
        0
    } else {
        s[0] + 256 * spec_le_value(s.skip(1))
    }
}

/// 256 raised to `w`.
pub open spec fn pow256(w: nat) -> int
    decreases w,
{
    if w == 0 {
        1
    } else {
        256 * pow256((w - 1) as nat)
    }
}

/// The bytes an instruction-sequence element encodes to: one fixed byte
/// for an opcode, the width-selected little-endian bytes for an operand.
pub open spec fn spec_op_bytes(op: Operation) -> Seq<u8> {
    match op {
        Operation::Operand(a) => spec_le_bytes(a, operand_width(a)),
        _ => seq![opcode_byte(op)],
    }
}

/// A little-endian encoding of `w` bytes denotes the encoded value,
/// provided the value fits in `w` bytes.
pub proof fn lemma_le_bytes_value(a: u64, w: nat)
    requires
        a < pow256(w),
    ensures
        spec_le_value(spec_le_bytes(a, w)) == a,
    decreases w,
{
    if w == 0 {
    } else {
        let q = a / 256;
        let bytes = spec_le_bytes(a, w);
        assert(q < pow256((w - 1) as nat)) by {
            lemma_fundamental_div_mod(a as int, 256);
            assert(pow256(w) == 256 * pow256((w - 1) as nat));
        };
        lemma_le_bytes_value(q, (w - 1) as nat);
        assert(bytes.skip(1) =~= spec_le_bytes(q, (w - 1) as nat));
        assert(spec_le_value(bytes) == a % 256 + 256 * ((a as int) / 256));
        lemma_fundamental_div_mod(a as int, 256);
    }
}

/// Operand width round-trip: the encoder picks a width that the value
/// fits in, and decoding the emitted bytes reproduces the value.
pub proof fn lemma_operand_round_trip(a: u64)
    ensures
        spec_op_bytes(Operation::Operand(a)).len() == operand_width(a),
        spec_le_value(spec_op_bytes(Operation::Operand(a))) == a,
{
    let w = operand_width(a);
    assert(spec_le_bytes(a, w).len() == w) by {
        lemma_le_bytes_len(a, w);
    };
    lemma_pow256_values();
    lemma_le_bytes_value(a, w);
}

/// The powers of 256 at the four operand widths.
proof fn lemma_pow256_values()
    ensures
        pow256(1) == 0x100,
        pow256(2) == 0x10000,
        pow256(4) == 0x100000000,
        pow256(8) == 0x10000000000000000,
{
    assert(pow256(0) == 1);
    assert(pow256(1) == 0x100);
    assert(pow256(2) == 0x10000);
    assert(pow256(3) == 0x1000000);
    assert(pow256(4) == 0x100000000);
    assert(pow256(5) == 0x10000000000);
    assert(pow256(6) == 0x1000000000000);
    assert(pow256(7) == 0x100000000000000);
    assert(pow256(8) == 0x10000000000000000);
}

/// The little-endian encoding of `w` bytes has length `w`.
pub proof fn lemma_le_bytes_len(a: u64, w: nat)
    ensures
        spec_le_bytes(a, w).len() == w,
    decreases w,
{
    if w > 0 {
        lemma_le_bytes_len(a / 256, (w - 1) as nat);
    }
}

/// Appends the `w` low-order bytes of `a` to `bytes`, least significant
/// first.
fn push_le_bytes(bytes: &mut Vec<u8>, a: u64, w: usize)
    ensures
        final(bytes)@ == old(bytes)@ + spec_le_bytes(a, w as nat),
{
    let mut cur: u64 = a;
    let mut j: usize = 0;
    proof {
        assert(bytes@ + spec_le_bytes(cur, (w - j) as nat) =~= old(bytes)@ + spec_le_bytes(
            a,
            w as nat,
        ));
    }
    while j < w
        invariant
            j <= w,
            bytes@ + spec_le_bytes(cur, (w - j) as nat) == old(bytes)@ + spec_le_bytes(
                a,
                w as nat,
            ),
        decreases w - j,
    {
        proof {
            assert(spec_le_bytes(cur, (w - j) as nat) == seq![(cur % 256) as u8]
                + spec_le_bytes(cur / 256, (w - j - 1) as nat));
        }
        bytes.push((cur % 256) as u8);
        proof {
            assert(bytes@ + spec_le_bytes(cur / 256, (w - j - 1) as nat) =~= old(bytes)@
                + spec_le_bytes(a, w as nat));
        }
        cur = cur / 256;
        j = j + 1;
    }
    proof {
        assert(final(bytes)@ =~= old(bytes)@ + spec_le_bytes(a, w as nat));
    }
}

impl Operation {
    /// The byte encoding of this element, per `spec_op_bytes`.
    pub fn to_bytes(&self) -> (r: Vec<u8>)
        ensures
            r@ == spec_op_bytes(*self),
    {
        let mut bytes: Vec<u8> = Vec::new();
        match self {
            Operation::Return => bytes.push(0),
            Operation::Constant => bytes.push(1),
            Operation::LongConstant => bytes.push(2),
            Operation::Add => bytes.push(3),
            Operation::Subtract => bytes.push(4),
            Operation::Multiply => bytes.push(5),
            Operation::Divide => bytes.push(6),
            Operation::Negate => bytes.push(7),
            Operation::And => bytes.push(8),
            Operation::Or => bytes.push(9),
            Operation::Equals => bytes.push(10),
            Operation::Greater => bytes.push(11),
            Operation::GreaterEqual => bytes.push(12),
            Operation::Lesser => bytes.push(13),
            Operation::LesserEqual => bytes.push(14),
            Operation::Var => bytes.push(15),
            Operation::Assign => bytes.push(16),
            Operation::Pop => bytes.push(17),
            Operation::Get => bytes.push(18),
            Operation::JumpBackIfTrue => bytes.push(19),
            Operation::JumpBackIfFalse => bytes.push(20),
            Operation::JumpIfTrue => bytes.push(21),
            Operation::JumpIfFalse => bytes.push(22),
            Operation::NotEquals => bytes.push(23),
            Operation::Operand(a) => {
                if *a < 255 {
                    push_le_bytes(&mut bytes, *a, 1);
                } else if *a < 65535 {
                    push_le_bytes(&mut bytes, *a, 2);
                } else if *a < 4294967295 {
                    push_le_bytes(&mut bytes, *a, 4);
                } else {
                    push_le_bytes(&mut bytes, *a, 8);
                }
            },
        }
        proof {
            assert(bytes@ =~= spec_op_bytes(*self));
        }
        bytes
    }
}

/// The first index whose pool entry is value-equal to `v`, or the pool's
/// length when no entry is.
pub open spec fn pool_find(pool: Seq<LoxType>, v: LoxVal) -> int
    decreases pool.len(),
{
    if pool.len() == 0 {
        0
    } else if lox_eq_val(pool[0]@, v) {
        0
    } else {
        1 + pool_find(pool.skip(1), v)
    }
}

/// Some pool entry is value-equal to `v`.
pub open spec fn pool_contains(pool: Seq<LoxType>, v: LoxVal) -> bool {
    exists|i: int| 0 <= i < pool.len() && lox_eq_val(pool[i]@, v)
}

/// `pool_find` names the first value-equal index: below it nothing
/// matches, and it matches itself when in range.
pub proof fn lemma_pool_find(pool: Seq<LoxType>, v: LoxVal)
    ensures
        0 <= pool_find(pool, v) <= pool.len(),
        pool_find(pool, v) < pool.len() ==> lox_eq_val(pool[pool_find(pool, v)]@, v),
        forall|j: int| 0 <= j < pool_find(pool, v) ==> !lox_eq_val(pool[j]@, v),
        (pool_find(pool, v) < pool.len()) == pool_contains(pool, v),
    decreases pool.len(),
{
    if pool.len() == 0 {
    } else if lox_eq_val(pool[0]@, v) {
    } else {
        lemma_pool_find(pool.skip(1), v);
        assert forall|j: int| 0 <= j < pool_find(pool, v) implies !lox_eq_val(pool[j]@, v) by {
            if j > 0 {
                assert(pool.skip(1)[j - 1] == pool[j]);
            }
        };
        if pool_find(pool, v) < pool.len() {
            assert(pool.skip(1)[pool_find(pool, v) - 1] == pool[pool_find(pool, v)]);
        }
        if pool_contains(pool, v) {
            let i = choose|i: int| 0 <= i < pool.len() && lox_eq_val(pool[i]@, v);
            assert(pool.skip(1)[i - 1] == pool[i]);
            assert(pool_contains(pool.skip(1), v));
        }
        if pool_contains(pool.skip(1), v) {
            let i = choose|i: int| 0 <= i < pool.skip(1).len() && lox_eq_val(pool.skip(1)[i]@, v);
            assert(pool.skip(1)[i] == pool[i + 1]);
        }
    }
}

/// The index `set_const` returns for `v` against `pool`.
pub open spec fn spec_set_const_idx(pool: Seq<LoxType>, v: LoxType) -> int {
    if pool_find(pool, v@) < pool.len() {
        pool_find(pool, v@)
    } else {
        pool.len() as int
    }
}

/// The pool `set_const` leaves behind: unchanged on a hit, extended by
/// `v` on a miss.
pub open spec fn spec_set_const_pool(pool: Seq<LoxType>, v: LoxType) -> Seq<LoxType> {
    if pool_find(pool, v@) < pool.len() {
        pool
    } else {
        pool.push(v)
    }
}

/// Constant-pool deduplication: interning a self-equal value twice over
/// yields the same index both times and leaves the second pool as the
/// first, which on a miss is exactly one entry longer.
pub proof fn lemma_set_const_dedup(pool: Seq<LoxType>, v: LoxType)
    requires
        lox_eq_val(v@, v@),
    ensures
        spec_set_const_idx(spec_set_const_pool(pool, v), v) == spec_set_const_idx(pool, v),
        spec_set_const_pool(spec_set_const_pool(pool, v), v) == spec_set_const_pool(pool, v),
        !pool_contains(pool, v@) ==> spec_set_const_pool(pool, v).len() == pool.len() + 1,
{
    lemma_pool_find(pool, v@);
    let p1 = spec_set_const_pool(pool, v);
    lemma_pool_find(p1, v@);
    if pool_find(pool, v@) < pool.len() {
    } else {
        assert(p1[pool.len() as int]@ == v@);
        assert(pool_contains(p1, v@));
        assert forall|j: int| 0 <= j < pool.len() implies !lox_eq_val(p1[j]@, v@) by {
            assert(p1[j] == pool[j]);
        };
        assert(pool_find(p1, v@) == pool.len());
    }
}

/// The compiler's state: the instruction sequence and constant pool
/// built so far, the count of block-local declarations pending a `Pop`,
/// and the current block nesting depth.
#[derive(Debug)]
pub struct Chunk {
    pub ops: Vec<Operation>,
    pub constants: Vec<LoxType>,
    pub var_count: u8,
    pub curr_depth: u8,
}

impl Chunk {
    /// An empty compiler state.
    pub fn new() -> (r: Chunk)
        ensures
            r.ops@ == Seq::<Operation>::empty(),
            r.constants@ == Seq::<LoxType>::empty(),
            r.var_count == 0,
            r.curr_depth == 0,
    {
        Chunk { ops: Vec::new(), constants: Vec::new(), var_count: 0, curr_depth: 0 }
    }

    /// The first pool index value-equal to `v`, if any.
    fn find_const(&self, v: &LoxType) -> (r: Option<usize>)
        ensures
            match r {
                Some(i) => i == pool_find(self.constants@, v@) && i < self.constants@.len(),
                None => pool_find(self.constants@, v@) >= self.constants@.len(),
            },
    {
        proof {
            lemma_pool_find(self.constants@, v@);
        }
        let n = self.constants.len();
        let mut i: usize = 0;
        while i < n
            invariant
                i <= n,
                n == self.constants@.len(),
                forall|j: int| 0 <= j < i ==> !lox_eq_val(self.constants@[j]@, v@),
            decreases n - i,
        {
            if self.constants[i].lox_eq(v) {
                proof {
                    lemma_pool_find_at(self.constants@, v@, i as int);
                }
                return Some(i);
            }
            i = i + 1;
        }
        proof {
            if pool_find(self.constants@, v@) < self.constants@.len() {
                lemma_pool_find(self.constants@, v@);
            }
        }
        None
    }

    /// Interns `v`: returns the index of an existing value-equal entry,
    /// or appends `v` and returns its new index.
    pub fn set_const(&mut self, v: LoxType) -> (idx: usize)
        ensures
            idx == spec_set_const_idx(old(self).constants@, v),
            final(self).constants@ == spec_set_const_pool(old(self).constants@, v),
            final(self).ops == old(self).ops,
            final(self).var_count == old(self).var_count,
            final(self).curr_depth == old(self).curr_depth,
    {
        match self.find_const(&v) {
            Some(i) => i,
            None => {
                let idx = self.constants.len();
                self.constants.push(v);
                idx
            },
        }
    }

    /// Interns `v` and emits its load: `Constant` for a pool index below
    /// 256, `LongConstant` otherwise, followed by the index operand.
    pub fn op_const(&mut self, v: LoxType) -> (ops: Vec<Operation>)
        ensures
            ops@ == spec_op_const_ops(old(self).constants@, v),
            final(self).constants@ == spec_set_const_pool(old(self).constants@, v),
            final(self).ops == old(self).ops,
            final(self).var_count == old(self).var_count,
            final(self).curr_depth == old(self).curr_depth,
    {
        let mut ops: Vec<Operation> = Vec::new();
        let idx = self.set_const(v);
        if idx < 256 {
            ops.push(Operation::Constant);
        } else {
            ops.push(Operation::LongConstant);
        }
        ops.push(Operation::Operand(idx as u64));
        proof {
            assert(ops@ =~= spec_op_const_ops(old(self).constants@, v));
        }
        ops
    }
}

/// The two elements `op_const` emits for `v` against `pool`.
pub open spec fn spec_op_const_ops(pool: Seq<LoxType>, v: LoxType) -> Seq<Operation> {
    let i = spec_set_const_idx(pool, v);
    seq![
        if i < 256 {
            Operation::Constant
        } else {
            Operation::LongConstant
        },
        Operation::Operand(i as u64),
    ]
}

/// The elements and pool that lowering expression `e` against `pool`
/// produces: operator before operands, literals interned through the
/// pool, reads and writes of a name emitted only when the name is
/// already interned and otherwise dropped.
pub open spec fn spec_encode_expr(e: Expr, pool: Seq<LoxType>) -> (Seq<Operation>, Seq<LoxType>)
    decreases e,
{
    match e {
        Expr::Literal(v) => (spec_op_const_ops(pool, v), spec_set_const_pool(pool, v)),
        Expr::Grouping(ex) => spec_encode_expr(*ex, pool),
        Expr::Unary(ex) => {
            let (ops, p) = spec_encode_expr(*ex, pool);
            (seq![Operation::Negate] + ops, p)
        },
        Expr::Binary(one, op, two) => {
            let head = match op {
                BinaryOp::Plus => Operation::Add,
                BinaryOp::Minus => Operation::Subtract,
                BinaryOp::Star => Operation::Multiply,
                BinaryOp::Slash => Operation::Divide,
            };
            let (ops1, p1) = spec_encode_expr(*one, pool);
            let (ops2, p2) = spec_encode_expr(*two, p1);
            (seq![head] + ops1 + ops2, p2)
        },
        Expr::Logical(one, op, two) => {
            let head = match op {
                LogicalOp::And => Operation::And,
                LogicalOp::Or => Operation::Or,
                LogicalOp::EqualEqual => Operation::Equals,
                LogicalOp::BangEqual => Operation::NotEquals,
                LogicalOp::Greater => Operation::Greater,
                LogicalOp::GreaterEqual => Operation::GreaterEqual,
                LogicalOp::Less => Operation::Lesser,
                LogicalOp::LessEqual => Operation::LesserEqual,
            };
            let (ops1, p1) = spec_encode_expr(*one, pool);
            let (ops2, p2) = spec_encode_expr(*two, p1);
            (seq![head] + ops1 + ops2, p2)
        },
        Expr::Variable(name) => {
            let i = pool_find(pool, LoxVal::Text(name@));
            if i < pool.len() {
                (seq![Operation::Get, Operation::Operand(i as u64)], pool)
            } else {
                (Seq::empty(), pool)
            }
        },
        Expr::Assign(name, ex) => {
            let i = pool_find(pool, LoxVal::Text(name@));
            if i < pool.len() {
                let (ops, p) = spec_encode_expr(*ex, pool);
                (seq![Operation::Assign, Operation::Operand(i as u64)] + ops, p)
            } else {
                (Seq::empty(), pool)
            }
        },
    }
}

/// The byte buffer that an instruction sequence encodes to.
pub open spec fn spec_encode_ops(ops: Seq<Operation>) -> Seq<u8>
    decreases ops.len(),
{
    if ops.len() == 0 {
        Seq::empty()
    } else {
        spec_op_bytes(ops[0]) + spec_encode_ops(ops.skip(1))
    }
}

impl Chunk {
    /// Lowers one expression, per `spec_encode_expr`: returns its
    /// elements and interns its literals.
    pub fn encode_expr(&mut self, expr: &Expr) -> (ops: Vec<Operation>)
        ensures
            ops@ == spec_encode_expr(*expr, old(self).constants@).0,
            final(self).constants@ == spec_encode_expr(*expr, old(self).constants@).1,
            final(self).ops == old(self).ops,
            final(self).var_count == old(self).var_count,
            final(self).curr_depth == old(self).curr_depth,
        decreases *expr,
    {
        let mut ops: Vec<Operation> = Vec::new();
        match expr {
            Expr::Literal(v) => {
                let mut sub = self.op_const(v.clone());
                ops.append(&mut sub);
            },
            Expr::Grouping(ex) => {
                let mut sub = self.encode_expr(ex);
                ops.append(&mut sub);
            },
            Expr::Unary(ex) => {
                ops.push(Operation::Negate);
                let mut sub = self.encode_expr(ex);
                ops.append(&mut sub);
            },
            Expr::Binary(one, op, two) => {
                ops.push(
                    match op {
                        BinaryOp::Plus => Operation::Add,
                        BinaryOp::Minus => Operation::Subtract,
                        BinaryOp::Star => Operation::Multiply,
                        BinaryOp::Slash => Operation::Divide,
                    },
                );
                let mut sub1 = self.encode_expr(one);
                ops.append(&mut sub1);
                let mut sub2 = self.encode_expr(two);
                ops.append(&mut sub2);
            },
            Expr::Logical(one, op, two) => {
                ops.push(
                    match op {
                        LogicalOp::And => Operation::And,
                        LogicalOp::Or => Operation::Or,
                        LogicalOp::EqualEqual => Operation::Equals,
                        LogicalOp::BangEqual => Operation::NotEquals,
                        LogicalOp::Greater => Operation::Greater,
                        LogicalOp::GreaterEqual => Operation::GreaterEqual,
                        LogicalOp::Less => Operation::Lesser,
                        LogicalOp::LessEqual => Operation::LesserEqual,
                    },
                );
                let mut sub1 = self.encode_expr(one);
                ops.append(&mut sub1);
                let mut sub2 = self.encode_expr(two);
                ops.append(&mut sub2);
            },
            Expr::Variable(name) => {
                match self.find_const(&LoxType::Text(name.clone())) {
                    Some(i) => {
                        ops.push(Operation::Get);
                        ops.push(Operation::Operand(i as u64));
                    },
                    None => {},
                }
            },
            Expr::Assign(name, ex) => {
                match self.find_const(&LoxType::Text(name.clone())) {
                    Some(i) => {
                        ops.push(Operation::Assign);
                        ops.push(Operation::Operand(i as u64));
                        let mut sub = self.encode_expr(ex);
                        ops.append(&mut sub);
                    },
                    None => {},
                }
            },
        }
        proof {
            assert(ops@ =~= spec_encode_expr(*expr, old(self).constants@).0);
        }
        ops
    }

    /// Serializes the instruction sequence built so far into its byte
    /// buffer, per `spec_encode_ops`.
    pub fn encode_ops(&self) -> (r: Vec<u8>)
        ensures
            r@ == spec_encode_ops(self.ops@),
    {
        let mut bytes: Vec<u8> = Vec::new();
        let n = self.ops.len();
        let mut i: usize = 0;
        proof {
            assert(self.ops@.skip(0) =~= self.ops@);
        }
        while i < n
            invariant
                i <= n,
                n == self.ops@.len(),
                bytes@ + spec_encode_ops(self.ops@.skip(i as int)) == spec_encode_ops(self.ops@),
            decreases n - i,
        {
            proof {
                assert(self.ops@.skip(i as int)[0] == self.ops@[i as int]);
                assert(self.ops@.skip(i as int).skip(1) =~= self.ops@.skip(i + 1));
            }
            let mut b = self.ops[i].to_bytes();
            bytes.append(&mut b);
            i = i + 1;
        }
        proof {
            assert(self.ops@.skip(n as int) =~= Seq::<Operation>::empty());
            assert(bytes@ =~= spec_encode_ops(self.ops@));
        }
        bytes
    }
}

/// What lowering a statement leaves behind: the elements it emits, the
/// pool after its literals and names are interned, and the new count of
/// block-local declarations pending a `Pop`.
pub struct StmtEffect {
    pub ops: Seq<Operation>,
    pub pool: Seq<LoxType>,
    pub vars: int,
}

/// The number of declaration statements anywhere inside `st`: an upper
/// bound on how far the pending-pop counter can climb while `st` is
/// lowered.
pub open spec fn decl_count(st: Statement) -> nat
    decreases st, 0int,
{
    match st {
        Statement::Expression(_) => 0,
        Statement::Variable(_, _) => 1,
        Statement::Block(stmts) => decl_count_list(stmts, 0),
        Statement::If(_, then, els) => decl_count(*then) + (match els {
            Some(e) => decl_count(*e),
            None => 0,
        }),
        Statement::While(_, body) => decl_count(*body),
    }
}

/// The declaration count summed over the statements from index `i` on.
pub open spec fn decl_count_list(stmts: Vec<Statement>, i: int) -> nat
    decreases stmts, stmts@.len() - i,
{
    if i < 0 || i >= stmts@.len() {
        0
    } else {
        decl_count(stmts@[i]) + decl_count_list(stmts, i + 1)
    }
}

/// The larger of two naturals.
pub open spec fn max2(a: nat, b: nat) -> nat {
    if a >= b {
        a
    } else {
        b
    }
}

/// The deepest block nesting inside `st`: an upper bound on how far the
/// depth counter can climb while `st` is lowered.
pub open spec fn block_depth(st: Statement) -> nat
    decreases st, 0int,
{
    match st {
        Statement::Expression(_) => 0,
        Statement::Variable(_, _) => 0,
        Statement::Block(stmts) => 1 + block_depth_list(stmts, 0),
        Statement::If(_, then, els) => max2(
            block_depth(*then),
            match els {
                Some(e) => block_depth(*e),
                None => 0,
            },
        ),
        Statement::While(_, body) => block_depth(*body),
    }
}

/// The deepest block nesting over the statements from index `i` on.
pub open spec fn block_depth_list(stmts: Vec<Statement>, i: int) -> nat
    decreases stmts, stmts@.len() - i,
{
    if i < 0 || i >= stmts@.len() {
        0
    } else {
        max2(block_depth(stmts@[i]), block_depth_list(stmts, i + 1))
    }
}

/// The effect of lowering statement `st` with pool `pool`, pending-pop
/// counter `vars` and block depth `depth`: an expression statement is
/// its expression's lowering; a declaration interns the name, counts
/// itself when inside a block, and emits `Var` plus an optional
/// assignment; a block lowers its statements at the next depth, emits
/// one `Pop` for a nonzero counter and resets the counter to zero; a
/// conditional emits `JumpIfFalse`, the condition, a forward delta that
/// spans condition plus then-branch, the then-branch, and then any else
/// branch with no jump over it; a loop emits its body, then
/// `JumpBackIfTrue`, the condition, and a back delta spanning condition,
/// body and a fixed trailer of two.
pub open spec fn spec_encode_stmt(
    st: Statement,
    pool: Seq<LoxType>,
    vars: int,
    depth: int,
) -> StmtEffect
    decreases st, 0int,
{
    match st {
        Statement::Expression(e) => {
            let (ops, p) = spec_encode_expr(e, pool);
            StmtEffect { ops, pool: p, vars }
        },
        Statement::Variable(name, init) => {
            let idx = spec_set_const_idx(pool, LoxType::Text(name));
            let p1 = spec_set_const_pool(pool, LoxType::Text(name));
            let vars2 = if depth > 0 {
                vars + 1
            } else {
                vars
            };
            match init {
                Some(e) => {
                    let (eops, p2) = spec_encode_expr(e, p1);
                    StmtEffect {
                        ops: seq![
                            Operation::Var,
                            Operation::Operand(idx as u64),
                            Operation::Assign,
                            Operation::Operand(idx as u64),
                        ] + eops,
                        pool: p2,
                        vars: vars2,
                    }
                },
                None => StmtEffect {
                    ops: seq![Operation::Var, Operation::Operand(idx as u64)],
                    pool: p1,
                    vars: vars2,
                },
            }
        },
        Statement::Block(stmts) => {
            let r = spec_encode_list(stmts, 0, pool, vars, depth + 1);
            let ops = if r.vars > 0 {
                r.ops + seq![Operation::Pop, Operation::Operand(r.vars as u64)]
            } else {
                r.ops
            };
            StmtEffect { ops, pool: r.pool, vars: 0 }
        },
        Statement::If(cond, then, els) => {
            let (cops, p1) = spec_encode_expr(cond, pool);
            let t = spec_encode_stmt(*then, p1, vars, depth);
            let head = seq![Operation::JumpIfFalse] + cops + seq![
                Operation::Operand((cops.len() + t.ops.len()) as u64),
            ] + t.ops;
            match els {
                Some(e) => {
                    let el = spec_encode_stmt(*e, t.pool, t.vars, depth);
                    StmtEffect { ops: head + el.ops, pool: el.pool, vars: el.vars }
                },
                None => StmtEffect { ops: head, pool: t.pool, vars: t.vars },
            }
        },
        Statement::While(cond, body) => {
            let (cops, p1) = spec_encode_expr(cond, pool);
            let b = spec_encode_stmt(*body, p1, vars, depth);
            StmtEffect {
                ops: b.ops + seq![Operation::JumpBackIfTrue] + cops + seq![
                    Operation::Operand((cops.len() + b.ops.len() + 2) as u64),
                ],
                pool: b.pool,
                vars: b.vars,
            }
        },
    }
}

/// The combined effect of lowering the statements from index `i` on, in
/// sequence, threading pool and counter through.
pub open spec fn spec_encode_list(
    stmts: Vec<Statement>,
    i: int,
    pool: Seq<LoxType>,
    vars: int,
    depth: int,
) -> StmtEffect
    decreases stmts, stmts@.len() - i,
{
    if i < 0 || i >= stmts@.len() {
        StmtEffect { ops: Seq::empty(), pool, vars }
    } else {
        let s = spec_encode_stmt(stmts@[i], pool, vars, depth);
        let rest = spec_encode_list(stmts, i + 1, s.pool, s.vars, depth);
        StmtEffect { ops: s.ops + rest.ops, pool: rest.pool, vars: rest.vars }
    }
}

/// The pending-pop counter never climbs past its entry value plus the
/// number of declarations in the statement, and never falls below zero.
proof fn lemma_stmt_vars(st: Statement, pool: Seq<LoxType>, vars: int, depth: int)
    requires
        vars >= 0,
    ensures
        0 <= spec_encode_stmt(st, pool, vars, depth).vars <= vars + decl_count(st),
    decreases st, 0int,
{
    match st {
        Statement::Expression(_) => {},
        Statement::Variable(_, _) => {},
        Statement::Block(stmts) => {
            lemma_list_vars(stmts, 0, pool, vars, depth + 1);
        },
        Statement::If(cond, then, els) => {
            let (cops, p1) = spec_encode_expr(cond, pool);
            lemma_stmt_vars(*then, p1, vars, depth);
            match els {
                Some(e) => {
                    let t = spec_encode_stmt(*then, p1, vars, depth);
                    lemma_stmt_vars(*e, t.pool, t.vars, depth);
                },
                None => {},
            }
        },
        Statement::While(cond, body) => {
            let (cops, p1) = spec_encode_expr(cond, pool);
            lemma_stmt_vars(*body, p1, vars, depth);
        },
    }
}

/// As `lemma_stmt_vars`, over a statement list.
proof fn lemma_list_vars(stmts: Vec<Statement>, i: int, pool: Seq<LoxType>, vars: int, depth: int)
    requires
        vars >= 0,
    ensures
        0 <= spec_encode_list(stmts, i, pool, vars, depth).vars <= vars + decl_count_list(
            stmts,
            i,
        ),
    decreases stmts, stmts@.len() - i,
{
    if 0 <= i < stmts@.len() {
        lemma_stmt_vars(stmts@[i], pool, vars, depth);
        let s = spec_encode_stmt(stmts@[i], pool, vars, depth);
        lemma_list_vars(stmts, i + 1, s.pool, s.vars, depth);
    }
}

/// Every statement at or after `i` nests no deeper than the list from
/// `i` on does.
proof fn lemma_block_depth_at(stmts: Vec<Statement>, i: int, j: int)
    requires
        0 <= i <= j < stmts@.len(),
    ensures
        block_depth(stmts@[j]) <= block_depth_list(stmts, i),
    decreases stmts@.len() - i,
{
    if i < j {
        lemma_block_depth_at(stmts, i + 1, j);
    }
}

impl Chunk {
    /// Lowers one statement, per `spec_encode_stmt`. The bounds in
    /// `requires` keep the one-byte pending-pop operand and the depth
    /// counter within their machine limits and the emitted sequence
    /// within addressable length.
    #[verifier::loop_isolation(false)]
    pub fn encode_statement(&mut self, st: &Statement) -> (ops: Vec<Operation>)
        requires
            old(self).var_count + decl_count(*st) <= 255,
            old(self).curr_depth + block_depth(*st) <= 255,
            spec_encode_stmt(
                *st,
                old(self).constants@,
                old(self).var_count as int,
                old(self).curr_depth as int,
            ).ops.len() + 2 <= usize::MAX,
        ensures
            ops@ == spec_encode_stmt(
                *st,
                old(self).constants@,
                old(self).var_count as int,
                old(self).curr_depth as int,
            ).ops,
            final(self).constants@ == spec_encode_stmt(
                *st,
                old(self).constants@,
                old(self).var_count as int,
                old(self).curr_depth as int,
            ).pool,
            final(self).var_count as int == spec_encode_stmt(
                *st,
                old(self).constants@,
                old(self).var_count as int,
                old(self).curr_depth as int,
            ).vars,
            final(self).curr_depth == old(self).curr_depth,
            final(self).ops == old(self).ops,
        decreases *st,
    {
        let ghost pool0 = self.constants@;
        let ghost vars0 = self.var_count as int;
        let ghost depth0 = self.curr_depth as int;
        let ghost goal = spec_encode_stmt(*st, pool0, vars0, depth0);
        let mut ops: Vec<Operation> = Vec::new();
        match st {
            Statement::Expression(e) => {
                let mut sub = self.encode_expr(e);
                ops.append(&mut sub);
            },
            Statement::Variable(name, init) => {
                let name_idx = self.set_const(LoxType::Text(name.clone()));
                if self.curr_depth > 0 {
                    self.var_count = self.var_count + 1;
                }
                ops.push(Operation::Var);
                ops.push(Operation::Operand(name_idx as u64));
                match init {
                    Some(e) => {
                        ops.push(Operation::Assign);
                        ops.push(Operation::Operand(name_idx as u64));
                        let mut sub = self.encode_expr(e);
                        ops.append(&mut sub);
                    },
                    None => {},
                }
            },
            Statement::Block(stmts) => {
                let ghost whole = spec_encode_list(*stmts, 0, pool0, vars0, depth0 + 1);
                self.curr_depth = self.curr_depth + 1;
                let n = stmts.len();
                let mut i: usize = 0;
                while i < n
                    invariant
                        i <= n,
                        n == stmts@.len(),
                        self.curr_depth as int == depth0 + 1,
                        self.curr_depth + block_depth_list(*stmts, i as int) <= 255,
                        self.var_count + decl_count_list(*stmts, i as int) <= 255,
                        self.ops == old(self).ops,
                        whole.ops == ops@ + spec_encode_list(
                            *stmts,
                            i as int,
                            self.constants@,
                            self.var_count as int,
                            depth0 + 1,
                        ).ops,
                        whole.pool == spec_encode_list(
                            *stmts,
                            i as int,
                            self.constants@,
                            self.var_count as int,
                            depth0 + 1,
                        ).pool,
                        whole.vars == spec_encode_list(
                            *stmts,
                            i as int,
                            self.constants@,
                            self.var_count as int,
                            depth0 + 1,
                        ).vars,
                        whole.ops.len() + 2 <= usize::MAX,
                    decreases n - i,
                {
                    proof {
                        lemma_block_depth_at(*stmts, i as int, i as int);
                        lemma_stmt_vars(
                            stmts@[i as int],
                            self.constants@,
                            self.var_count as int,
                            depth0 + 1,
                        );
                        vstd::std_specs::vec::axiom_vec_index_decreases::<Statement>(
                            *stmts,
                            i as int,
                        );
                    }
                    let mut sub = self.encode_statement(&stmts[i]);
                    ops.append(&mut sub);
                    proof {
                        assert(whole.ops =~= ops@ + spec_encode_list(
                            *stmts,
                            i + 1,
                            self.constants@,
                            self.var_count as int,
                            depth0 + 1,
                        ).ops);
                    }
                    i = i + 1;
                }
                if self.var_count > 0 {
                    ops.push(Operation::Pop);
                    ops.push(Operation::Operand(self.var_count as u64));
                }
                self.var_count = 0;
                self.curr_depth = self.curr_depth - 1;
                proof {
                    assert(goal.ops =~= ops@);
                }
            },
            Statement::If(cond, then, els) => {
                let expr_ops = self.encode_expr(cond);
                proof {
                    lemma_stmt_vars(**then, self.constants@, vars0, depth0);
                }
                let mut if_branch_ops = self.encode_statement(then);
                let delta = expr_ops.len() + if_branch_ops.len();
                ops.push(Operation::JumpIfFalse);
                let mut eo = expr_ops;
                ops.append(&mut eo);
                ops.push(Operation::Operand(delta as u64));
                ops.append(&mut if_branch_ops);
                match els {
                    Some(e) => {
                        let mut el = self.encode_statement(e);
                        ops.append(&mut el);
                    },
                    None => {},
                }
            },
            Statement::While(cond, body) => {
                let expr_ops = self.encode_expr(cond);
                proof {
                    lemma_stmt_vars(**body, self.constants@, vars0, depth0);
                }
                let mut block_ops = self.encode_statement(body);
                let delta = expr_ops.len() + block_ops.len() + 2;
                ops.append(&mut block_ops);
                ops.push(Operation::JumpBackIfTrue);
                let mut eo = expr_ops;
                ops.append(&mut eo);
                ops.push(Operation::Operand(delta as u64));
            },
        }
        proof {
            assert(ops@ =~= goal.ops);
        }
        ops
    }

    /// Lowers a statement list in sequence and appends the result to
    /// the instruction sequence built so far, per `spec_encode_list`.
    #[verifier::loop_isolation(false)]
    pub fn compile_to_ops(&mut self, statements: &Vec<Statement>)
        requires
            old(self).var_count + decl_count_list(*statements, 0) <= 255,
            old(self).curr_depth + block_depth_list(*statements, 0) <= 255,
            spec_encode_list(
                *statements,
                0,
                old(self).constants@,
                old(self).var_count as int,
                old(self).curr_depth as int,
            ).ops.len() + 2 <= usize::MAX,
            old(self).ops@.len() + spec_encode_list(
                *statements,
                0,
                old(self).constants@,
                old(self).var_count as int,
                old(self).curr_depth as int,
            ).ops.len() <= usize::MAX,
        ensures
            final(self).ops@ == old(self).ops@ + spec_encode_list(
                *statements,
                0,
                old(self).constants@,
                old(self).var_count as int,
                old(self).curr_depth as int,
            ).ops,
            final(self).constants@ == spec_encode_list(
                *statements,
                0,
                old(self).constants@,
                old(self).var_count as int,
                old(self).curr_depth as int,
            ).pool,
            final(self).var_count as int == spec_encode_list(
                *statements,
                0,
                old(self).constants@,
                old(self).var_count as int,
                old(self).curr_depth as int,
            ).vars,
            final(self).curr_depth == old(self).curr_depth,
    {
        let ghost pool0 = self.constants@;
        let ghost vars0 = self.var_count as int;
        let ghost depth0 = self.curr_depth as int;
        let ghost whole = spec_encode_list(*statements, 0, pool0, vars0, depth0);
        let ghost ops0 = self.ops@;
        let n = statements.len();
        let mut i: usize = 0;
        while i < n
            invariant
                i <= n,
                n == statements@.len(),
                self.curr_depth as int == depth0,
                self.curr_depth + block_depth_list(*statements, i as int) <= 255,
                self.var_count + decl_count_list(*statements, i as int) <= 255,
                ops0 + whole.ops == self.ops@ + spec_encode_list(
                    *statements,
                    i as int,
                    self.constants@,
                    self.var_count as int,
                    depth0,
                ).ops,
                whole.pool == spec_encode_list(
                    *statements,
                    i as int,
                    self.constants@,
                    self.var_count as int,
                    depth0,
                ).pool,
                whole.vars == spec_encode_list(
                    *statements,
                    i as int,
                    self.constants@,
                    self.var_count as int,
                    depth0,
                ).vars,
                whole.ops.len() + 2 <= usize::MAX,
                ops0.len() + whole.ops.len() <= usize::MAX,
                ops0.len() <= self.ops@.len(),
            decreases n - i,
        {
            let ghost rem = spec_encode_list(
                *statements,
                i as int,
                self.constants@,
                self.var_count as int,
                depth0,
            );
            proof {
                lemma_block_depth_at(*statements, i as int, i as int);
                lemma_stmt_vars(
                    statements@[i as int],
                    self.constants@,
                    self.var_count as int,
                    depth0,
                );
                assert(rem.ops.len() <= whole.ops.len());
                assert(rem.ops == spec_encode_stmt(
                    statements@[i as int],
                    self.constants@,
                    self.var_count as int,
                    depth0,
                ).ops + spec_encode_list(
                    *statements,
                    i + 1,
                    spec_encode_stmt(
                        statements@[i as int],
                        self.constants@,
                        self.var_count as int,
                        depth0,
                    ).pool,
                    spec_encode_stmt(
                        statements@[i as int],
                        self.constants@,
                        self.var_count as int,
                        depth0,
                    ).vars,
                    depth0,
                ).ops);
            }
            let mut enc = self.encode_statement(&statements[i]);
            self.ops.append(&mut enc);
            proof {
                assert(ops0 + whole.ops =~= self.ops@ + spec_encode_list(
                    *statements,
                    i + 1,
                    self.constants@,
                    self.var_count as int,
                    depth0,
                ).ops);
            }
            i = i + 1;
        }
        proof {
            assert(final(self).ops@ =~= ops0 + whole.ops);
        }
    }
}

/// A pool with no match before `i` and a match at `i` has its first
/// match at `i`.
proof fn lemma_pool_find_at(pool: Seq<LoxType>, v: LoxVal, i: int)
    requires
        0 <= i < pool.len(),
        forall|j: int| 0 <= j < i ==> !lox_eq_val(pool[j]@, v),
        lox_eq_val(pool[i]@, v),
    ensures
        pool_find(pool, v) == i,
    decreases i,
{
    if i == 0 {
    } else {
        assert(!lox_eq_val(pool[0]@, v));
        assert forall|j: int| 0 <= j < i - 1 implies !lox_eq_val(pool.skip(1)[j]@, v) by {
            assert(pool.skip(1)[j] == pool[j + 1]);
        };
        assert(pool.skip(1)[i - 1] == pool[i]);
        lemma_pool_find_at(pool.skip(1), v, i - 1);
    }
}

} // verus!
