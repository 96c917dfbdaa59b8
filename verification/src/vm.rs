//! The stack-based virtual machine: a cursor walks the byte buffer,
//! dispatching on each opcode byte and recursively consuming operand
//! sub-expressions, against a runtime stack of named variable slots.
//!
//! Every outcome of a dispatch step is explicit: `NormalReturn` halts a
//! run, and a malformed buffer is reported, never followed blindly. A
//! buffer is malformed when an opcode's operand bytes are missing, a
//! constant index leaves the pool, a pop count exceeds the stack, a jump
//! walks the cursor out of the buffer backwards, or an operand
//! sub-expression fails to advance the cursor (as a backwards jump
//! inside an operand does); all of these are reported as
//! `UnexpectedEnd`.

use vstd::prelude::*;
use crate::lox_type::{
    LoxType, LoxVal, lox_eq_val, lox_cmp_val, lox_add_val, lox_sub_val, lox_mul_val, lox_div_val,
    lox_not_val, lox_truthy_val,
};

verus! {

/// A runtime variable slot: the constant-pool index of the variable's
/// name, and its current value.
#[derive(Debug)]
pub struct Var {
    pub idx: u8,
    pub v: LoxType,
}

/// The mathematical shape of a slot.
pub struct VarVal {
    pub idx: u8,
    pub val: LoxVal,
}

impl View for Var {
    type V = VarVal;

    open spec fn view(&self) -> VarVal {
        VarVal { idx: self.idx, val: self.v@ }
    }
}

impl Var {
    /// A slot for name index `l` holding `v`.
    pub fn new(l: u8, v: LoxType) -> (r: Var)
        ensures
            r.idx == l,
            r.v == v,
    {
        Var { idx: l, v }
    }
}

/// The shape of a whole runtime stack.
pub open spec fn stack_view(s: Seq<Var>) -> Seq<VarVal> {
    s.map_values(|x: Var| x@)
}

/// The explicit outcome of a dispatch step that did not yield a value.
/// `StepLimit` never comes from a dispatch step: the run loop reports
/// it alone, after two to the sixty-fourth steps without halting.
#[derive(Clone, Copy, Debug, PartialEq, Eq, Structural)]
pub enum VmError {
    UnresolvedVariable,
    InvalidOpcode,
    UnexpectedEnd,
    NormalReturn,
    StepLimit,
}

/// What one dispatch step leaves behind: the yielded value or the
/// outcome, the cursor, and the runtime stack.
pub struct StepOut {
    pub res: Result<LoxVal, VmError>,
    pub cursor: int,
    pub stack: Seq<VarVal>,
}

/// The first stack index holding a slot named `id`, or the stack's
/// length when none is.
pub open spec fn spec_stack_find(stack: Seq<VarVal>, id: u8) -> int
    decreases stack.len(),
{
    if stack.len() == 0 {
        0
    } else if stack[0].idx == id {
        0
    } else {
        1 + spec_stack_find(stack.skip(1), id)
    }
}

/// `spec_stack_find` names the first matching index: below it nothing
/// matches, and it matches itself when in range.
pub proof fn lemma_stack_find(stack: Seq<VarVal>, id: u8)
    ensures
        0 <= spec_stack_find(stack, id) <= stack.len(),
        spec_stack_find(stack, id) < stack.len() ==> stack[spec_stack_find(stack, id)].idx == id,
        forall|j: int| 0 <= j < spec_stack_find(stack, id) ==> stack[j].idx != id,
    decreases stack.len(),
{
    if stack.len() == 0 {
    } else if stack[0].idx == id {
    } else {
        lemma_stack_find(stack.skip(1), id);
        assert forall|j: int| 0 <= j < spec_stack_find(stack, id) implies stack[j].idx != id by {
            if j > 0 {
                assert(stack.skip(1)[j - 1] == stack[j]);
            }
        };
        if spec_stack_find(stack, id) < stack.len() {
            assert(stack.skip(1)[spec_stack_find(stack, id) - 1] == stack[spec_stack_find(
                stack,
                id,
            )]);
        }
    }
}

/// The opcode byte values that take two operand sub-expressions.
pub open spec fn is_binary_op(op: u8) -> bool {
    op == 3 || op == 4 || op == 5 || op == 6 || op == 8 || op == 9 || op == 10 || op == 11 || op
        == 12 || op == 13 || op == 14 || op == 23
}

/// The value a two-operand opcode combines its operands into.
pub open spec fn apply_binary(op: u8, a: LoxVal, b: LoxVal) -> LoxVal {
    if op == 3 {
        lox_add_val(a, b)
    } else if op == 4 {
        lox_sub_val(a, b)
    } else if op == 5 {
        lox_mul_val(a, b)
    } else if op == 6 {
        lox_div_val(a, b)
    } else if op == 8 {
        LoxVal::Boolean(lox_truthy_val(a) && lox_truthy_val(b))
    } else if op == 9 {
        LoxVal::Boolean(lox_truthy_val(a) || lox_truthy_val(b))
    } else if op == 10 {
        LoxVal::Boolean(lox_eq_val(a, b))
    } else if op == 23 {
        LoxVal::Boolean(!lox_eq_val(a, b))
    } else if op == 11 {
        LoxVal::Boolean(lox_cmp_val(a, b) == Some(core::cmp::Ordering::Greater))
    } else if op == 12 {
        LoxVal::Boolean(lox_cmp_val(a, b) == Some(core::cmp::Ordering::Greater) || lox_cmp_val(
            a,
            b,
        ) == Some(core::cmp::Ordering::Equal))
    } else if op == 13 {
        LoxVal::Boolean(lox_cmp_val(a, b) == Some(core::cmp::Ordering::Less))
    } else if op == 14 {
        LoxVal::Boolean(lox_cmp_val(a, b) == Some(core::cmp::Ordering::Less) || lox_cmp_val(a, b)
            == Some(core::cmp::Ordering::Equal))
    } else {
        LoxVal::Absence
    }
}

/// One dispatch step at `cursor`: reads the opcode byte there, consumes
/// its operand bytes and sub-expressions, and yields its value or the
/// outcome that stopped it, together with the cursor and stack it
/// leaves. An operand sub-expression must land the cursor strictly
/// beyond where its consumer started and at most at the buffer's end,
/// else the buffer is malformed.
pub open spec fn spec_do_op(
    bytes: Seq<u8>,
    consts: Seq<LoxType>,
    cursor: int,
    stack: Seq<VarVal>,
) -> StepOut
    decreases bytes.len() - cursor,
{
    if cursor < 0 || cursor >= bytes.len() {
        StepOut { res: Err(VmError::UnexpectedEnd), cursor, stack }
    } else {
        let op = bytes[cursor];
        let c1 = cursor + 1;
        if op == 0 {
            StepOut { res: Err(VmError::NormalReturn), cursor: c1, stack }
        } else if op == 1 {
            if c1 >= bytes.len() {
                StepOut { res: Err(VmError::UnexpectedEnd), cursor: c1, stack }
            } else {
                let k = bytes[c1] as int;
                if k < consts.len() {
                    StepOut { res: Ok(consts[k]@), cursor: c1 + 1, stack }
                } else {
                    StepOut { res: Err(VmError::UnexpectedEnd), cursor: c1 + 1, stack }
                }
            }
        } else if op == 2 {
            if c1 >= bytes.len() {
                StepOut { res: Err(VmError::UnexpectedEnd), cursor: c1, stack }
            } else if c1 + 1 >= bytes.len() {
                StepOut { res: Err(VmError::UnexpectedEnd), cursor: c1 + 1, stack }
            } else {
                let k = bytes[c1] + 256 * (bytes[c1 + 1] as int);
                if k < consts.len() {
                    StepOut { res: Ok(consts[k]@), cursor: c1 + 2, stack }
                } else {
                    StepOut { res: Err(VmError::UnexpectedEnd), cursor: c1 + 2, stack }
                }
            }
        } else if is_binary_op(op) {
            let s1 = spec_do_op(bytes, consts, c1, stack);
            match s1.res {
                Err(e) => StepOut { res: Err(e), cursor: s1.cursor, stack: s1.stack },
                Ok(v1) => {
                    if s1.cursor <= cursor || s1.cursor > bytes.len() {
                        StepOut {
                            res: Err(VmError::UnexpectedEnd),
                            cursor: s1.cursor,
                            stack: s1.stack,
                        }
                    } else {
                        let s2 = spec_do_op(bytes, consts, s1.cursor, s1.stack);
                        match s2.res {
                            Err(e) => StepOut { res: Err(e), cursor: s2.cursor, stack: s2.stack },
                            Ok(v2) => StepOut {
                                res: Ok(apply_binary(op, v1, v2)),
                                cursor: s2.cursor,
                                stack: s2.stack,
                            },
                        }
                    }
                },
            }
        } else if op == 7 {
            let s1 = spec_do_op(bytes, consts, c1, stack);
            match s1.res {
                Err(e) => StepOut { res: Err(e), cursor: s1.cursor, stack: s1.stack },
                Ok(v1) => StepOut { res: Ok(lox_not_val(v1)), cursor: s1.cursor, stack: s1.stack },
            }
        } else if op == 15 {
            if c1 >= bytes.len() {
                StepOut { res: Err(VmError::UnexpectedEnd), cursor: c1, stack }
            } else {
                let k = bytes[c1];
                StepOut {
                    res: Ok(LoxVal::Absence),
                    cursor: c1 + 1,
                    stack: stack.push(VarVal { idx: k, val: LoxVal::Absence }),
                }
            }
        } else if op == 16 {
            if c1 >= bytes.len() {
                StepOut { res: Err(VmError::UnexpectedEnd), cursor: c1, stack }
            } else {
                let k = bytes[c1];
                let s1 = spec_do_op(bytes, consts, c1 + 1, stack);
                match s1.res {
                    Err(e) => StepOut { res: Err(e), cursor: s1.cursor, stack: s1.stack },
                    Ok(v1) => {
                        let j = spec_stack_find(s1.stack, k);
                        if j < s1.stack.len() {
                            StepOut {
                                res: Ok(LoxVal::Absence),
                                cursor: s1.cursor,
                                stack: s1.stack.update(j, VarVal { idx: k, val: v1 }),
                            }
                        } else {
                            StepOut {
                                res: Err(VmError::UnresolvedVariable),
                                cursor: s1.cursor,
                                stack: s1.stack,
                            }
                        }
                    },
                }
            }
        } else if op == 17 {
            if c1 >= bytes.len() {
                StepOut { res: Err(VmError::UnexpectedEnd), cursor: c1, stack }
            } else {
                let amt = bytes[c1] as int;
                if amt <= stack.len() {
                    StepOut {
                        res: Ok(LoxVal::Absence),
                        cursor: c1 + 1,
                        stack: stack.take(stack.len() - amt),
                    }
                } else {
                    StepOut { res: Err(VmError::UnexpectedEnd), cursor: c1 + 1, stack }
                }
            }
        } else if op == 18 {
            if c1 >= bytes.len() {
                StepOut { res: Err(VmError::UnexpectedEnd), cursor: c1, stack }
            } else {
                let k = bytes[c1];
                let j = spec_stack_find(stack, k);
                if j < stack.len() {
                    StepOut { res: Ok(stack[j].val), cursor: c1 + 1, stack }
                } else {
                    StepOut { res: Err(VmError::UnresolvedVariable), cursor: c1 + 1, stack }
                }
            }
        } else if op == 19 || op == 20 || op == 21 || op == 22 {
            let s1 = spec_do_op(bytes, consts, c1, stack);
            match s1.res {
                Err(e) => StepOut { res: Err(e), cursor: s1.cursor, stack: s1.stack },
                Ok(v1) => {
                    if s1.cursor < 0 || s1.cursor >= bytes.len() {
                        StepOut {
                            res: Err(VmError::UnexpectedEnd),
                            cursor: s1.cursor,
                            stack: s1.stack,
                        }
                    } else {
                        let delta = bytes[s1.cursor] as int;
                        let c2 = s1.cursor + 1;
                        let taken = if op == 19 || op == 21 {
                            lox_truthy_val(v1)
                        } else {
                            !lox_truthy_val(v1)
                        };
                        if !taken {
                            StepOut { res: Ok(LoxVal::Absence), cursor: c2, stack: s1.stack }
                        } else if op == 19 || op == 20 {
                            if delta <= c2 {
                                StepOut {
                                    res: Ok(LoxVal::Absence),
                                    cursor: c2 - delta,
                                    stack: s1.stack,
                                }
                            } else {
                                StepOut {
                                    res: Err(VmError::UnexpectedEnd),
                                    cursor: c2,
                                    stack: s1.stack,
                                }
                            }
                        } else {
                            let c3 = if c2 + delta > usize::MAX {
                                usize::MAX as int
                            } else {
                                c2 + delta
                            };
                            StepOut { res: Ok(LoxVal::Absence), cursor: c3, stack: s1.stack }
                        }
                    }
                },
            }
        } else {
            StepOut { res: Err(VmError::InvalidOpcode), cursor: c1, stack }
        }
    }
}

/// The outcome of running the dispatch loop for at most `fuel` steps
/// from the given cursor and stack: still running, halted normally
/// (cursor past the buffer, or a `NormalReturn`), or stopped on an
/// error.
pub enum RunOutcome {
    More(int, Seq<VarVal>),
    Halted(Seq<VarVal>),
    Failed(VmError),
}

/// Runs the dispatch loop for at most `fuel` steps.
pub open spec fn spec_run(
    bytes: Seq<u8>,
    consts: Seq<LoxType>,
    cursor: int,
    stack: Seq<VarVal>,
    fuel: nat,
) -> RunOutcome
    decreases fuel,
{
    if cursor < 0 || cursor >= bytes.len() {
        RunOutcome::Halted(stack)
    } else if fuel == 0 {
        RunOutcome::More(cursor, stack)
    } else {
        let s = spec_do_op(bytes, consts, cursor, stack);
        match s.res {
            Ok(_) => spec_run(bytes, consts, s.cursor, s.stack, (fuel - 1) as nat),
            Err(e) => if e == VmError::NormalReturn {
                RunOutcome::Halted(s.stack)
            } else {
                RunOutcome::Failed(e)
            },
        }
    }
}

/// One more unit of fuel takes a still-running state through exactly
/// one further dispatch step.
proof fn lemma_run_unroll(
    bytes: Seq<u8>,
    consts: Seq<LoxType>,
    cursor: int,
    stack: Seq<VarVal>,
    fuel: nat,
    c: int,
    s: Seq<VarVal>,
)
    requires
        spec_run(bytes, consts, cursor, stack, fuel) == RunOutcome::More(c, s),
    ensures
        spec_run(bytes, consts, cursor, stack, fuel + 1) == ({
            let st = spec_do_op(bytes, consts, c, s);
            match st.res {
                Ok(v) => if st.cursor < 0 || st.cursor >= bytes.len() {
                    RunOutcome::Halted(st.stack)
                } else {
                    RunOutcome::More(st.cursor, st.stack)
                },
                Err(e) => if e == VmError::NormalReturn {
                    RunOutcome::Halted(st.stack)
                } else {
                    RunOutcome::Failed(e)
                },
            }
        }),
    decreases fuel,
{
    if fuel == 0 {
        let st = spec_do_op(bytes, consts, c, s);
        match st.res {
            Ok(_) => {
                assert(spec_run(bytes, consts, st.cursor, st.stack, 0) == (
                if st.cursor < 0 || st.cursor >= bytes.len() {
                    RunOutcome::Halted(st.stack)
                } else {
                    RunOutcome::More(st.cursor, st.stack)
                }));
            },
            Err(_) => {},
        }
    } else {
        let st0 = spec_do_op(bytes, consts, cursor, stack);
        match st0.res {
            Ok(_) => {
                lemma_run_unroll(bytes, consts, st0.cursor, st0.stack, (fuel - 1) as nat, c, s);
            },
            Err(_) => {},
        }
    }
}

/// A virtual machine instance: the byte buffer and constant pool it
/// executes, its cursor, and its runtime variable stack.
#[derive(Debug)]
pub struct Vm {
    pub bytes: Vec<u8>,
    pub constants: Vec<LoxType>,
    pub idx: usize,
    pub stack: Vec<Var>,
}

/// The first stack index holding a slot named `id`, if any.
fn stack_lookup(stack: &Vec<Var>, id: u8) -> (r: Option<usize>)
    ensures
        match r {
            Some(j) => j == spec_stack_find(stack_view(stack@), id) && j < stack@.len(),
            None => spec_stack_find(stack_view(stack@), id) >= stack@.len(),
        },
{
    proof {
        lemma_stack_find(stack_view(stack@), id);
    }
    let n = stack.len();
    let mut i: usize = 0;
    while i < n
        invariant
            i <= n,
            n == stack@.len(),
            forall|j: int| 0 <= j < i ==> stack_view(stack@)[j].idx != id,
        decreases n - i,
    {
        if stack[i].idx == id {
            proof {
                lemma_stack_find_at(stack_view(stack@), id, i as int);
            }
            return Some(i);
        }
        i = i + 1;
    }
    None
}

/// A stack with no match before `i` and a match at `i` has its first
/// match at `i`.
proof fn lemma_stack_find_at(stack: Seq<VarVal>, id: u8, i: int)
    requires
        0 <= i < stack.len(),
        forall|j: int| 0 <= j < i ==> stack[j].idx != id,
        stack[i].idx == id,
    ensures
        spec_stack_find(stack, id) == i,
    decreases i,
{
    if i == 0 {
    } else {
        assert forall|j: int| 0 <= j < i - 1 implies stack.skip(1)[j].idx != id by {
            assert(stack.skip(1)[j] == stack[j + 1]);
        };
        assert(stack.skip(1)[i - 1] == stack[i]);
        lemma_stack_find_at(stack.skip(1), id, i - 1);
    }
}

/// Combines two operand values under a two-operand opcode, per
/// `apply_binary`.
fn apply_binary_op(op: u8, a: LoxType, b: LoxType) -> (r: LoxType)
    requires
        is_binary_op(op),
    ensures
        r@ == apply_binary(op, a@, b@),
{
    if op == 3 {
        a.lox_add(b)
    } else if op == 4 {
        a.lox_sub(b)
    } else if op == 5 {
        a.lox_mul(b)
    } else if op == 6 {
        a.lox_div(b)
    } else if op == 8 {
        let t1 = a.truthy();
        let t2 = b.truthy();
        LoxType::Boolean(t1 && t2)
    } else if op == 9 {
        let t1 = a.truthy();
        let t2 = b.truthy();
        LoxType::Boolean(t1 || t2)
    } else if op == 10 {
        LoxType::Boolean(a.lox_eq(&b))
    } else if op == 23 {
        LoxType::Boolean(!a.lox_eq(&b))
    } else if op == 11 {
        LoxType::Boolean(
            match a.lox_cmp(&b) {
                Some(core::cmp::Ordering::Greater) => true,
                _ => false,
            },
        )
    } else if op == 12 {
        LoxType::Boolean(
            match a.lox_cmp(&b) {
                Some(core::cmp::Ordering::Greater) => true,
                Some(core::cmp::Ordering::Equal) => true,
                _ => false,
            },
        )
    } else if op == 13 {
        LoxType::Boolean(
            match a.lox_cmp(&b) {
                Some(core::cmp::Ordering::Less) => true,
                _ => false,
            },
        )
    } else {
        LoxType::Boolean(
            match a.lox_cmp(&b) {
                Some(core::cmp::Ordering::Less) => true,
                Some(core::cmp::Ordering::Equal) => true,
                _ => false,
            },
        )
    }
}

impl Vm {
    /// A machine at the start of `bytes` with an empty stack.
    pub fn new(bytes: Vec<u8>, constants: Vec<LoxType>) -> (r: Vm)
        ensures
            r.bytes == bytes,
            r.constants == constants,
            r.idx == 0,
            r.stack@ == Seq::<Var>::empty(),
    {
        Vm { bytes, constants, idx: 0, stack: Vec::new() }
    }

    /// Reads the byte at the cursor and advances past it.
    fn read_byte(&mut self) -> (r: Result<u8, VmError>)
        ensures
            final(self).bytes == old(self).bytes,
            final(self).constants == old(self).constants,
            final(self).stack == old(self).stack,
            match r {
                Ok(b) => old(self).idx < old(self).bytes@.len() && b == old(self).bytes@[old(
                    self,
                ).idx as int] && final(self).idx == old(self).idx + 1,
                Err(e) => e == VmError::UnexpectedEnd && old(self).idx >= old(self).bytes@.len()
                    && final(self).idx == old(self).idx,
            },
    {
        if self.idx < self.bytes.len() {
            let b = self.bytes[self.idx];
            self.idx = self.idx + 1;
            Ok(b)
        } else {
            Err(VmError::UnexpectedEnd)
        }
    }

    /// Performs one dispatch step, per `spec_do_op`: reads the opcode
    /// byte at the cursor, consumes its operands, and yields its value
    /// or the outcome that stopped it.
    #[verifier::loop_isolation(false)]
    #[verifier::rlimit(100)]
    pub fn do_op(&mut self) -> (r: Result<LoxType, VmError>)
        ensures
            final(self).bytes == old(self).bytes,
            final(self).constants == old(self).constants,
            final(self).idx as int == spec_do_op(
                old(self).bytes@,
                old(self).constants@,
                old(self).idx as int,
                stack_view(old(self).stack@),
            ).cursor,
            stack_view(final(self).stack@) == spec_do_op(
                old(self).bytes@,
                old(self).constants@,
                old(self).idx as int,
                stack_view(old(self).stack@),
            ).stack,
            match r {
                Ok(v) => spec_do_op(
                    old(self).bytes@,
                    old(self).constants@,
                    old(self).idx as int,
                    stack_view(old(self).stack@),
                ).res == Ok::<LoxVal, VmError>(v@),
                Err(e) => e != VmError::StepLimit && spec_do_op(
                    old(self).bytes@,
                    old(self).constants@,
                    old(self).idx as int,
                    stack_view(old(self).stack@),
                ).res == Err::<LoxVal, VmError>(e),
            },
        decreases self.bytes@.len() - self.idx,
    {
        let start = self.idx;
        let op = self.read_byte()?;
        if op == 0 {
            Err(VmError::NormalReturn)
        } else if op == 1 {
            let k = self.read_byte()?;
            if (k as usize) < self.constants.len() {
                Ok(self.constants[k as usize].clone())
            } else {
                Err(VmError::UnexpectedEnd)
            }
        } else if op == 2 {
            let b0 = self.read_byte()?;
            let b1 = self.read_byte()?;
            let k = (b0 as usize) + 256 * (b1 as usize);
            if k < self.constants.len() {
                Ok(self.constants[k].clone())
            } else {
                Err(VmError::UnexpectedEnd)
            }
        } else if op == 3 || op == 4 || op == 5 || op == 6 || op == 8 || op == 9 || op == 10 || op
            == 11 || op == 12 || op == 13 || op == 14 || op == 23 {
            let v1 = self.do_op()?;
            if self.idx <= start || self.idx > self.bytes.len() {
                return Err(VmError::UnexpectedEnd);
            }
            let v2 = self.do_op()?;
            Ok(apply_binary_op(op, v1, v2))
        } else if op == 7 {
            let v1 = self.do_op()?;
            Ok(v1.lox_not())
        } else if op == 15 {
            let k = self.read_byte()?;
            self.stack.push(Var::new(k, LoxType::Absence));
            proof {
                assert(stack_view(self.stack@) =~= stack_view(old(self).stack@).push(
                    VarVal { idx: k, val: LoxVal::Absence },
                ));
            }
            Ok(LoxType::Absence)
        } else if op == 16 {
            let k = self.read_byte()?;
            let v1 = self.do_op()?;
            match stack_lookup(&self.stack, k) {
                Some(j) => {
                    let ghost pre = stack_view(self.stack@);
                    let ghost gv = v1@;
                    self.stack[j] = Var::new(k, v1);
                    proof {
                        assert(stack_view(self.stack@) =~= pre.update(
                            j as int,
                            VarVal { idx: k, val: gv },
                        ));
                    }
                    Ok(LoxType::Absence)
                },
                None => Err(VmError::UnresolvedVariable),
            }
        } else if op == 17 {
            let amt = self.read_byte()?;
            if (amt as usize) <= self.stack.len() {
                let keep = self.stack.len() - amt as usize;
                self.stack.truncate(keep);
                proof {
                    assert(stack_view(self.stack@) =~= stack_view(old(self).stack@).take(
                        keep as int,
                    ));
                }
                Ok(LoxType::Absence)
            } else {
                Err(VmError::UnexpectedEnd)
            }
        } else if op == 18 {
            let k = self.read_byte()?;
            match stack_lookup(&self.stack, k) {
                Some(j) => Ok(self.stack[j].v.clone()),
                None => Err(VmError::UnresolvedVariable),
            }
        } else if op == 19 || op == 20 || op == 21 || op == 22 {
            let v1 = self.do_op()?;
            let delta = self.read_byte()?;
            let t = v1.truthy();
            let taken = if op == 19 || op == 21 {
                t
            } else {
                !t
            };
            if !taken {
                Ok(LoxType::Absence)
            } else if op == 19 || op == 20 {
                if (delta as usize) <= self.idx {
                    self.idx = self.idx - delta as usize;
                    Ok(LoxType::Absence)
                } else {
                    Err(VmError::UnexpectedEnd)
                }
            } else {
                if (delta as usize) <= usize::MAX - self.idx {
                    self.idx = self.idx + delta as usize;
                } else {
                    self.idx = usize::MAX;
                }
                Ok(LoxType::Absence)
            }
        } else {
            Err(VmError::InvalidOpcode)
        }
    }
}

/// Executes the buffer from its start against the pool: dispatches
/// steps while the cursor is inside the buffer, halting on a
/// `NormalReturn` or on the cursor leaving the buffer, and reporting
/// the first error met. Returns the final runtime stack, the run's
/// outcome for its caller. A run that is still going after two to the
/// sixty-fourth dispatch steps is cut off and reported as `StepLimit`.
#[verifier::loop_isolation(false)]
pub fn interpret(bytes: Vec<u8>, constants: Vec<LoxType>) -> (r: Result<Vec<Var>, VmError>)
    ensures
        match r {
            Ok(stack) => exists|n: nat|
                spec_run(bytes@, constants@, 0, Seq::empty(), n) == RunOutcome::Halted(
                    stack_view(stack@),
                ),
            Err(e) => e != VmError::NormalReturn && if e == VmError::StepLimit {
                spec_run(bytes@, constants@, 0, Seq::empty(), u64::MAX as nat) is More
            } else {
                exists|n: nat|
                    spec_run(bytes@, constants@, 0, Seq::empty(), n) == RunOutcome::Failed(e)
            },
        },
{
    let ghost gbytes = bytes@;
    let ghost gconsts = constants@;
    let mut vm = Vm::new(bytes, constants);
    let mut steps_left: u64 = u64::MAX;
    let ghost mut steps: nat = 0;
    proof {
        assert(stack_view(vm.stack@) =~= Seq::<VarVal>::empty());
    }
    loop
        invariant
            vm.bytes@ == gbytes,
            vm.constants@ == gconsts,
            steps == u64::MAX - steps_left,
            if vm.idx < vm.bytes@.len() {
                spec_run(gbytes, gconsts, 0, Seq::empty(), steps) == RunOutcome::More(
                    vm.idx as int,
                    stack_view(vm.stack@),
                )
            } else {
                spec_run(gbytes, gconsts, 0, Seq::empty(), steps) == RunOutcome::Halted(
                    stack_view(vm.stack@),
                )
            },
        decreases steps_left,
    {
        if vm.idx >= vm.bytes.len() {
            return Ok(vm.stack);
        }
        if steps_left == 0 {
            return Err(VmError::StepLimit);
        }
        steps_left = steps_left - 1;
        let ghost pre_idx = vm.idx as int;
        let ghost pre_stack = stack_view(vm.stack@);
        let step = vm.do_op();
        proof {
            lemma_run_unroll(gbytes, gconsts, 0, Seq::empty(), steps, pre_idx, pre_stack);
            steps = steps + 1;
        }
        match step {
            Ok(_) => {},
            Err(e) => {
                if matches!(e, VmError::NormalReturn) {
                    return Ok(vm.stack);
                } else {
                    return Err(e);
                }
            },
        }
    }
}

/// Assigning through a name index that no live slot carries is reported
/// as `UnresolvedVariable`, never passed over: whenever the value
/// operand of an `Assign` evaluates to a value but the stack it leaves
/// holds no slot with the assigned name index, the step fails so.
pub proof fn lemma_assign_unresolved(
    bytes: Seq<u8>,
    consts: Seq<LoxType>,
    cursor: int,
    stack: Seq<VarVal>,
)
    requires
        0 <= cursor,
        cursor + 1 < bytes.len(),
        bytes[cursor] == 16,
        spec_do_op(bytes, consts, cursor + 2, stack).res is Ok,
        spec_stack_find(
            spec_do_op(bytes, consts, cursor + 2, stack).stack,
            bytes[cursor + 1],
        ) >= spec_do_op(bytes, consts, cursor + 2, stack).stack.len(),
    ensures
        spec_do_op(bytes, consts, cursor, stack).res == Err::<LoxVal, VmError>(
            VmError::UnresolvedVariable,
        ),
{
    lemma_stack_find(spec_do_op(bytes, consts, cursor + 2, stack).stack, bytes[cursor + 1]);
}

} // verus!
