//! The tagged value model: text, number, boolean and the absence of a
//! value. Arithmetic, comparison and truthiness are defined per variant
//! pair, with an explicit fall back to `Absence` for unsupported pairs.

use vstd::prelude::*;
use vstd::string::StringExecFns;
use vstd::string::StrSliceExecFns;
use crate::numeric::{
    num_is_nan, num_eq, num_lt, num_add, num_sub, num_mul, num_div, SIGN_MASK,
    num_eq_bits, num_lt_bits, num_add_bits, num_sub_bits, num_mul_bits, num_div_bits,
    num_neg_bits,
};

verus! {

/// A runtime value. A number is the bit pattern of an IEEE-754 binary64
/// value (see `numeric`).
#[derive(Debug)]
pub enum LoxType {
    Text(String),
    Number(u64),
    Boolean(bool),
    Absence,
}

/// The mathematical shape of a `LoxType`: text as its character sequence,
/// the other variants as themselves.
pub enum LoxVal {
    Text(Seq<char>),
    Number(u64),
    Boolean(bool),
    Absence,
}

impl View for LoxType {
    type V = LoxVal;

    open spec fn view(&self) -> LoxVal {
        match self {
            LoxType::Text(s) => LoxVal::Text(s@),
            LoxType::Number(n) => LoxVal::Number(*n),
            LoxType::Boolean(b) => LoxVal::Boolean(*b),
            LoxType::Absence => LoxVal::Absence,
        }
    }
}

impl Clone for LoxType {
    fn clone(&self) -> (r: Self)
        ensures
            r == *self,
    {
        match self {
            LoxType::Text(s) => LoxType::Text(s.clone()),
            LoxType::Number(n) => LoxType::Number(*n),
            LoxType::Boolean(b) => LoxType::Boolean(*b),
            LoxType::Absence => LoxType::Absence,
        }
    }
}

/// Value equality: defined only between values of the same variant,
/// numbers by IEEE equality, text by its characters; any cross-variant
/// pair is unequal.
pub open spec fn lox_eq_val(a: LoxVal, b: LoxVal) -> bool {
    match (a, b) {
        (LoxVal::Text(x), LoxVal::Text(y)) => x == y,
        (LoxVal::Number(x), LoxVal::Number(y)) => num_eq(x, y),
        (LoxVal::Boolean(x), LoxVal::Boolean(y)) => x == y,
        (LoxVal::Absence, LoxVal::Absence) => true,
        _ => false,
    }
}

/// Lexicographic order on character sequences by code point.
pub open spec fn chars_lt(a: Seq<char>, b: Seq<char>) -> bool
    decreases a.len(),
{
    if b.len() == 0 {
        false
    } else if a.len() == 0 {
        true
    } else if a[0] != b[0] {
        (a[0] as u32) < (b[0] as u32)
    } else {
        chars_lt(a.skip(1), b.skip(1))
    }
}

/// Value ordering: defined only between values of the same variant, and
/// not at all when a NaN is involved; text lexicographically, booleans
/// with false below true.
pub open spec fn lox_cmp_val(a: LoxVal, b: LoxVal) -> Option<core::cmp::Ordering> {
    match (a, b) {
        (LoxVal::Text(x), LoxVal::Text(y)) => if x == y {
            Some(core::cmp::Ordering::Equal)
        } else if chars_lt(x, y) {
            Some(core::cmp::Ordering::Less)
        } else {
            Some(core::cmp::Ordering::Greater)
        },
        (LoxVal::Number(x), LoxVal::Number(y)) => if num_is_nan(x) || num_is_nan(y) {
            None
        } else if num_eq(x, y) {
            Some(core::cmp::Ordering::Equal)
        } else if num_lt(x, y) {
            Some(core::cmp::Ordering::Less)
        } else {
            Some(core::cmp::Ordering::Greater)
        },
        (LoxVal::Boolean(x), LoxVal::Boolean(y)) => if x == y {
            Some(core::cmp::Ordering::Equal)
        } else if !x {
            Some(core::cmp::Ordering::Less)
        } else {
            Some(core::cmp::Ordering::Greater)
        },
        (LoxVal::Absence, LoxVal::Absence) => Some(core::cmp::Ordering::Equal),
        _ => None,
    }
}

/// Addition: text concatenates, numbers add, booleans disjoin, two
/// absences stay absent, and any other pair falls back to `Absence`.
pub open spec fn lox_add_val(a: LoxVal, b: LoxVal) -> LoxVal {
    match (a, b) {
        (LoxVal::Text(x), LoxVal::Text(y)) => LoxVal::Text(x + y),
        (LoxVal::Number(x), LoxVal::Number(y)) => LoxVal::Number(num_add(x, y)),
        (LoxVal::Boolean(x), LoxVal::Boolean(y)) => LoxVal::Boolean(x || y),
        (LoxVal::Absence, LoxVal::Absence) => LoxVal::Absence,
        _ => LoxVal::Absence,
    }
}

/// Subtraction: numbers subtract; every other pair falls back to `Absence`.
pub open spec fn lox_sub_val(a: LoxVal, b: LoxVal) -> LoxVal {
    match (a, b) {
        (LoxVal::Number(x), LoxVal::Number(y)) => LoxVal::Number(num_sub(x, y)),
        _ => LoxVal::Absence,
    }
}

/// Multiplication: numbers multiply, booleans conjoin; every other pair
/// falls back to `Absence`.
pub open spec fn lox_mul_val(a: LoxVal, b: LoxVal) -> LoxVal {
    match (a, b) {
        (LoxVal::Number(x), LoxVal::Number(y)) => LoxVal::Number(num_mul(x, y)),
        (LoxVal::Boolean(x), LoxVal::Boolean(y)) => LoxVal::Boolean(x && y),
        _ => LoxVal::Absence,
    }
}

/// Division: numbers divide; every other pair falls back to `Absence`.
pub open spec fn lox_div_val(a: LoxVal, b: LoxVal) -> LoxVal {
    match (a, b) {
        (LoxVal::Number(x), LoxVal::Number(y)) => LoxVal::Number(num_div(x, y)),
        _ => LoxVal::Absence,
    }
}

/// Truthiness-negation: a number negates, a boolean inverts, text and
/// absence fall back to `Absence`.
pub open spec fn lox_not_val(a: LoxVal) -> LoxVal {
    match a {
        LoxVal::Text(_) => LoxVal::Absence,
        LoxVal::Number(n) => LoxVal::Number(n ^ SIGN_MASK),
        LoxVal::Boolean(b) => LoxVal::Boolean(!b),
        LoxVal::Absence => LoxVal::Absence,
    }
}

/// Truthiness: absence is false, a boolean passes through, every other
/// value is true.
pub open spec fn lox_truthy_val(a: LoxVal) -> bool {
    match a {
        LoxVal::Absence => false,
        LoxVal::Boolean(b) => b,
        _ => true,
    }
}

/// Decides lexicographic order of two strings by code point.
fn str_lt(a: &String, b: &String) -> (r: bool)
    ensures
        r == chars_lt(a@, b@),
{
    let a_len = a.as_str().unicode_len();
    let b_len = b.as_str().unicode_len();
    let mut i: usize = 0;
    proof {
        assert(a@.skip(0) =~= a@);
        assert(b@.skip(0) =~= b@);
    }
    loop
        invariant
            i <= a_len,
            i <= b_len,
            a_len == a@.len(),
            b_len == b@.len(),
            chars_lt(a@, b@) == chars_lt(a@.skip(i as int), b@.skip(i as int)),
        decreases a_len - i,
    {
        if i == a_len || i == b_len {
            return i < b_len;
        }
        let ca = a.as_str().get_char(i);
        let cb = b.as_str().get_char(i);
        if ca != cb {
            return (ca as u32) < (cb as u32);
        }
        proof {
            assert(a@.skip(i as int).skip(1) =~= a@.skip(i + 1));
            assert(b@.skip(i as int).skip(1) =~= b@.skip(i + 1));
        }
        i = i + 1;
    }
}

impl LoxType {
    /// Value equality with `other`, per `lox_eq_val`.
    pub fn lox_eq(&self, other: &LoxType) -> (r: bool)
        ensures
            r == lox_eq_val(self@, other@),
    {
        match (self, other) {
            (LoxType::Text(x), LoxType::Text(y)) => x.eq(y),
            (LoxType::Number(x), LoxType::Number(y)) => num_eq_bits(*x, *y),
            (LoxType::Boolean(x), LoxType::Boolean(y)) => *x == *y,
            (LoxType::Absence, LoxType::Absence) => true,
            _ => false,
        }
    }

    /// Value ordering with `other`, per `lox_cmp_val`.
    pub fn lox_cmp(&self, other: &LoxType) -> (r: Option<core::cmp::Ordering>)
        ensures
            r == lox_cmp_val(self@, other@),
    {
        match (self, other) {
            (LoxType::Text(x), LoxType::Text(y)) => if x.eq(y) {
                Some(core::cmp::Ordering::Equal)
            } else if str_lt(x, y) {
                Some(core::cmp::Ordering::Less)
            } else {
                Some(core::cmp::Ordering::Greater)
            },
            (LoxType::Number(x), LoxType::Number(y)) => {
                if !num_eq_bits(*x, *x) || !num_eq_bits(*y, *y) {
                    None
                } else if num_eq_bits(*x, *y) {
                    Some(core::cmp::Ordering::Equal)
                } else if num_lt_bits(*x, *y) {
                    Some(core::cmp::Ordering::Less)
                } else {
                    Some(core::cmp::Ordering::Greater)
                }
            },
            (LoxType::Boolean(x), LoxType::Boolean(y)) => if *x == *y {
                Some(core::cmp::Ordering::Equal)
            } else if !*x {
                Some(core::cmp::Ordering::Less)
            } else {
                Some(core::cmp::Ordering::Greater)
            },
            (LoxType::Absence, LoxType::Absence) => Some(core::cmp::Ordering::Equal),
            _ => None,
        }
    }

    /// Addition per `lox_add_val`.
    pub fn lox_add(self, other: LoxType) -> (r: LoxType)
        ensures
            r@ == lox_add_val(self@, other@),
    {
        match (self, other) {
            (LoxType::Text(x), LoxType::Text(y)) => LoxType::Text(x.concat(y.as_str())),
            (LoxType::Number(x), LoxType::Number(y)) => LoxType::Number(num_add_bits(x, y)),
            (LoxType::Boolean(x), LoxType::Boolean(y)) => LoxType::Boolean(x || y),
            (LoxType::Absence, LoxType::Absence) => LoxType::Absence,
            _ => LoxType::Absence,
        }
    }

    /// Subtraction per `lox_sub_val`.
    pub fn lox_sub(self, other: LoxType) -> (r: LoxType)
        ensures
            r@ == lox_sub_val(self@, other@),
    {
        match (self, other) {
            (LoxType::Number(x), LoxType::Number(y)) => LoxType::Number(num_sub_bits(x, y)),
            _ => LoxType::Absence,
        }
    }

    /// Multiplication per `lox_mul_val`.
    pub fn lox_mul(self, other: LoxType) -> (r: LoxType)
        ensures
            r@ == lox_mul_val(self@, other@),
    {
        match (self, other) {
            (LoxType::Number(x), LoxType::Number(y)) => LoxType::Number(num_mul_bits(x, y)),
            (LoxType::Boolean(x), LoxType::Boolean(y)) => LoxType::Boolean(x && y),
            _ => LoxType::Absence,
        }
    }

    /// Division per `lox_div_val`.
    pub fn lox_div(self, other: LoxType) -> (r: LoxType)
        ensures
            r@ == lox_div_val(self@, other@),
    {
        match (self, other) {
            (LoxType::Number(x), LoxType::Number(y)) => LoxType::Number(num_div_bits(x, y)),
            _ => LoxType::Absence,
        }
    }

    /// Truthiness-negation per `lox_not_val`.
    pub fn lox_not(self) -> (r: LoxType)
        ensures
            r@ == lox_not_val(self@),
    {
        match self {
            LoxType::Text(_) => LoxType::Absence,
            LoxType::Number(n) => LoxType::Number(num_neg_bits(n)),
            LoxType::Boolean(b) => LoxType::Boolean(!b),
            LoxType::Absence => LoxType::Absence,
        }
    }

    /// Truthiness per `lox_truthy_val`.
    pub fn truthy(&self) -> (r: bool)
        ensures
            r == lox_truthy_val(self@),
    {
        match self {
            LoxType::Absence => false,
            LoxType::Boolean(b) => *b,
            _ => true,
        }
    }
}

} // verus!
