//! The calculator tool: one of `+ - * /` on two 32-bit integers.

use crate::modals::calculator::CalculatorArg;
use crate::text::{decimal, push_i32_decimal};
use vstd::prelude::*;

verus! {

/// What `str::to_lowercase` returns for a text (full Unicode lowercasing).
pub uninterp spec fn lowercase(s: Seq<char>) -> Seq<char>;

/// `str::to_lowercase`: Unicode lowercasing of the whole text.
#[verifier::external_body]
fn to_lowercase(s: &str) -> (r: String)
    ensures
        r@ == lowercase(s@),
{
    s.to_lowercase()
}

/// Why the calculator gives no result.
#[derive(Clone, Debug)]
pub enum CalculatorError {
    /// Division with a zero divisor.
    DivisionByZero,
    /// An operator other than `+ - * /` (as lowercased).
    UnsupportedOperator(String),
}

/// The mathematical value of a calculator outcome.
pub enum CalcOutcome {
    Text(Seq<char>),
    DivisionByZero,
    UnsupportedOperator(Seq<char>),
}

/// The view of a calculator outcome.
pub open spec fn outcome_of(r: Result<String, CalculatorError>) -> CalcOutcome {
    match r {
        Ok(s) => CalcOutcome::Text(s@),
        Err(CalculatorError::DivisionByZero) => CalcOutcome::DivisionByZero,
        Err(CalculatorError::UnsupportedOperator(op)) => CalcOutcome::UnsupportedOperator(op@),
    }
}

pub open spec fn abs(a: int) -> int {
    if a < 0 {
        -a
    } else {
        a
    }
}

/// Integer division rounding toward zero, as Rust's `/` on integers.
pub open spec fn trunc_div(a: int, b: int) -> int {
    let q = abs(a) / abs(b);
    if (a < 0) != (b < 0) {
        -q
    } else {
        q
    }
}

pub open spec fn in_i32(n: int) -> bool {
    i32::MIN <= n <= i32::MAX
}

/// Whether the operation would leave the range of `i32` (Rust panics there).
pub open spec fn arithmetic_overflows(a: int, b: int, op: Seq<char>) -> bool {
    if op == seq!['+'] {
        !in_i32(a + b)
    } else if op == seq!['-'] {
        !in_i32(a - b)
    } else if op == seq!['*'] {
        !in_i32(a * b)
    } else if op == seq!['/'] {
        b != 0 && !in_i32(trunc_div(a, b))
    } else {
        false
    }
}

/// `"{a} {op} {b} = {value}"`.
pub open spec fn equation(a: int, op: Seq<char>, b: int, value: int) -> Seq<char> {
    decimal(a) + seq![' '] + op + seq![' '] + decimal(b) + seq![' ', '=', ' '] + decimal(value)
}

/// What the calculator answers for `a op b`, the operator already lowercased.
pub open spec fn calculation(a: int, b: int, op: Seq<char>) -> CalcOutcome {
    if op == seq!['+'] {
        CalcOutcome::Text(equation(a, op, b, a + b))
    } else if op == seq!['-'] {
        CalcOutcome::Text(equation(a, op, b, a - b))
    } else if op == seq!['*'] {
        CalcOutcome::Text(equation(a, op, b, a * b))
    } else if op == seq!['/'] {
        if b == 0 {
            CalcOutcome::DivisionByZero
        } else {
            CalcOutcome::Text(equation(a, op, b, trunc_div(a, b)))
        }
    } else {
        CalcOutcome::UnsupportedOperator(op)
    }
}

proof fn lemma_division_range(a: int, b: int)
    requires
        in_i32(a),
        in_i32(b),
        b != 0,
    ensures
        in_i32(trunc_div(a, b)) <==> !(a == i32::MIN && b == -1),
{
    let x = abs(a);
    let y = abs(b);
    assert(x / y <= x) by (nonlinear_arith)
        requires
            x >= 0,
            y >= 1,
    ;
    assert(y >= 2 ==> x / y <= x / 2) by (nonlinear_arith)
        requires
            x >= 0,
            y >= 1,
    ;
    assert(x / y >= 0) by (nonlinear_arith)
        requires
            x >= 0,
            y >= 1,
    ;
    assert(y == 1 ==> x / y == x) by (nonlinear_arith);
}

fn equation_text(a: i32, op: &str, b: i32, value: i32) -> (s: String)
    ensures
        s@ == equation(a as int, op@, b as int, value as int),
{
    proof {
        reveal_strlit(" ");
        reveal_strlit(" = ");
    }
    let mut s = String::new();
    push_i32_decimal(&mut s, a);
    s.append(" ");
    s.append(op);
    s.append(" ");
    push_i32_decimal(&mut s, b);
    s.append(" = ");
    push_i32_decimal(&mut s, value);
    assert(s@ =~= equation(a as int, op@, b as int, value as int));
    s
}

fn is_single(s: &str, c: char) -> (b: bool)
    ensures
        b == (s@ == seq![c]),
{
    if s.unicode_len() == 1 {
        let d = s.get_char(0);
        if d == c {
            assert(s@ =~= seq![c]);
            true
        } else {
            assert(s@[0] != seq![c][0]);
            false
        }
    } else {
        false
    }
}

fn divide(a: i32, b: i32) -> (q: i32)
    requires
        b != 0,
        in_i32(trunc_div(a as int, b as int)),
    ensures
        q == trunc_div(a as int, b as int),
{
    let ua: u32 = if a < 0 {
        (0i64 - a as i64) as u32
    } else {
        a as u32
    };
    let ub: u32 = if b < 0 {
        (0i64 - b as i64) as u32
    } else {
        b as u32
    };
    let uq = ua / ub;
    assert(uq == abs(a as int) / abs(b as int));
    if (a < 0) != (b < 0) {
        (0i64 - uq as i64) as i32
    } else {
        uq as i32
    }
}

/// Computes `first op second` for an already lowercased operator and writes
/// it as `"{first} {op} {second} = {value}"`.
pub fn calculate(first: i32, second: i32, operator: &str) -> (r: Result<String, CalculatorError>)
    requires
        !arithmetic_overflows(first as int, second as int, operator@),
    ensures
        outcome_of(r) == calculation(first as int, second as int, operator@),
{
    if is_single(operator, '+') {
        Ok(equation_text(first, operator, second, first + second))
    } else if is_single(operator, '-') {
        Ok(equation_text(first, operator, second, first - second))
    } else if is_single(operator, '*') {
        Ok(equation_text(first, operator, second, first * second))
    } else if is_single(operator, '/') {
        if second == 0 {
            Err(CalculatorError::DivisionByZero)
        } else {
            Ok(equation_text(first, operator, second, divide(first, second)))
        }
    } else {
        Err(CalculatorError::UnsupportedOperator(String::from_str(operator)))
    }
}

/// The calculator tool.
pub struct CalculatorTool;

impl CalculatorTool {
    pub fn name(&self) -> (s: &'static str)
        ensures
            s@ == "calculator"@,
    {
        "calculator"
    }

    pub fn description(&self) -> (s: &'static str)
        ensures
            s@ == "两数之间的加减乘除计算, 支持的operator有: '+', '-', '*', '/'"@,
    {
        "两数之间的加减乘除计算, 支持的operator有: '+', '-', '*', '/'"
    }

    /// Runs the calculator on parsed arguments. The operator is lowercased
    /// first. `None` where Rust's integer arithmetic would overflow (there the
    /// tool panics).
    pub fn execute(&self, arg: &CalculatorArg) -> (r: Option<Result<String, CalculatorError>>)
        ensures
            r is None <==> arithmetic_overflows(
                arg.first_number as int,
                arg.second_number as int,
                lowercase(arg.operator@),
            ),
            r matches Some(out) ==> outcome_of(out) == calculation(
                arg.first_number as int,
                arg.second_number as int,
                lowercase(arg.operator@),
            ),
    {
        let operator = to_lowercase(arg.operator.as_str());
        let a = arg.first_number;
        let b = arg.second_number;
        let wide_a = a as i64;
        let wide_b = b as i64;
        let fits = if is_single(operator.as_str(), '+') {
            i32::MIN as i64 <= wide_a + wide_b && wide_a + wide_b <= i32::MAX as i64
        } else if is_single(operator.as_str(), '-') {
            i32::MIN as i64 <= wide_a - wide_b && wide_a - wide_b <= i32::MAX as i64
        } else if is_single(operator.as_str(), '*') {
            assert(-0x8000_0000 * 0x8000_0000 <= wide_a * wide_b <= 0x8000_0000 * 0x8000_0000)
                by (nonlinear_arith)
                requires
                    -0x8000_0000 <= wide_a <= 0x8000_0000,
                    -0x8000_0000 <= wide_b <= 0x8000_0000,
            ;
            i32::MIN as i64 <= wide_a * wide_b && wide_a * wide_b <= i32::MAX as i64
        } else if is_single(operator.as_str(), '/') {
            proof {
                if b != 0 {
                    lemma_division_range(a as int, b as int);
                }
            }
            !(a == i32::MIN && b == -1)
        } else {
            true
        };
        if !fits {
            return None;
        }
        Some(calculate(a, b, operator.as_str()))
    }
}

/// The message of a calculator error.
pub fn error_message(e: &CalculatorError) -> (s: String)
    ensures
        s@ == match e {
            CalculatorError::DivisionByZero => "second number cannot be 0"@,
            CalculatorError::UnsupportedOperator(op) => "operator "@ + op@ + " is not supported"@,
        },
{
    match e {
        CalculatorError::DivisionByZero => String::from_str("second number cannot be 0"),
        CalculatorError::UnsupportedOperator(op) => {
            let mut s = String::from_str("operator ");
            s.append(op.as_str());
            s.append(" is not supported");
            s
        },
    }
}

} // verus!
