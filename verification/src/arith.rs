//! Evaluation of arithmetic expressions against the variable environment.

use vstd::prelude::*;

use crate::ast::ArithExpr;
use crate::env::ShellEnvironment;
use crate::error::{Error, ErrorKind};
use crate::strings::{parse_i64, spec_parse_i64};
use crate::variables::ShellValue;

verus! {

/// The number a variable contributes to arithmetic: its scalar value parsed
/// as a decimal, and zero when it is unset, an array, or not a number.
pub open spec fn spec_var_number(env: ShellEnvironment, name: Seq<char>) -> i64 {
    match env.spec_lookup(name) {
        Some(var) => match var.value {
            ShellValue::Scalar(s) => match spec_parse_i64(s@) {
                Some(v) => v,
                None => 0,
            },
            ShellValue::Indexed(_) => 0,
        },
        None => 0,
    }
}

/// What an arithmetic expression evaluates to: `None` on division by zero or
/// signed overflow.
pub open spec fn spec_arith_eval(e: ArithExpr, env: ShellEnvironment) -> Option<i64>
    decreases e,
{
    match e {
        ArithExpr::Literal(v) => Some(v),
        ArithExpr::Variable(name) => Some(spec_var_number(env, name@)),
        ArithExpr::Plus(l, r) => match (spec_arith_eval(*l, env), spec_arith_eval(*r, env)) {
            (Some(a), Some(b)) => a.checked_add(b),
            _ => None,
        },
        ArithExpr::Minus(l, r) => match (spec_arith_eval(*l, env), spec_arith_eval(*r, env)) {
            (Some(a), Some(b)) => a.checked_sub(b),
            _ => None,
        },
        ArithExpr::Times(l, r) => match (spec_arith_eval(*l, env), spec_arith_eval(*r, env)) {
            (Some(a), Some(b)) => a.checked_mul(b),
            _ => None,
        },
        ArithExpr::DividedBy(l, r) => match (spec_arith_eval(*l, env), spec_arith_eval(*r, env)) {
            (Some(a), Some(b)) => a.checked_div(b),
            _ => None,
        },
    }
}

/// Evaluates an arithmetic expression.  Division by zero and overflow are
/// reported as evaluation errors.
pub fn eval_arith(e: &ArithExpr, env: &ShellEnvironment) -> (r: Result<i64, Error>)
    requires
        env.wf(),
    ensures
        match spec_arith_eval(*e, *env) {
            Some(v) => r matches Ok(got) && got == v,
            None => r matches Err(err) && err.kind is ArithmeticEvaluation,
        },
    decreases *e,
{
    match e {
        ArithExpr::Literal(v) => Ok(*v),
        ArithExpr::Variable(name) => {
            match env.get(name.as_str()) {
                Some(var) => match var.try_get_scalar() {
                    Some(s) => match parse_i64(s.as_str()) {
                        Some(v) => Ok(v),
                        None => Ok(0),
                    },
                    None => Ok(0),
                },
                None => Ok(0),
            }
        },
        ArithExpr::Plus(l, r) => {
            let a = eval_arith(&*l, env)?;
            let b = eval_arith(&*r, env)?;
            match a.checked_add(b) {
                Some(v) => Ok(v),
                None => Err(Error::new(ErrorKind::ArithmeticEvaluation(String::from_str(
                    "overflow",
                )))),
            }
        },
        ArithExpr::Minus(l, r) => {
            let a = eval_arith(&*l, env)?;
            let b = eval_arith(&*r, env)?;
            match a.checked_sub(b) {
                Some(v) => Ok(v),
                None => Err(Error::new(ErrorKind::ArithmeticEvaluation(String::from_str(
                    "overflow",
                )))),
            }
        },
        ArithExpr::Times(l, r) => {
            let a = eval_arith(&*l, env)?;
            let b = eval_arith(&*r, env)?;
            match a.checked_mul(b) {
                Some(v) => Ok(v),
                None => Err(Error::new(ErrorKind::ArithmeticEvaluation(String::from_str(
                    "overflow",
                )))),
            }
        },
        ArithExpr::DividedBy(l, r) => {
            let a = eval_arith(&*l, env)?;
            let b = eval_arith(&*r, env)?;
            match a.checked_div(b) {
                Some(v) => Ok(v),
                None => Err(Error::new(ErrorKind::ArithmeticEvaluation(String::from_str(
                    "division by zero or overflow",
                )))),
            }
        },
    }
}

} // verus!
