//! Evaluation of test conditional expressions, and the POSIX `test` argument
//! rules that build them.

use vstd::prelude::*;

use crate::ast::{BinaryPredicate, TestExpr, UnaryPredicate};
use crate::error::{Error, ErrorKind};
use crate::strings::{lex_lt, parse_i64, spec_parse_i64, str_eq, str_lt};

verus! {

/// What a test expression evaluates to: `None` where an arithmetic operand is
/// not a number the engine accepts.  `&&` and `||` short-circuit, so an error
/// in an unreached right operand is not observed.
pub open spec fn spec_eval_test(e: TestExpr) -> Option<bool>
    decreases e,
{
    match e {
        TestExpr::False => Some(false),
        TestExpr::Literal(s) => Some(s@.len() > 0),
        TestExpr::And(l, r) => match spec_eval_test(*l) {
            None => None,
            Some(false) => Some(false),
            Some(true) => spec_eval_test(*r),
        },
        TestExpr::Or(l, r) => match spec_eval_test(*l) {
            None => None,
            Some(true) => Some(true),
            Some(false) => spec_eval_test(*r),
        },
        TestExpr::Not(i) => match spec_eval_test(*i) {
            None => None,
            Some(b) => Some(!b),
        },
        TestExpr::Parenthesized(i) => spec_eval_test(*i),
        TestExpr::UnaryTest(op, s) => match op {
            UnaryPredicate::StringHasNonZeroLength => Some(s@.len() > 0),
            UnaryPredicate::StringHasZeroLength => Some(s@.len() == 0),
        },
        TestExpr::BinaryTest(op, l, r) => match op {
            BinaryPredicate::StringsEqual => Some(l@ == r@),
            BinaryPredicate::StringsNotEqual => Some(l@ != r@),
            BinaryPredicate::LeftSortsBeforeRight => Some(lex_lt(l@, r@)),
            BinaryPredicate::LeftSortsAfterRight => Some(lex_lt(r@, l@)),
            _ => match (spec_parse_i64(l@), spec_parse_i64(r@)) {
                (Some(a), Some(b)) => Some(spec_int_predicate(op, a, b)),
                _ => None,
            },
        },
    }
}

/// The comparison an arithmetic binary predicate makes.
pub open spec fn spec_int_predicate(op: BinaryPredicate, a: i64, b: i64) -> bool {
    match op {
        BinaryPredicate::ArithmeticEqual => a == b,
        BinaryPredicate::ArithmeticNotEqual => a != b,
        BinaryPredicate::ArithmeticLessThan => a < b,
        BinaryPredicate::ArithmeticLessThanOrEqual => a <= b,
        BinaryPredicate::ArithmeticGreaterThan => a > b,
        BinaryPredicate::ArithmeticGreaterThanOrEqual => a >= b,
        _ => false,
    }
}

/// Evaluates a test conditional expression.  An arithmetic comparison on a
/// non-number reports the offending operand text as the error.
pub fn eval_expr(expr: &TestExpr) -> (r: Result<bool, Error>)
    ensures
        match spec_eval_test(*expr) {
            Some(b) => r matches Ok(v) && v == b,
            None => r matches Err(e) && e.kind is TestCommandParseError,
        },
    decreases *expr,
{
    match expr {
        TestExpr::False => Ok(false),
        TestExpr::Literal(s) => Ok(s.as_str().unicode_len() > 0),
        TestExpr::And(l, r) => {
            match eval_expr(&*l) {
                Err(e) => Err(e),
                Ok(false) => Ok(false),
                Ok(true) => eval_expr(&*r),
            }
        },
        TestExpr::Or(l, r) => {
            match eval_expr(&*l) {
                Err(e) => Err(e),
                Ok(true) => Ok(true),
                Ok(false) => eval_expr(&*r),
            }
        },
        TestExpr::Not(i) => {
            match eval_expr(&*i) {
                Err(e) => Err(e),
                Ok(b) => Ok(!b),
            }
        },
        TestExpr::Parenthesized(i) => eval_expr(&*i),
        TestExpr::UnaryTest(op, s) => match op {
            UnaryPredicate::StringHasNonZeroLength => Ok(s.as_str().unicode_len() > 0),
            UnaryPredicate::StringHasZeroLength => Ok(s.as_str().unicode_len() == 0),
        },
        TestExpr::BinaryTest(op, l, r) => match op {
            BinaryPredicate::StringsEqual => Ok(str_eq(l.as_str(), r.as_str())),
            BinaryPredicate::StringsNotEqual => Ok(!str_eq(l.as_str(), r.as_str())),
            BinaryPredicate::LeftSortsBeforeRight => Ok(str_lt(l.as_str(), r.as_str())),
            BinaryPredicate::LeftSortsAfterRight => Ok(str_lt(r.as_str(), l.as_str())),
            _ => {
                let a = match parse_i64(l.as_str()) {
                    Some(v) => v,
                    None => {
                        return Err(Error::new(ErrorKind::TestCommandParseError(l.clone())));
                    },
                };
                let b = match parse_i64(r.as_str()) {
                    Some(v) => v,
                    None => {
                        return Err(Error::new(ErrorKind::TestCommandParseError(r.clone())));
                    },
                };
                let res = match op {
                    BinaryPredicate::ArithmeticEqual => a == b,
                    BinaryPredicate::ArithmeticNotEqual => a != b,
                    BinaryPredicate::ArithmeticLessThan => a < b,
                    BinaryPredicate::ArithmeticLessThanOrEqual => a <= b,
                    BinaryPredicate::ArithmeticGreaterThan => a > b,
                    BinaryPredicate::ArithmeticGreaterThanOrEqual => a >= b,
                    _ => false,
                };
                Ok(res)
            },
        },
    }
}

/// The binary predicate an operator word names, if any.
pub open spec fn spec_binary_op(w: Seq<char>) -> Option<BinaryPredicate> {
    if w == "="@ || w == "=="@ {
        Some(BinaryPredicate::StringsEqual)
    } else if w == "!="@ {
        Some(BinaryPredicate::StringsNotEqual)
    } else if w == "<"@ {
        Some(BinaryPredicate::LeftSortsBeforeRight)
    } else if w == ">"@ {
        Some(BinaryPredicate::LeftSortsAfterRight)
    } else if w == "-eq"@ {
        Some(BinaryPredicate::ArithmeticEqual)
    } else if w == "-ne"@ {
        Some(BinaryPredicate::ArithmeticNotEqual)
    } else if w == "-lt"@ {
        Some(BinaryPredicate::ArithmeticLessThan)
    } else if w == "-le"@ {
        Some(BinaryPredicate::ArithmeticLessThanOrEqual)
    } else if w == "-gt"@ {
        Some(BinaryPredicate::ArithmeticGreaterThan)
    } else if w == "-ge"@ {
        Some(BinaryPredicate::ArithmeticGreaterThanOrEqual)
    } else {
        None
    }
}

fn binary_op_of(w: &str) -> (r: Option<BinaryPredicate>)
    ensures
        r == spec_binary_op(w@),
{
    if str_eq(w, "=") || str_eq(w, "==") {
        Some(BinaryPredicate::StringsEqual)
    } else if str_eq(w, "!=") {
        Some(BinaryPredicate::StringsNotEqual)
    } else if str_eq(w, "<") {
        Some(BinaryPredicate::LeftSortsBeforeRight)
    } else if str_eq(w, ">") {
        Some(BinaryPredicate::LeftSortsAfterRight)
    } else if str_eq(w, "-eq") {
        Some(BinaryPredicate::ArithmeticEqual)
    } else if str_eq(w, "-ne") {
        Some(BinaryPredicate::ArithmeticNotEqual)
    } else if str_eq(w, "-lt") {
        Some(BinaryPredicate::ArithmeticLessThan)
    } else if str_eq(w, "-le") {
        Some(BinaryPredicate::ArithmeticLessThanOrEqual)
    } else if str_eq(w, "-gt") {
        Some(BinaryPredicate::ArithmeticGreaterThan)
    } else if str_eq(w, "-ge") {
        Some(BinaryPredicate::ArithmeticGreaterThanOrEqual)
    } else {
        None
    }
}

/// What `test` with these arguments decides, by the POSIX argument-count
/// rules: no arguments is false, one argument is its non-emptiness, `!`
/// negates the rest, `-n`/`-z` and the binary operators test their operands,
/// and parentheses group.  `None` marks an argument list that is not a test
/// expression, or an arithmetic comparison on a non-number.
pub open spec fn spec_test_args(args: Seq<Seq<char>>) -> Option<bool>
    decreases args.len(),
{
    if args.len() == 0 {
        Some(false)
    } else if args.len() == 1 {
        Some(args[0].len() > 0)
    } else if args[0] == "!"@ {
        match spec_test_args(args.drop_first()) {
            None => None,
            Some(b) => Some(!b),
        }
    } else if args.len() == 2 {
        if args[0] == "-n"@ {
            Some(args[1].len() > 0)
        } else if args[0] == "-z"@ {
            Some(args[1].len() == 0)
        } else {
            None
        }
    } else if args.len() == 3 {
        match spec_binary_op(args[1]) {
            Some(op) => match op {
                BinaryPredicate::StringsEqual => Some(args[0] == args[2]),
                BinaryPredicate::StringsNotEqual => Some(args[0] != args[2]),
                BinaryPredicate::LeftSortsBeforeRight => Some(lex_lt(args[0], args[2])),
                BinaryPredicate::LeftSortsAfterRight => Some(lex_lt(args[2], args[0])),
                _ => match (spec_parse_i64(args[0]), spec_parse_i64(args[2])) {
                    (Some(a), Some(b)) => Some(spec_int_predicate(op, a, b)),
                    _ => None,
                },
            },
            None => {
                if args[0] == "("@ && args[2] == ")"@ {
                    Some(args[1].len() > 0)
                } else {
                    None
                }
            },
        }
    } else {
        None
    }
}

/// Builds and evaluates the test expression the argument list denotes, as
/// the `test` and `[` builtins do.
pub fn execute_test(args: &Vec<String>) -> (r: Result<bool, Error>)
    ensures
        match spec_test_args(args.deep_view()) {
            Some(b) => r matches Ok(v) && v == b,
            None => r matches Err(e) && e.kind is TestCommandParseError,
        },
    decreases args@.len(),
{
    let n = args.len();
    proof {
        assert(args.deep_view().len() == args@.len());
        assert forall|i: int| 0 <= i < args@.len() implies args.deep_view()[i] == args@[i]@ by {}
    }
    if n == 0 {
        Ok(false)
    } else if n == 1 {
        Ok(args[0].as_str().unicode_len() > 0)
    } else if str_eq(args[0].as_str(), "!") {
        let mut rest: Vec<String> = Vec::new();
        let mut i: usize = 1;
        while i < n
            invariant
                1 <= i <= n,
                n == args@.len(),
                rest@.len() == i - 1,
                forall|j: int| 0 <= j < i - 1 ==> (#[trigger] rest@[j])@ == args@[j + 1]@,
            decreases n - i,
        {
            rest.push(args[i].clone());
            i = i + 1;
        }
        proof {
            assert(rest.deep_view() =~= args.deep_view().drop_first());
        }
        match execute_test(&rest) {
            Ok(b) => Ok(!b),
            Err(e) => Err(e),
        }
    } else if n == 2 {
        if str_eq(args[0].as_str(), "-n") {
            Ok(args[1].as_str().unicode_len() > 0)
        } else if str_eq(args[0].as_str(), "-z") {
            Ok(args[1].as_str().unicode_len() == 0)
        } else {
            Err(Error::new(ErrorKind::TestCommandParseError(args[0].clone())))
        }
    } else if n == 3 {
        match binary_op_of(args[1].as_str()) {
            Some(op) => {
                let e = TestExpr::BinaryTest(op, args[0].clone(), args[2].clone());
                let r = eval_expr(&e);
                proof {
                    if spec_eval_test(e) is None {
                        assert(spec_test_args(args.deep_view()) is None);
                    }
                }
                r
            },
            None => {
                if str_eq(args[0].as_str(), "(") && str_eq(args[2].as_str(), ")") {
                    Ok(args[1].as_str().unicode_len() > 0)
                } else {
                    Err(Error::new(ErrorKind::TestCommandParseError(args[1].clone())))
                }
            },
        }
    } else {
        Err(Error::new(ErrorKind::TestCommandParseError(args[0].clone())))
    }
}

} // verus!
