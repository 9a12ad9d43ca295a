//! The command structures the engine executes.
//!
//! The shell grammar parser is an outside collaborator: it turns script text
//! into these structures.  The engine walks them; nothing here depends on how
//! the text was tokenized.

use std::rc::Rc;
use vstd::prelude::*;

verus! {

/// One piece of a word before expansion.
#[derive(Debug)]
pub enum WordPiece {
    /// Literal text.
    Literal(String),
    /// `$name` or `${name}`: the variable's scalar value, or empty.
    Variable(String),
    /// `"$@"`: the positional parameters joined by single spaces.
    AllPositionals,
}

/// A word of a command, as a sequence of pieces.
#[derive(Debug)]
pub struct Word {
    pub pieces: Vec<WordPiece>,
}

/// A redirection operator attached to a command.
#[derive(Debug)]
pub enum Redirect {
    /// `N> target` or `N>> target`.
    OutputTo { fd: usize, target: Word, append: bool },
    /// `N>&M`.
    DupFd { fd: usize, from: usize },
    /// `N>&-`.
    CloseFd { fd: usize },
}

/// A simple command: assignment prefixes, the command words, redirections.
#[derive(Debug)]
pub struct SimpleCommand {
    pub assignments: Vec<(String, Word)>,
    pub words: Vec<Word>,
    pub redirects: Vec<Redirect>,
}

/// A command of a pipeline.
#[derive(Debug)]
pub enum Command {
    Simple(SimpleCommand),
    /// `{ ...; }` — same shell state; redirections scoped to the group.
    Group { body: Program, redirects: Vec<Redirect> },
    /// `( ... )` — a copied shell state; mutations are discarded.
    Subshell { body: Program },
    /// `name() { ...; }` — registers the body under the name.  The body is
    /// shared so that registration does not copy the parsed structure.
    FunctionDef { name: String, body: Rc<Program> },
    /// `if guard; then body; [else body;] fi`.
    If { cond: Program, then_body: Program, else_body: Program },
    /// `while guard; do body; done`.
    While { cond: Program, body: Program },
    /// `until guard; do body; done`.
    Until { cond: Program, body: Program },
    /// `for var in words; do body; done`.
    ForIn { var: String, words: Vec<Word>, body: Program },
    /// `case subject in arms esac`.
    Case { subject: Word, arms: Vec<CaseArm> },
}

/// How one `case` arm ends.
#[derive(Clone, Copy, PartialEq, Eq, Structural, Debug)]
pub enum CaseArmMode {
    /// `;;` — the matched arm is the last to run.
    Stop,
    /// `;&` — the next arm's body runs too, without a match.
    FallThrough,
    /// `;;&` — matching continues with the following arms.
    ContinueMatching,
}

/// One arm of a `case` command.
#[derive(Debug)]
pub struct CaseArm {
    pub patterns: Vec<Word>,
    pub body: Program,
    pub mode: CaseArmMode,
}

/// `!`-negation plus the stages of `a | b | c`.
#[derive(Debug)]
pub struct Pipeline {
    pub negate: bool,
    pub stages: Vec<Command>,
}

/// The connective between two pipelines of an and-or list.
#[derive(Clone, Copy, PartialEq, Eq, Structural, Debug)]
pub enum AndOrOp {
    And,
    Or,
}

/// `a && b || c ...`: short-circuit, left to right.
#[derive(Debug)]
pub struct AndOrList {
    pub first: Pipeline,
    pub rest: Vec<(AndOrOp, Pipeline)>,
}

/// A whole program: and-or lists in sequence.
#[derive(Debug)]
pub struct Program {
    pub items: Vec<AndOrList>,
}

/// A registered function: its parsed body plus attributes.
#[derive(Debug)]
pub struct FunctionDefinition {
    pub body: Rc<Program>,
    pub exported: bool,
    pub traced: bool,
}

/// An argument handed to a declaration-aware builtin: a plain word, or an
/// assignment whose structure is preserved.
#[derive(Debug)]
pub enum CommandArg {
    Word(String),
    Assignment(String, String),
}

/// A unary predicate of a test expression.
#[derive(Clone, Copy, PartialEq, Eq, Structural, Debug)]
pub enum UnaryPredicate {
    /// `-n`: the operand is non-empty.
    StringHasNonZeroLength,
    /// `-z`: the operand is empty.
    StringHasZeroLength,
}

/// A binary predicate of a test expression.
#[derive(Clone, Copy, PartialEq, Eq, Structural, Debug)]
pub enum BinaryPredicate {
    /// `=` / `==`.
    StringsEqual,
    /// `!=`.
    StringsNotEqual,
    /// `<` (lexicographic).
    LeftSortsBeforeRight,
    /// `>` (lexicographic).
    LeftSortsAfterRight,
    /// `-eq`.
    ArithmeticEqual,
    /// `-ne`.
    ArithmeticNotEqual,
    /// `-lt`.
    ArithmeticLessThan,
    /// `-le`.
    ArithmeticLessThanOrEqual,
    /// `-gt`.
    ArithmeticGreaterThan,
    /// `-ge`.
    ArithmeticGreaterThanOrEqual,
}

/// A test conditional expression, as the test-expression parser produces it.
#[derive(Debug)]
pub enum TestExpr {
    False,
    Literal(String),
    And(Box<TestExpr>, Box<TestExpr>),
    Or(Box<TestExpr>, Box<TestExpr>),
    Not(Box<TestExpr>),
    Parenthesized(Box<TestExpr>),
    UnaryTest(UnaryPredicate, String),
    BinaryTest(BinaryPredicate, String, String),
}

/// An arithmetic expression, as the arithmetic parser produces it.
#[derive(Debug)]
pub enum ArithExpr {
    Literal(i64),
    Variable(String),
    Plus(Box<ArithExpr>, Box<ArithExpr>),
    Minus(Box<ArithExpr>, Box<ArithExpr>),
    Times(Box<ArithExpr>, Box<ArithExpr>),
    DividedBy(Box<ArithExpr>, Box<ArithExpr>),
}

} // verus!
