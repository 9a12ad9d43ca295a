//! Execution results: exit codes and control-flow dispositions.

use vstd::prelude::*;

verus! {

/// Well-known exit codes: 0 success, 1 general failure, 2 invalid usage,
/// 126 not executable, 127 not found, and a sentinel for commands or options
/// the engine knowingly does not implement (rendered as 99).
#[derive(Clone, Copy, PartialEq, Eq, Structural, Debug)]
pub enum ExecutionExitCode {
    Success,
    GeneralError,
    InvalidUsage,
    NotExecutable,
    NotFound,
    Unimplemented,
}

impl ExecutionExitCode {
    /// The numeric value each code renders as.
    pub open spec fn spec_as_u8(self) -> u8 {
        match self {
            ExecutionExitCode::Success => 0,
            ExecutionExitCode::GeneralError => 1,
            ExecutionExitCode::InvalidUsage => 2,
            ExecutionExitCode::NotExecutable => 126,
            ExecutionExitCode::NotFound => 127,
            ExecutionExitCode::Unimplemented => 99,
        }
    }

    /// Renders the code as its numeric value.
    pub fn as_u8(self) -> (code: u8)
        ensures
            code == self.spec_as_u8(),
    {
        match self {
            ExecutionExitCode::Success => 0,
            ExecutionExitCode::GeneralError => 1,
            ExecutionExitCode::InvalidUsage => 2,
            ExecutionExitCode::NotExecutable => 126,
            ExecutionExitCode::NotFound => 127,
            ExecutionExitCode::Unimplemented => 99,
        }
    }
}

/// The non-normal disposition a statement's execution can carry besides its
/// exit code: `break N`, `continue N`, `return` out of a function, or `exit`
/// out of the whole execution call.
#[derive(Clone, Copy, PartialEq, Eq, Structural, Debug)]
pub enum ExecutionControlFlow {
    Normal,
    Break(u32),
    Continue(u32),
    ReturnFromFunction,
    ExitShell,
}

/// The outcome of executing a statement or a whole program: a numeric exit
/// code plus the control-flow disposition the enclosing construct must honor.
#[derive(Clone, Copy, PartialEq, Eq, Structural, Debug)]
pub struct ExecutionResult {
    pub exit_code: u8,
    pub control_flow: ExecutionControlFlow,
}

impl ExecutionResult {
    /// A normal result carrying the given exit code.
    pub fn new(exit_code: u8) -> (r: ExecutionResult)
        ensures
            r.exit_code == exit_code,
            r.control_flow == ExecutionControlFlow::Normal,
    {
        ExecutionResult { exit_code, control_flow: ExecutionControlFlow::Normal }
    }

    /// The successful result: exit 0, normal flow.
    pub fn success() -> (r: ExecutionResult)
        ensures
            r.exit_code == 0,
            r.control_flow == ExecutionControlFlow::Normal,
    {
        ExecutionResult { exit_code: 0, control_flow: ExecutionControlFlow::Normal }
    }

    /// The general failure result: exit 1, normal flow.
    pub fn general_error() -> (r: ExecutionResult)
        ensures
            r.exit_code == 1,
            r.control_flow == ExecutionControlFlow::Normal,
    {
        ExecutionResult { exit_code: 1, control_flow: ExecutionControlFlow::Normal }
    }

    /// A normal result carrying the numeric value of a well-known code.
    pub fn from_exit_code(code: ExecutionExitCode) -> (r: ExecutionResult)
        ensures
            r.exit_code == code.spec_as_u8(),
            r.control_flow == ExecutionControlFlow::Normal,
    {
        ExecutionResult { exit_code: code.as_u8(), control_flow: ExecutionControlFlow::Normal }
    }

    /// Whether the result reports success.
    pub fn is_success(&self) -> (b: bool)
        ensures
            b == (self.exit_code == 0),
    {
        self.exit_code == 0
    }
}

} // verus!
