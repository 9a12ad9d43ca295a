//! The engine's structured errors.

use vstd::prelude::*;

verus! {

/// Everything that can go wrong inside the engine.  Host-facing calls return
/// these; shell-internal call sites convert them into an exit code plus a
/// message on the error stream and keep running.
#[derive(Clone, PartialEq, Eq, Debug)]
pub enum ErrorKind {
    /// The script text could not be parsed.
    Parse(String),
    /// A filesystem, descriptor or pipe operation failed.
    Io(String),
    /// A command word resolved to nothing.
    CommandNotFound(String),
    /// `builtin` was asked for a builtin that is absent or disabled.
    BuiltinNotFound(String),
    /// The argument list of `test` / `[` is not a test expression.
    TestCommandParseError(String),
    /// An arithmetic expression could not be evaluated.
    ArithmeticEvaluation(String),
    /// An assignment targeted something that cannot be assigned.
    InvalidVariableName(String),
    /// An assignment targeted a readonly variable.
    ReadOnlyVariable(String),
    /// A signal name or number is not recognized.
    InvalidSignal(String),
    /// A redirection operator could not be applied.
    InvalidRedirection,
    /// The platform layer has no equivalent for the requested operation.
    NotSupportedOnThisPlatform(String),
    /// The engine knowingly does not implement the requested feature.
    Unimplemented(String),
}

/// An engine error: a kind plus nothing else.
#[derive(Clone, PartialEq, Eq, Debug)]
pub struct Error {
    pub kind: ErrorKind,
}

/// The message text each error renders as.
pub open spec fn spec_message(kind: ErrorKind) -> Seq<char> {
    match kind {
        ErrorKind::Parse(s) => "parse error: "@ + s@,
        ErrorKind::Io(s) => "i/o error: "@ + s@,
        ErrorKind::CommandNotFound(s) => s@ + ": command not found"@,
        ErrorKind::BuiltinNotFound(s) => s@ + ": builtin not found"@,
        ErrorKind::TestCommandParseError(s) => "invalid test expression: "@ + s@,
        ErrorKind::ArithmeticEvaluation(s) => "arithmetic evaluation error: "@ + s@,
        ErrorKind::InvalidVariableName(s) => "invalid variable name: "@ + s@,
        ErrorKind::ReadOnlyVariable(s) => s@ + ": readonly variable"@,
        ErrorKind::InvalidSignal(s) => "invalid signal: "@ + s@,
        ErrorKind::InvalidRedirection => "invalid redirection"@,
        ErrorKind::NotSupportedOnThisPlatform(s) => "not supported on this platform: "@ + s@,
        ErrorKind::Unimplemented(s) => "not yet implemented: "@ + s@,
    }
}

impl Error {
    /// Wraps a kind.
    pub fn new(kind: ErrorKind) -> (r: Error)
        ensures
            r.kind == kind,
    {
        Error { kind }
    }

    /// Renders the error as human-readable text.
    pub fn message(&self) -> (r: String)
        ensures
            r@ == spec_message(self.kind),
    {
        match &self.kind {
            ErrorKind::Parse(s) => String::from_str("parse error: ").concat(s.as_str()),
            ErrorKind::Io(s) => String::from_str("i/o error: ").concat(s.as_str()),
            ErrorKind::CommandNotFound(s) => s.clone().concat(": command not found"),
            ErrorKind::BuiltinNotFound(s) => s.clone().concat(": builtin not found"),
            ErrorKind::TestCommandParseError(s) => String::from_str(
                "invalid test expression: ",
            ).concat(s.as_str()),
            ErrorKind::ArithmeticEvaluation(s) => String::from_str(
                "arithmetic evaluation error: ",
            ).concat(s.as_str()),
            ErrorKind::InvalidVariableName(s) => String::from_str(
                "invalid variable name: ",
            ).concat(s.as_str()),
            ErrorKind::ReadOnlyVariable(s) => s.clone().concat(": readonly variable"),
            ErrorKind::InvalidSignal(s) => String::from_str("invalid signal: ").concat(s.as_str()),
            ErrorKind::InvalidRedirection => String::from_str("invalid redirection"),
            ErrorKind::NotSupportedOnThisPlatform(s) => String::from_str(
                "not supported on this platform: ",
            ).concat(s.as_str()),
            ErrorKind::Unimplemented(s) => String::from_str("not yet implemented: ").concat(
                s.as_str(),
            ),
        }
    }

    /// Reports an unimplemented feature, as the engine's internal call sites do.
    pub fn unimp(what: &str) -> (r: Error)
        ensures
            r.kind matches ErrorKind::Unimplemented(s) && s@ == what@,
    {
        Error { kind: ErrorKind::Unimplemented(String::from_str(what)) }
    }
}

impl From<ErrorKind> for Error {
    /// An error is its kind.
    fn from(kind: ErrorKind) -> (r: Error) {
        Error { kind }
    }
}

impl vstd::std_specs::convert::FromSpecImpl<ErrorKind> for Error {
    open spec fn obeys_from_spec() -> bool {
        true
    }

    open spec fn from_spec(kind: ErrorKind) -> Error {
        Error { kind }
    }
}

/// Renders an error for display to a user, optionally with ANSI color: the
/// prefix `error: ` (colored red when requested), the message, and a newline.
pub open spec fn spec_formatted_error(kind: ErrorKind, use_color: bool) -> Seq<char> {
    let prefix = if use_color {
        "\u{1b}[31merror:\u{1b}[39m "@
    } else {
        "error: "@
    };
    prefix + spec_message(kind) + "\n"@
}

/// Formats errors for an interactive front end.
pub struct Formatter {
    pub use_color: bool,
}

impl Formatter {
    /// Renders `err` with the `error: ` prefix and a trailing newline.
    pub fn format_error(&self, err: &Error) -> (r: String)
        ensures
            r@ == spec_formatted_error(err.kind, self.use_color),
    {
        let prefix = if self.use_color {
            "\u{1b}[31merror:\u{1b}[39m "
        } else {
            "error: "
        };
        String::from_str(prefix).concat(err.message().as_str()).concat("\n")
    }
}

} // verus!
