//! The execution engine: a recursive evaluator over the command structures,
//! dispatching through builtins and registered functions against the shell
//! state.

use vstd::prelude::*;

use crate::ast::{
    AndOrList, AndOrOp, ArithExpr, Command, CommandArg, FunctionDefinition, Pipeline, Program,
    Redirect, SimpleCommand, Word, WordPiece,
};
use crate::env::{EnvironmentLookup, EnvironmentScope, VariableMutation};
use crate::error::{Error, ErrorKind};
use crate::openfiles::{IoStore, OpenFile, OpenFiles, io_extends, lemma_wf_for_extend, write_via_fd};
use crate::results::{ExecutionControlFlow, ExecutionExitCode, ExecutionResult};
use crate::shell::{BuiltinKind, Shell, rc_clone};
use crate::variables::{ShellValue, ShellValueLiteral};

verus! {

/// How a spawned child relates to process groups; carried through for the
/// host, the in-process engine does not act on it.
#[derive(Clone, Copy, PartialEq, Eq, Structural, Debug)]
pub enum ProcessGroupPolicy {
    Inherit,
    NewGroup,
    Foreground,
}

/// CPU-time readings the host hands in for the `times` builtin: seconds and
/// milliseconds of user and system time, for the shell and its children.
#[derive(Clone, Copy, Debug)]
pub struct CpuTimes {
    pub self_user: (u64, u64),
    pub self_system: (u64, u64),
    pub children_user: (u64, u64),
    pub children_system: (u64, u64),
}

impl CpuTimes {
    /// Millisecond parts in range.
    pub open spec fn wf(self) -> bool {
        self.self_user.1 < 1000 && self.self_system.1 < 1000 && self.children_user.1 < 1000
            && self.children_system.1 < 1000
    }
}

/// The per-call controls of one execution: the open-file table the call
/// starts from, the process-group policy for children, whether the call's
/// cancellation token has fired, and the host's CPU-time readings for the
/// `times` builtin (absent when no host supplies them).
#[derive(Debug)]
pub struct ExecutionParameters {
    pub open_files: OpenFiles,
    pub process_group_policy: ProcessGroupPolicy,
    pub cancelled: bool,
    pub cpu_times: Option<CpuTimes>,
}

/// The exit code reported for a command cut short by cancellation, as for
/// termination by SIGINT.
pub open spec fn spec_cancel_code() -> u8 {
    130
}

/// The text a variable contributes to word expansion: its scalar value, the
/// first element of an indexed array, or nothing.
pub open spec fn spec_var_text(env: crate::env::ShellEnvironment, name: Seq<char>) -> Seq<char> {
    match env.spec_lookup(name) {
        Some(var) => match var.value {
            ShellValue::Scalar(s) => s@,
            ShellValue::Indexed(els) => if els@.len() > 0 {
                els@[0]@
            } else {
                Seq::<char>::empty()
            },
        },
        None => Seq::<char>::empty(),
    }
}

/// What one word piece expands to.
pub open spec fn spec_expand_piece(
    env: crate::env::ShellEnvironment,
    positional: Seq<Seq<char>>,
    p: WordPiece,
) -> Seq<char> {
    match p {
        WordPiece::Literal(s) => s@,
        WordPiece::Variable(name) => spec_var_text(env, name@),
        WordPiece::AllPositionals => crate::builtins::spec_join_words(positional),
    }
}

/// What a word expands to: its pieces, concatenated.
pub open spec fn spec_expand_pieces(
    env: crate::env::ShellEnvironment,
    positional: Seq<Seq<char>>,
    pieces: Seq<WordPiece>,
) -> Seq<char>
    decreases pieces.len(),
{
    if pieces.len() == 0 {
        Seq::<char>::empty()
    } else {
        spec_expand_pieces(env, positional, pieces.drop_last()) + spec_expand_piece(
            env,
            positional,
            pieces.last(),
        )
    }
}

/// Expands a word against the environment and the positional parameters.
pub fn expand_word(shell: &Shell, positional: &Vec<String>, w: &Word) -> (r: String)
    requires
        shell.wf(),
    ensures
        r@ == spec_expand_pieces(shell.env, positional.deep_view(), w.pieces@),
{
    let n = w.pieces.len();
    let mut out = String::new();
    let mut i: usize = 0;
    while i < n
        invariant
            i <= n,
            n == w.pieces@.len(),
            shell.wf(),
            out@ == spec_expand_pieces(shell.env, positional.deep_view(), w.pieces@.subrange(0, i as int)),
        decreases n - i,
    {
        match &w.pieces[i] {
            WordPiece::Literal(s) => {
                out.append(s.as_str());
            },
            WordPiece::Variable(name) => {
                match shell.env.get(name.as_str()) {
                    Some(var) => {
                        match &var.value {
                            ShellValue::Scalar(s) => {
                                out.append(s.as_str());
                            },
                            ShellValue::Indexed(els) => {
                                if els.len() > 0 {
                                    out.append(els[0].as_str());
                                }
                            },
                        }
                    },
                    None => {},
                }
            },
            WordPiece::AllPositionals => {
                out.append(crate::builtins::join_words(positional).as_str());
            },
        }
        proof {
            let ps = w.pieces@;
            assert(ps.subrange(0, i + 1).drop_last() =~= ps.subrange(0, i as int));
            assert(ps.subrange(0, i + 1).last() == ps[i as int]);
        }
        i = i + 1;
    }
    proof {
        assert(w.pieces@.subrange(0, n as int) =~= w.pieces@);
    }
    out
}

/// Whether `s` is a valid variable name: a letter or underscore, then
/// letters, digits and underscores.
pub open spec fn spec_is_name(s: Seq<char>) -> bool {
    s.len() > 0 && ('A' <= s[0] <= 'Z' || 'a' <= s[0] <= 'z' || s[0] == '_') && forall|i: int|
        0 < i < s.len() ==> ('A' <= #[trigger] s[i] <= 'Z' || 'a' <= s[i] <= 'z' || '0' <= s[i]
            <= '9' || s[i] == '_')
}

fn is_name_char(c: char, first: bool) -> (r: bool)
    ensures
        r == if first {
            ('A' <= c <= 'Z' || 'a' <= c <= 'z' || c == '_')
        } else {
            ('A' <= c <= 'Z' || 'a' <= c <= 'z' || '0' <= c <= '9' || c == '_')
        },
{
    let u = c as u32;
    let upper = u >= 65 && u <= 90;
    let lower = u >= 97 && u <= 122;
    let digit = u >= 48 && u <= 57;
    let under = u == 95;
    proof {
        vstd::utf8::char_u32_cast(c, c as u32);
        vstd::utf8::char_u32_cast('A', 'A' as u32);
    }
    if first {
        upper || lower || under
    } else {
        upper || lower || digit || under
    }
}

/// Splits an expanded word into a declaration argument.  The result is an
/// assignment exactly when the word holds a `=` whose prefix is a valid
/// variable name.
pub fn parse_command_arg(text: &String) -> (r: CommandArg)
    ensures
        match r {
            CommandArg::Assignment(name, value) => {
                &&& spec_is_name(name@)
                &&& text@ == name@ + "="@ + value@
            },
            CommandArg::Word(w) => w@ == text@,
        },
{
    let s = text.as_str();
    let n = s.unicode_len();
    let mut eq_pos: usize = 0;
    let mut found = false;
    let mut i: usize = 0;
    while i < n
        invariant
            i <= n,
            n == s@.len(),
            !found ==> forall|j: int| 0 <= j < i ==> s@[j] != '=',
            found ==> eq_pos < i && s@[eq_pos as int] == '=' && forall|j: int|
                0 <= j < eq_pos ==> s@[j] != '=',
        decreases n - i,
    {
        if !found && s.get_char(i) == '=' {
            eq_pos = i;
            found = true;
        }
        i = i + 1;
    }
    if !found || eq_pos == 0 {
        return CommandArg::Word(text.clone());
    }
    let mut k: usize = 0;
    while k < eq_pos
        invariant
            k <= eq_pos,
            eq_pos < n,
            n == s@.len(),
            s@[eq_pos as int] == '=',
            k > 0 ==> ('A' <= s@[0] <= 'Z' || 'a' <= s@[0] <= 'z' || s@[0] == '_'),
            forall|j: int|
                0 < j < k ==> ('A' <= #[trigger] s@[j] <= 'Z' || 'a' <= s@[j] <= 'z' || '0'
                    <= s@[j] <= '9' || s@[j] == '_'),
        decreases eq_pos - k,
    {
        let c = s.get_char(k);
        if !is_name_char(c, k == 0) {
            return CommandArg::Word(text.clone());
        }
        k = k + 1;
    }
    let name = String::from_str(s.substring_char(0, eq_pos));
    let value = String::from_str(s.substring_char(eq_pos + 1, n));
    proof {
        assert(spec_is_name(name@));
        reveal_strlit("=");
        assert(("="@).len() == 1);
        assert(("="@)[0] == '=');
        assert(text@ =~= name@ + "="@ + value@);
    }
    CommandArg::Assignment(name, value)
}

/// The exit code of a pipeline from its stages' codes: the last stage's, or
/// with `pipefail` the rightmost non-zero one (0 when every stage
/// succeeded).
pub open spec fn spec_pipeline_code(codes: Seq<u8>, pipefail: bool) -> u8
    decreases codes.len(),
{
    if codes.len() == 0 {
        0
    } else if !pipefail {
        codes.last()
    } else if codes.last() != 0 {
        codes.last()
    } else {
        spec_pipeline_code(codes.drop_last(), pipefail)
    }
}

/// `!`-negation of an exit code: zero and non-zero trade places.
pub open spec fn spec_negate_code(c: u8) -> u8 {
    if c == 0 {
        1
    } else {
        0
    }
}

fn rightmost_nonzero(codes: &Vec<u8>) -> (r: u8)
    ensures
        r == spec_pipeline_code(codes@, true),
{
    let n = codes.len();
    let mut i = n;
    proof {
        assert(codes@.subrange(0, n as int) =~= codes@);
    }
    loop
        invariant
            i <= n,
            n == codes@.len(),
            spec_pipeline_code(codes@, true) == spec_pipeline_code(
                codes@.subrange(0, i as int),
                true,
            ),
        decreases i,
    {
        if i == 0 {
            proof {
                assert(codes@.subrange(0, 0) =~= Seq::<u8>::empty());
            }
            return 0;
        }
        let c = codes[i - 1];
        proof {
            let pre = codes@.subrange(0, i as int);
            assert(pre.last() == codes@[i - 1]);
            assert(pre.drop_last() =~= codes@.subrange(0, i - 1));
        }
        if c != 0 {
            return c;
        }
        i = i - 1;
    }
}

/// Combines stage exit codes into the pipeline's code.
pub fn pipeline_exit_code(codes: &Vec<u8>, pipefail: bool, negate: bool) -> (r: u8)
    ensures
        !negate ==> r == spec_pipeline_code(codes@, pipefail),
        negate ==> r == spec_negate_code(spec_pipeline_code(codes@, pipefail)),
{
    let n = codes.len();
    let code: u8 = if n == 0 {
        0
    } else if !pipefail {
        let c = codes[n - 1];
        proof {
            assert(codes@.last() == codes@[n - 1]);
        }
        c
    } else {
        rightmost_nonzero(codes)
    };
    if negate {
        if code == 0 {
            1
        } else {
            0
        }
    } else {
        code
    }
}

/// Applies redirections to a frame's table, left to right: `>`/`>>` open a
/// file of the store for writing, `N>&M` duplicates, `N>&-` closes.
fn apply_redirects(
    shell: &Shell,
    io: &mut IoStore,
    table: &mut OpenFiles,
    positional: &Vec<String>,
    redirects: &Vec<Redirect>,
) -> (r: Result<(), Error>)
    requires
        shell.wf(),
        old(table).wf_for(*old(io)),
    ensures
        final(table).wf_for(*final(io)),
        io_extends(*final(io), *old(io)),
        redirects@.len() == 0 ==> r is Ok,
        redirects@.len() == 0 ==> forall|fd: int|
            final(table).spec_get(fd) == old(table).spec_get(fd),
        redirects@.len() == 0 ==> final(io).buffers@ =~= old(io).buffers@ && final(io).files@
            =~= old(io).files@ && final(io).pending@ == old(io).pending@,
{
    let n = redirects.len();
    let mut i: usize = 0;
    while i < n
        invariant
            i <= n,
            shell.wf(),
            n == redirects@.len(),
            table.wf_for(*io),
            io_extends(*io, *old(io)),
            n == 0 ==> forall|fd: int| table.spec_get(fd) == old(table).spec_get(fd),
            n == 0 ==> io.buffers@ =~= old(io).buffers@ && io.files@ =~= old(io).files@
                && io.pending@ == old(io).pending@,
        decreases n - i,
    {
        match &redirects[i] {
            Redirect::OutputTo { fd, target, append } => {
                let name = expand_word(shell, positional, target);
                let ghost pre_io = *io;
                let id = io.open_file_for_write(name.as_str(), *append);
                proof {
                    lemma_wf_for_extend(*table, pre_io, *io);
                }
                let ghost tpre = *table;
                table.set_fd(*fd, OpenFile::FileWrite(id));
                proof {
                    assert forall|k: int| 0 <= k < table.files@.len() implies match (
                    #[trigger] table.files@[k]) {
                        Some(f) => crate::openfiles::file_wf(f, *io),
                        None => true,
                    } by {
                        assert(table.files@[k] == table.spec_get(k));
                        if k != fd {
                            assert(table.spec_get(k) == tpre.spec_get(k));
                        }
                    }
                }
            },
            Redirect::DupFd { fd, from } => {
                let ghost tpre = *table;
                let dup_result = table.dup(*from, *fd);
                proof {
                    assert forall|k: int| 0 <= k < table.files@.len() implies match (
                    #[trigger] table.files@[k]) {
                        Some(f) => crate::openfiles::file_wf(f, *io),
                        None => true,
                    } by {
                        assert(table.files@[k] == table.spec_get(k));
                        if k != fd {
                            assert(table.spec_get(k) == tpre.spec_get(k));
                        } else {
                            if tpre.spec_get(*from as int) is Some {
                                assert(table.spec_get(k) == tpre.spec_get(*from as int));
                            } else {
                                assert(table.spec_get(k) == tpre.spec_get(k));
                            }
                        }
                    }
                }
                match dup_result {
                    Ok(_) => {},
                    Err(e) => {
                        return Err(e);
                    },
                }
            },
            Redirect::CloseFd { fd } => {
                let ghost tpre = *table;
                table.close(*fd);
                proof {
                    assert forall|k: int| 0 <= k < table.files@.len() implies match (
                    #[trigger] table.files@[k]) {
                        Some(f) => crate::openfiles::file_wf(f, *io),
                        None => true,
                    } by {
                        assert(table.files@[k] == table.spec_get(k));
                        if k != fd {
                            assert(table.spec_get(k) == tpre.spec_get(k));
                        }
                    }
                }
            },
        }
        i = i + 1;
    }
    Ok(())
}

/// The exit code an engine-internal error is reported as.
pub open spec fn spec_error_code(kind: ErrorKind) -> u8 {
    match kind {
        ErrorKind::CommandNotFound(_) => 127,
        ErrorKind::BuiltinNotFound(_) => 127,
        ErrorKind::Unimplemented(_) => 99,
        ErrorKind::Parse(_) => 2,
        ErrorKind::TestCommandParseError(_) => 2,
        ErrorKind::ArithmeticEvaluation(_) => 2,
        ErrorKind::InvalidVariableName(_) => 2,
        _ => 1,
    }
}

/// Converts an internal error into its exit code, reporting the message on
/// FD 2.
fn report_error(table: &OpenFiles, io: &mut IoStore, e: &Error) -> (r: ExecutionResult)
    requires
        table.wf_for(*old(io)),
    ensures
        table.wf_for(*final(io)),
        io_extends(*final(io), *old(io)),
        r.exit_code == spec_error_code(e.kind),
        r.control_flow is Normal,
        table.spec_get(2) matches Some(OpenFile::Buffer(id2)) ==> final(io).buffers@[id2 as int]@
            == old(io).buffers@[id2 as int]@ + crate::error::spec_message(e.kind) + "\n"@,
    {
    let _ = write_via_fd(table, io, 2, e.message().concat("\n").as_str());
    let code: u8 = match &e.kind {
        ErrorKind::CommandNotFound(_) => 127,
        ErrorKind::BuiltinNotFound(_) => 127,
        ErrorKind::Unimplemented(_) => 99,
        ErrorKind::Parse(_) => 2,
        ErrorKind::TestCommandParseError(_) => 2,
        ErrorKind::ArithmeticEvaluation(_) => 2,
        ErrorKind::InvalidVariableName(_) => 2,
        _ => 1,
    };
    ExecutionResult::new(code)
}

/// The outcome each argument-independent builtin owes: exit codes for the
/// constant ones, dispositions for the control-flow ones, normal flow where
/// only the code varies with the arguments.
pub open spec fn spec_kind_outcome(kind: BuiltinKind, r: ExecutionResult) -> bool {
    match kind {
        BuiltinKind::Colon => r.exit_code == 0 && r.control_flow is Normal,
        BuiltinKind::True => r.exit_code == 0 && r.control_flow is Normal,
        BuiltinKind::False => r.exit_code == 1 && r.control_flow is Normal,
        BuiltinKind::Times => r.control_flow is Normal,
        BuiltinKind::Brushctl => r.exit_code == 99 && r.control_flow is Normal,
        BuiltinKind::Unimplemented => r.exit_code == 99 && r.control_flow is Normal,
        BuiltinKind::Return => r.control_flow is ReturnFromFunction,
        BuiltinKind::Exit => r.control_flow is ExitShell,
        BuiltinKind::Break => r.control_flow is Break || (r.exit_code == 2
            && r.control_flow is Normal),
        BuiltinKind::Continue => r.control_flow is Continue || (r.exit_code == 2
            && r.control_flow is Normal),
        BuiltinKind::SetOptions => r.control_flow is Normal,
        BuiltinKind::Export => r.control_flow is Normal,
        BuiltinKind::Echo => r.control_flow is Normal,
        BuiltinKind::Pwd => r.control_flow is Normal,
        BuiltinKind::Dirs => r.control_flow is Normal,
        BuiltinKind::Test => r.control_flow is Normal,
        BuiltinKind::Popd => r.control_flow is Normal,
        BuiltinKind::Pushd => r.control_flow is Normal,
        BuiltinKind::Unset => r.control_flow is Normal,
        _ => true,
    }
}

/// What a simple command without assignment prefixes or redirections owes by
/// the resolution order: a name resolving to an enabled builtin (a special
/// one, or any when no function shadows it) yields that builtin's owed
/// outcome, and a name resolving to nothing — no enabled builtin, no
/// function, no not-found handler — reports 127.
pub open spec fn spec_plain_command_outcome(
    pre: Shell,
    positional: Seq<Seq<char>>,
    sc: SimpleCommand,
    r: ExecutionResult,
) -> bool {
    (sc.assignments@.len() == 0 && sc.redirects@.len() == 0 && sc.words@.len() >= 1) ==> {
        let name = spec_expand_pieces(pre.env, positional, sc.words@[0].pieces@);
        &&& (match crate::shell::spec_builtin_find(pre.builtins@, name) {
            Some(b) => (!b.disabled && (b.special || crate::shell::spec_func_find(
                pre.funcs@,
                name,
            ) is None)) ==> spec_kind_outcome(b.kind, r),
            None => true,
        })
        &&& ((match crate::shell::spec_builtin_find(pre.builtins@, name) {
            Some(b2) => b2.disabled,
            None => true,
        }) && crate::shell::spec_func_find(pre.funcs@, name) is None
            && crate::shell::spec_func_find(pre.funcs@, "command_not_found_handle"@) is None
            ==> r.exit_code == 127 && r.control_flow is Normal)
    }
}

/// The lone simple command of a program that is one and-or list of one
/// un-negated single-stage pipeline, if that is the program's shape.
pub open spec fn spec_lone_simple(program: Program) -> Option<SimpleCommand> {
    if program.items@.len() == 1 && program.items@[0].rest@.len() == 0
        && program.items@[0].first.stages@.len() == 1 && !program.items@[0].first.negate {
        match program.items@[0].first.stages@[0] {
            Command::Simple(sc) => Some(sc),
            _ => None,
        }
    } else {
        None
    }
}

/// The expanded arguments of a simple command: every word after the first.
pub open spec fn spec_expanded_args(
    env: crate::env::ShellEnvironment,
    positional: Seq<Seq<char>>,
    sc: SimpleCommand,
) -> Seq<Seq<char>> {
    sc.words@.subrange(1, sc.words@.len() as int).map_values(
        |w: Word| spec_expand_pieces(env, positional, w.pieces@),
    )
}

/// What a plain command resolving to `echo` writes: its expanded arguments,
/// joined by spaces, and a newline on the frame's FD 1 buffer.
pub open spec fn spec_plain_echo_output(
    pre: Shell,
    positional: Seq<Seq<char>>,
    sc: SimpleCommand,
    table: OpenFiles,
    pre_io: IoStore,
    post_io: IoStore,
) -> bool {
    (sc.assignments@.len() == 0 && sc.redirects@.len() == 0 && sc.words@.len() >= 1) ==> {
        let name = spec_expand_pieces(pre.env, positional, sc.words@[0].pieces@);
        match crate::shell::spec_builtin_find(pre.builtins@, name) {
            Some(b) => (!b.disabled && (b.special || crate::shell::spec_func_find(
                pre.funcs@,
                name,
            ) is None) && b.kind is Echo) ==> (table.spec_get(1) matches Some(
                OpenFile::Buffer(id),
            ) ==> post_io.buffers@[id as int]@ == pre_io.buffers@[id as int]@
                + crate::builtins::spec_join_words(spec_expanded_args(pre.env, positional, sc))
                + "\n"@),
            None => true,
        }
    }
}

/// Whether the program is one lone, un-negated, single-stage subshell.
pub open spec fn spec_lone_subshell(program: Program) -> bool {
    program.items@.len() == 1 && program.items@[0].rest@.len() == 0
        && program.items@[0].first.stages@.len() == 1 && !program.items@[0].first.negate
        && program.items@[0].first.stages@[0] matches Command::Subshell { .. }
}

/// What a subshell leaves of the caller: everything but the exit code.
pub open spec fn spec_shell_preserved(pre: Shell, post: Shell) -> bool {
    &&& post.env == pre.env
    &&& post.funcs@ == pre.funcs@
    &&& post.directory_stack@ == pre.directory_stack@
    &&& post.working_dir == pre.working_dir
    &&& post.options == pre.options
}

/// The exit code of a plain command whose name resolves to one of the
/// builtins with a constant outcome (`:`, `true`, `false`), when nothing
/// shadows it: such a command also leaves the whole shell untouched.
pub open spec fn spec_const_code(
    pre: Shell,
    positional: Seq<Seq<char>>,
    sc: SimpleCommand,
) -> Option<u8> {
    if sc.assignments@.len() == 0 && sc.redirects@.len() == 0 && sc.words@.len() >= 1 {
        let name = spec_expand_pieces(pre.env, positional, sc.words@[0].pieces@);
        match crate::shell::spec_builtin_find(pre.builtins@, name) {
            Some(b) => if !b.disabled && (b.special || crate::shell::spec_func_find(
                pre.funcs@,
                name,
            ) is None) {
                match b.kind {
                    BuiltinKind::Colon => Some(0),
                    BuiltinKind::True => Some(0),
                    BuiltinKind::False => Some(1),
                    _ => None,
                }
            } else {
                None
            },
            None => None,
        }
    } else {
        None
    }
}

/// Whether every item of a sequence is a lone, un-negated, single-stage
/// constant-outcome command.
pub open spec fn spec_all_const(
    pre: Shell,
    positional: Seq<Seq<char>>,
    items: Seq<AndOrList>,
) -> bool {
    forall|i: int|
        0 <= i < items.len() ==> {
            let it = #[trigger] items[i];
            &&& it.rest@.len() == 0
            &&& it.first.stages@.len() == 1
            &&& !it.first.negate
            &&& (it.first.stages@[0] matches Command::Simple(sc) && spec_const_code(
                pre,
                positional,
                sc,
            ) is Some)
        }
}

/// The constant code of one such item.
pub open spec fn spec_item_code(pre: Shell, positional: Seq<Seq<char>>, it: AndOrList) -> u8 {
    match it.first.stages@[0] {
        Command::Simple(sc) => match spec_const_code(pre, positional, sc) {
            Some(c) => c,
            None => 0,
        },
        _ => 0,
    }
}

/// Runs a whole program: its and-or lists in sequence; a non-normal
/// disposition stops the walk and is handed to the enclosing construct.
pub fn run_program(
    shell: &mut Shell,
    io: &mut IoStore,
    table: &OpenFiles,
    positional: &Vec<String>,
    program: &Program,
    fuel: u64,
    cpu: Option<CpuTimes>,
) -> (r: ExecutionResult)
    requires
        old(shell).wf(),
        table.wf_for(*old(io)),
    ensures
        final(shell).wf(),
        final(shell).env.spec_depth() == old(shell).env.spec_depth(),
        table.wf_for(*final(io)),
        io_extends(*final(io), *old(io)),
        program.items@.len() == 0 ==> r.exit_code == 0 && r.control_flow is Normal && final(io).buffers@ =~= old(io).buffers@ && final(io).files@ =~= old(io).files@ && final(io).pending@ == old(io).pending@,
        fuel >= 1 ==> (spec_lone_simple(*program) matches Some(sc)
            ==> spec_plain_command_outcome(*old(shell), positional.deep_view(), sc, r)),
        fuel >= 1 ==> (spec_lone_simple(*program) matches Some(sc4)
            ==> spec_plain_echo_output(
            *old(shell),
            positional.deep_view(),
            sc4,
            *table,
            *old(io),
            *final(io),
        )),
        (fuel >= 1 && spec_lone_subshell(*program)) ==> spec_shell_preserved(
            *old(shell),
            *final(shell),
        ) && r.control_flow is Normal,
        (fuel >= 1 && program.items@.len() > 0 && spec_all_const(
            *old(shell),
            positional.deep_view(),
            program.items@,
        )) ==> {
            &&& r.exit_code == spec_item_code(
                *old(shell),
                positional.deep_view(),
                program.items@.last(),
            )
            &&& r.control_flow is Normal
            &&& *final(shell) == *old(shell)
        },
    decreases fuel, 5int, 0int,
{
    let n = program.items.len();
    if n == 0 {
        return ExecutionResult::success();
    }
    if fuel == 0 {
        let _ = write_via_fd(table, io, 2, "recursion limit reached\n");
        return ExecutionResult::general_error();
    }
    if n == 1 {
        return run_and_or(shell, io, table, positional, &program.items[0], fuel, cpu);
    }
    let mut result = ExecutionResult::success();
    let mut i: usize = 0;
    while i < n
        invariant
            i <= n,
            n >= 2,
            n == program.items@.len(),
            shell.wf(),
            shell.env.spec_depth() == old(shell).env.spec_depth(),
            table.wf_for(*io),
            io_extends(*io, *old(io)),
            fuel >= 1,
            n == 0 ==> result.exit_code == 0 && result.control_flow is Normal,
            spec_all_const(*old(shell), positional.deep_view(), program.items@) ==> {
                &&& *shell == *old(shell)
                &&& (i > 0 ==> result.exit_code == spec_item_code(
                    *old(shell),
                    positional.deep_view(),
                    program.items@[i - 1],
                ) && result.control_flow is Normal)
            },
        decreases n - i,
    {
        result = run_and_or(shell, io, table, positional, &program.items[i], fuel, cpu);
        match result.control_flow {
            ExecutionControlFlow::Normal => {},
            _ => {
                return result;
            },
        }
        i = i + 1;
    }
    result
}

/// Runs an and-or list left to right, short-circuiting on the boolean sense
/// of each pipeline's exit code.
fn run_and_or(
    shell: &mut Shell,
    io: &mut IoStore,
    table: &OpenFiles,
    positional: &Vec<String>,
    list: &AndOrList,
    fuel: u64,
    cpu: Option<CpuTimes>,
) -> (r: ExecutionResult)
    requires
        old(shell).wf(),
        table.wf_for(*old(io)),
        fuel >= 1,
    ensures
        final(shell).wf(),
        final(shell).env.spec_depth() == old(shell).env.spec_depth(),
        table.wf_for(*final(io)),
        io_extends(*final(io), *old(io)),
        (list.rest@.len() == 0 && list.first.stages@.len() == 1 && !list.first.negate) ==> (
        list.first.stages@[0] matches Command::Simple(sc) ==> spec_plain_command_outcome(
            *old(shell),
            positional.deep_view(),
            sc,
            r,
        )),
        (list.rest@.len() == 0 && list.first.stages@.len() == 1 && !list.first.negate
            && list.first.stages@[0] matches Command::Subshell { .. }) ==> spec_shell_preserved(
            *old(shell),
            *final(shell),
        ) && r.control_flow is Normal,
        (list.rest@.len() == 0 && list.first.stages@.len() == 1 && !list.first.negate) ==> (
        list.first.stages@[0] matches Command::Simple(sc2) ==> (spec_const_code(
            *old(shell),
            positional.deep_view(),
            sc2,
        ) matches Some(c) ==> (r.exit_code == c && r.control_flow is Normal && *final(shell)
            == *old(shell)))),
        (list.rest@.len() == 0 && list.first.stages@.len() == 1 && !list.first.negate) ==> (
        list.first.stages@[0] matches Command::Simple(sc3) ==> spec_plain_echo_output(
            *old(shell),
            positional.deep_view(),
            sc3,
            *table,
            *old(io),
            *final(io),
        )),
    decreases fuel, 4int, 0int,
{
    let mut result = run_pipeline(shell, io, table, positional, &list.first, fuel, cpu);
    match result.control_flow {
        ExecutionControlFlow::Normal => {},
        _ => {
            return result;
        },
    }
    let n = list.rest.len();
    if n == 0 {
        return result;
    }
    let mut i: usize = 0;
    while i < n
        invariant
            i <= n,
            n >= 1,
            n == list.rest@.len(),
            shell.wf(),
            shell.env.spec_depth() == old(shell).env.spec_depth(),
            table.wf_for(*io),
            io_extends(*io, *old(io)),
            fuel >= 1,
        decreases n - i,
    {
        let run_next = match list.rest[i].0 {
            AndOrOp::And => result.is_success(),
            AndOrOp::Or => !result.is_success(),
        };
        if run_next {
            result = run_pipeline(shell, io, table, positional, &list.rest[i].1, fuel, cpu);
            match result.control_flow {
                ExecutionControlFlow::Normal => {},
                _ => {
                    return result;
                },
            }
        }
        i = i + 1;
    }
    result
}

/// Runs a pipeline.  A single stage runs in the current shell and keeps its
/// control-flow disposition.  With several stages, each runs against a
/// copied shell state with its output piped to its successor; every stage
/// runs, and the codes combine per `pipefail` before `!`-negation.
fn run_pipeline(
    shell: &mut Shell,
    io: &mut IoStore,
    table: &OpenFiles,
    positional: &Vec<String>,
    pipeline: &Pipeline,
    fuel: u64,
    cpu: Option<CpuTimes>,
) -> (r: ExecutionResult)
    requires
        old(shell).wf(),
        table.wf_for(*old(io)),
        fuel >= 1,
    ensures
        final(shell).wf(),
        final(shell).env.spec_depth() == old(shell).env.spec_depth(),
        table.wf_for(*final(io)),
        io_extends(*final(io), *old(io)),
        (pipeline.stages@.len() == 1 && !pipeline.negate) ==> (
        pipeline.stages@[0] matches Command::Simple(sc) ==> spec_plain_command_outcome(
            *old(shell),
            positional.deep_view(),
            sc,
            r,
        )),
        (pipeline.stages@.len() == 1 && !pipeline.negate && pipeline.stages@[0] matches
            Command::Subshell { .. }) ==> spec_shell_preserved(*old(shell), *final(shell))
            && r.control_flow is Normal,
        (pipeline.stages@.len() == 1 && !pipeline.negate) ==> (
        pipeline.stages@[0] matches Command::Simple(sc2) ==> (spec_const_code(
            *old(shell),
            positional.deep_view(),
            sc2,
        ) matches Some(c) ==> (r.exit_code == c && r.control_flow is Normal && *final(shell)
            == *old(shell)))),
        (pipeline.stages@.len() == 1 && !pipeline.negate) ==> (
        pipeline.stages@[0] matches Command::Simple(sc3) ==> spec_plain_echo_output(
            *old(shell),
            positional.deep_view(),
            sc3,
            *table,
            *old(io),
            *final(io),
        )),
    decreases fuel, 3int, 0int,
{
    let n = pipeline.stages.len();
    if n == 0 {
        return ExecutionResult::success();
    }
    if n == 1 {
        let mut result = run_command(shell, io, table, positional, &pipeline.stages[0], fuel, cpu);
        if pipeline.negate {
            result.exit_code = if result.exit_code == 0 {
                1
            } else {
                0
            };
        }
        return result;
    }
    let mut codes: Vec<u8> = Vec::new();
    let mut prev_read: Option<usize> = None;
    let mut i: usize = 0;
    while i < n
        invariant
            i <= n,
            n == pipeline.stages@.len(),
            shell.wf(),
            shell.env.spec_depth() == old(shell).env.spec_depth(),
            table.wf_for(*io),
            io_extends(*io, *old(io)),
            fuel >= 1,
            prev_read matches Some(id) ==> id < io.buffers@.len(),
        decreases n - i,
    {
        let mut stage_table = table.clone_table();
        proof {
            assert(stage_table.wf_for(*io));
        }
        match prev_read {
            Some(id) => {
                let ghost tpre = stage_table;
                stage_table.set_fd(0, OpenFile::Buffer(id));
                proof {
                    assert forall|k: int| 0 <= k < stage_table.files@.len() implies match (
                    #[trigger] stage_table.files@[k]) {
                        Some(f) => crate::openfiles::file_wf(f, *io),
                        None => true,
                    } by {
                        assert(stage_table.files@[k] == stage_table.spec_get(k));
                        if k != 0 {
                            assert(stage_table.spec_get(k) == tpre.spec_get(k));
                        }
                    }
                }
            },
            None => {},
        }
        if i + 1 < n {
            let ghost pre_io = *io;
            let out_id = io.new_buffer();
            proof {
                lemma_wf_for_extend(stage_table, pre_io, *io);
            }
            let ghost tpre2 = stage_table;
            stage_table.set_fd(1, OpenFile::Buffer(out_id));
            proof {
                assert forall|k: int| 0 <= k < stage_table.files@.len() implies match (
                #[trigger] stage_table.files@[k]) {
                    Some(f) => crate::openfiles::file_wf(f, *io),
                    None => true,
                } by {
                    assert(stage_table.files@[k] == stage_table.spec_get(k));
                    if k != 1 {
                        assert(stage_table.spec_get(k) == tpre2.spec_get(k));
                    }
                }
            }
            prev_read = Some(out_id);
        } else {
            prev_read = None;
        }
        let mut sub = shell.clone_for_subshell();
        let ghost pre_io2 = *io;
        let stage_result = run_command(&mut sub, io, &stage_table, positional, &pipeline.stages[i], fuel, cpu);
        proof {
            lemma_wf_for_extend(*table, pre_io2, *io);
        }
        codes.push(stage_result.exit_code);
        i = i + 1;
    }
    let code = pipeline_exit_code(&codes, shell.options.pipefail, pipeline.negate);
    ExecutionResult::new(code)
}

/// Runs one command of a pipeline.
fn run_command(
    shell: &mut Shell,
    io: &mut IoStore,
    table: &OpenFiles,
    positional: &Vec<String>,
    cmd: &Command,
    fuel: u64,
    cpu: Option<CpuTimes>,
) -> (r: ExecutionResult)
    requires
        old(shell).wf(),
        table.wf_for(*old(io)),
        fuel >= 1,
    ensures
        final(shell).wf(),
        final(shell).env.spec_depth() == old(shell).env.spec_depth(),
        table.wf_for(*final(io)),
        io_extends(*final(io), *old(io)),
        (*cmd) matches Command::Simple(sc) ==> spec_plain_command_outcome(
            *old(shell),
            positional.deep_view(),
            sc,
            r,
        ),
        (*cmd) matches Command::Simple(sc2) ==> (spec_const_code(
            *old(shell),
            positional.deep_view(),
            sc2,
        ) matches Some(c) ==> (r.exit_code == c && r.control_flow is Normal && *final(shell)
            == *old(shell))),
        (*cmd) matches Command::Simple(sc3) ==> spec_plain_echo_output(
            *old(shell),
            positional.deep_view(),
            sc3,
            *table,
            *old(io),
            *final(io),
        ),
        (*cmd) matches Command::Subshell { .. } ==> spec_shell_preserved(
            *old(shell),
            *final(shell),
        ) && final(shell).last_exit_code == old(shell).last_exit_code
            && r.control_flow is Normal,
    decreases fuel, 2int, 0int,
{
    match cmd {
        Command::Simple(sc) => run_simple(shell, io, table, positional, sc, fuel, cpu),
        Command::Group { body, redirects } => {
            let mut group_table = table.clone_table();
            proof {
                lemma_wf_for_extend(group_table, *old(io), *io);
            }
            match apply_redirects(shell, io, &mut group_table, positional, redirects) {
                Ok(_) => {},
                Err(e) => {
                    let ghost pre = *io;
                    let r = report_error(table, io, &e);
                    proof {
                        lemma_wf_for_extend(*table, pre, *io);
                    }
                    return r;
                },
            }
            let ghost pre = *io;
            let r = run_program(shell, io, &group_table, positional, body, fuel - 1, cpu);
            proof {
                lemma_wf_for_extend(*table, pre, *io);
            }
            r
        },
        Command::Subshell { body } => {
            let mut sub = shell.clone_for_subshell();
            let ghost pre = *io;
            let r = run_program(&mut sub, io, table, positional, body, fuel - 1, cpu);
            proof {
                lemma_wf_for_extend(*table, pre, *io);
            }
            ExecutionResult::new(r.exit_code)
        },
        Command::FunctionDef { name, body } => {
            shell.register_function(
                name.as_str(),
                FunctionDefinition { body: rc_clone(body), exported: false, traced: false },
            );
            ExecutionResult::success()
        },
        Command::While { cond, body } => run_loop(
            shell,
            io,
            table,
            positional,
            cond,
            body,
            false,
            fuel,
            cpu,
        ),
        Command::Until { cond, body } => run_loop(
            shell,
            io,
            table,
            positional,
            cond,
            body,
            true,
            fuel,
            cpu,
        ),
        Command::ForIn { var, words, body } => {
            let n = words.len();
            let mut last = ExecutionResult::success();
            let mut i: usize = 0;
            while i < n
                invariant
                    (*cmd) matches Command::ForIn { .. },
                    i <= n,
                    n == words@.len(),
                    shell.wf(),
                    shell.env.spec_depth() == old(shell).env.spec_depth(),
                    table.wf_for(*io),
                    io_extends(*io, *old(io)),
                    fuel >= 1,
                decreases n - i,
            {
                let value = expand_word(shell, positional, &words[i]);
                match shell.env.update_or_add(
                    var.as_str(),
                    ShellValueLiteral::Scalar(value),
                    VariableMutation::Keep,
                    EnvironmentLookup::Anywhere,
                    EnvironmentScope::Global,
                ) {
                    Ok(_) => {},
                    Err(e) => {
                        let ghost pre = *io;
                        let r = report_error(table, io, &e);
                        proof {
                            lemma_wf_for_extend(*table, pre, *io);
                        }
                        return r;
                    },
                }
                let ghost pre = *io;
                let body_result = run_program(shell, io, table, positional, body, fuel - 1, cpu);
                proof {
                    lemma_wf_for_extend(*table, pre, *io);
                }
                match body_result.control_flow {
                    ExecutionControlFlow::Normal => {
                        last = body_result;
                    },
                    ExecutionControlFlow::Continue(levels) => {
                        if levels > 1 {
                            return ExecutionResult {
                                exit_code: body_result.exit_code,
                                control_flow: ExecutionControlFlow::Continue(levels - 1),
                            };
                        }
                        last = ExecutionResult::new(body_result.exit_code);
                    },
                    ExecutionControlFlow::Break(levels) => {
                        if levels > 1 {
                            return ExecutionResult {
                                exit_code: body_result.exit_code,
                                control_flow: ExecutionControlFlow::Break(levels - 1),
                            };
                        }
                        return ExecutionResult::new(body_result.exit_code);
                    },
                    _ => {
                        return body_result;
                    },
                }
                i = i + 1;
            }
            last
        },
        Command::Case { subject, arms } => {
            let value = expand_word(shell, positional, subject);
            let n = arms.len();
            let mut last = ExecutionResult::success();
            let mut run_unconditionally = false;
            let mut i: usize = 0;
            while i < n
                invariant
                    (*cmd) matches Command::Case { .. },
                    i <= n,
                    n == arms@.len(),
                    shell.wf(),
                    shell.env.spec_depth() == old(shell).env.spec_depth(),
                    table.wf_for(*io),
                    io_extends(*io, *old(io)),
                    fuel >= 1,
                decreases n - i,
            {
                let arm = &arms[i];
                let mut matched = run_unconditionally;
                if !matched {
                    let np = arm.patterns.len();
                    let mut k: usize = 0;
                    while k < np
                        invariant
                            k <= np,
                            np == arm.patterns@.len(),
                            shell.wf(),
                        decreases np - k,
                    {
                        let pattern = expand_word(shell, positional, &arm.patterns[k]);
                        if crate::strings::glob_match(pattern.as_str(), value.as_str()) {
                            matched = true;
                        }
                        k = k + 1;
                    }
                }
                if matched {
                    let ghost pre = *io;
                    let body_result = run_program(
                        shell,
                        io,
                        table,
                        positional,
                        &arm.body,
                        fuel - 1,
                        cpu,
                    );
                    proof {
                        lemma_wf_for_extend(*table, pre, *io);
                    }
                    match body_result.control_flow {
                        ExecutionControlFlow::Normal => {},
                        _ => {
                            return body_result;
                        },
                    }
                    last = body_result;
                    match arm.mode {
                        crate::ast::CaseArmMode::Stop => {
                            return last;
                        },
                        crate::ast::CaseArmMode::FallThrough => {
                            run_unconditionally = true;
                        },
                        crate::ast::CaseArmMode::ContinueMatching => {
                            run_unconditionally = false;
                        },
                    }
                }
                i = i + 1;
            }
            last
        },
        Command::If { cond, then_body, else_body } => {
            let guard = run_program(shell, io, table, positional, cond, fuel - 1, cpu);
            match guard.control_flow {
                ExecutionControlFlow::Normal => {},
                _ => {
                    return guard;
                },
            }
            let ghost pre = *io;
            let r = if guard.exit_code == 0 {
                run_program(shell, io, table, positional, then_body, fuel - 1, cpu)
            } else {
                run_program(shell, io, table, positional, else_body, fuel - 1, cpu)
            };
            proof {
                lemma_wf_for_extend(*table, pre, *io);
            }
            r
        },
    }
}

/// Runs a `while` or `until` loop: the guard decides per its boolean sense
/// (inverted for `until`); the body's break and continue dispositions are
/// consumed here, with deeper levels forwarded to enclosing loops.  The
/// engine bounds the number of iterations by its loop budget and fails the
/// command when a loop exceeds it.
#[verifier::loop_isolation(false)]
fn run_loop(
    shell: &mut Shell,
    io: &mut IoStore,
    table: &OpenFiles,
    positional: &Vec<String>,
    cond: &Program,
    body: &Program,
    until: bool,
    fuel: u64,
    cpu: Option<CpuTimes>,
) -> (r: ExecutionResult)
    requires
        old(shell).wf(),
        table.wf_for(*old(io)),
        fuel >= 1,
    ensures
        final(shell).wf(),
        final(shell).env.spec_depth() == old(shell).env.spec_depth(),
        table.wf_for(*final(io)),
        io_extends(*final(io), *old(io)),
    decreases fuel, 1int, 1int,
{
    let mut budget: u64 = 65536;
    let mut last = ExecutionResult::success();
    loop
        invariant
            shell.wf(),
            shell.env.spec_depth() == old(shell).env.spec_depth(),
            table.wf_for(*io),
            io_extends(*io, *old(io)),
            fuel >= 1,
        decreases budget,
    {
        if budget == 0 {
            let _ = write_via_fd(table, io, 2, "loop budget exceeded\n");
            return ExecutionResult::general_error();
        }
        budget = budget - 1;
        let guard = run_program(shell, io, table, positional, cond, fuel - 1, cpu);
        match guard.control_flow {
            ExecutionControlFlow::Normal => {},
            _ => {
                return guard;
            },
        }
        let guard_true = if until {
            guard.exit_code != 0
        } else {
            guard.exit_code == 0
        };
        if !guard_true {
            return last;
        }
        let body_result = run_program(shell, io, table, positional, body, fuel - 1, cpu);
        match body_result.control_flow {
            ExecutionControlFlow::Normal => {
                last = body_result;
            },
            ExecutionControlFlow::Continue(levels) => {
                if levels > 1 {
                    return ExecutionResult {
                        exit_code: body_result.exit_code,
                        control_flow: ExecutionControlFlow::Continue(levels - 1),
                    };
                }
                last = ExecutionResult::new(body_result.exit_code);
            },
            ExecutionControlFlow::Break(levels) => {
                if levels > 1 {
                    return ExecutionResult {
                        exit_code: body_result.exit_code,
                        control_flow: ExecutionControlFlow::Break(levels - 1),
                    };
                }
                return ExecutionResult::new(body_result.exit_code);
            },
            _ => {
                return body_result;
            },
        }
    }
}

/// Runs a simple command: expands words, applies assignments and
/// redirections, and resolves the command name through special builtins,
/// functions, regular builtins, and the not-found path, in that order.
fn run_simple(
    shell: &mut Shell,
    io: &mut IoStore,
    table: &OpenFiles,
    positional: &Vec<String>,
    sc: &SimpleCommand,
    fuel: u64,
    cpu: Option<CpuTimes>,
) -> (r: ExecutionResult)
    requires
        old(shell).wf(),
        table.wf_for(*old(io)),
        fuel >= 1,
    ensures
        final(shell).wf(),
        final(shell).env.spec_depth() == old(shell).env.spec_depth(),
        table.wf_for(*final(io)),
        io_extends(*final(io), *old(io)),
        spec_plain_command_outcome(*old(shell), positional.deep_view(), *sc, r),
        spec_const_code(*old(shell), positional.deep_view(), *sc) matches Some(c) ==> (
        r.exit_code == c && r.control_flow is Normal && *final(shell) == *old(shell)),
        spec_plain_echo_output(
            *old(shell),
            positional.deep_view(),
            *sc,
            *table,
            *old(io),
            *final(io),
        ),
    decreases fuel, 1int, 0int,
{
    // Assignment prefixes, left to right.
    let na = sc.assignments.len();
    if na > 0 {
        let mut ai: usize = 0;
        while ai < na
            invariant
                ai <= na,
                na == sc.assignments@.len(),
                na > 0,
                shell.wf(),
                shell.env.spec_depth() == old(shell).env.spec_depth(),
                table.wf_for(*io),
                io_extends(*io, *old(io)),
            decreases na - ai,
        {
            let value = expand_word(shell, positional, &sc.assignments[ai].1);
            match shell.env.update_or_add(
                sc.assignments[ai].0.as_str(),
                ShellValueLiteral::Scalar(value),
                VariableMutation::Keep,
                EnvironmentLookup::Anywhere,
                EnvironmentScope::Global,
            ) {
                Ok(_) => {},
                Err(e) => {
                    let ghost pre = *io;
                    let r = report_error(table, io, &e);
                    proof {
                        lemma_wf_for_extend(*table, pre, *io);
                    }
                    return r;
                },
            }
            ai = ai + 1;
        }
    }
    // Expand the command words.
    let nw = sc.words.len();
    if nw == 0 {
        return ExecutionResult::success();
    }
    let ghost shell_snap = *shell;
    let mut words: Vec<String> = Vec::new();
    let mut wi: usize = 0;
    while wi < nw
        invariant
            wi <= nw,
            nw == sc.words@.len(),
            words@.len() == wi,
            *shell == shell_snap,
            shell.wf(),
            shell.env.spec_depth() == old(shell).env.spec_depth(),
            table.wf_for(*io),
            io_extends(*io, *old(io)),
            forall|j: int|
                0 <= j < wi ==> (#[trigger] words@[j])@ == spec_expand_pieces(
                    shell_snap.env,
                    positional.deep_view(),
                    sc.words@[j].pieces@,
                ),
        decreases nw - wi,
    {
        words.push(expand_word(shell, positional, &sc.words[wi]));
        wi = wi + 1;
    }
    // Redirections on this frame's copy of the table.
    let mut cmd_table = table.clone_table();
    proof {
        lemma_wf_for_extend(cmd_table, *old(io), *io);
    }
    match apply_redirects(shell, io, &mut cmd_table, positional, &sc.redirects) {
        Ok(_) => {},
        Err(e) => {
            let ghost pre = *io;
            let r = report_error(table, io, &e);
            proof {
                lemma_wf_for_extend(*table, pre, *io);
            }
            return r;
        },
    }
    let name = words.remove(0);
    proof {
        let dv = words.deep_view();
        let m = spec_expanded_args(shell_snap.env, positional.deep_view(), *sc);
        assert(dv.len() == m.len());
        assert forall|j: int| 0 <= j < dv.len() implies dv[j] == m[j] by {
            assert(dv[j] == (#[trigger] words@[j])@);
            assert(m[j] == spec_expand_pieces(
                shell_snap.env,
                positional.deep_view(),
                sc.words@.subrange(1, sc.words@.len() as int)[j].pieces@,
            ));
            assert(sc.words@.subrange(1, sc.words@.len() as int)[j] == sc.words@[j + 1]);
        }
        assert(dv =~= m);
    }
    // 1. Special builtins always preempt.
    let reg = shell.find_builtin(name.as_str());
    match reg {
        Some(b) => {
            if !b.disabled && b.special {
                let ghost pre = *io;
                let r = run_builtin(shell, io, &cmd_table, positional, b.kind, &name, words, fuel, cpu);
                proof {
                    lemma_wf_for_extend(*table, pre, *io);
                }
                return r;
            }
        },
        None => {},
    }
    // 2. Functions.
    let has_func = match shell.find_func(name.as_str()) {
        Some(_) => true,
        None => false,
    };
    if has_func {
        let ghost pre = *io;
        let r = invoke_function_inner(shell, io, &cmd_table, &name, words, fuel, cpu);
        proof {
            lemma_wf_for_extend(*table, pre, *io);
        }
        return r;
    }
    // 3. Regular builtins.
    match reg {
        Some(b) => {
            if !b.disabled {
                let ghost pre = *io;
                let r = run_builtin(shell, io, &cmd_table, positional, b.kind, &name, words, fuel, cpu);
                proof {
                    lemma_wf_for_extend(*table, pre, *io);
                }
                return r;
            }
        },
        None => {},
    }
    // 4. External commands are the host's; without a host, the name is not
    // found.  The command-not-found handler runs if one is registered.
    let has_handler = match shell.find_func("command_not_found_handle") {
        Some(_) => true,
        None => false,
    };
    if has_handler {
        let mut handler_args: Vec<String> = Vec::new();
        handler_args.push(name);
        let mut k: usize = 0;
        let nk = words.len();
        while k < nk
            invariant
                k <= nk,
                nk == words@.len(),
            decreases nk - k,
        {
            handler_args.push(words[k].clone());
            k = k + 1;
        }
        let handler_name = String::from_str("command_not_found_handle");
        let ghost pre = *io;
        let r = invoke_function_inner(shell, io, &cmd_table, &handler_name, handler_args, fuel, cpu);
        proof {
            lemma_wf_for_extend(*table, pre, *io);
        }
        return r;
    }
    let ghost pre = *io;
    let msg = name.concat(": command not found\n");
    let _ = write_via_fd(&cmd_table, io, 2, msg.as_str());
    proof {
        lemma_wf_for_extend(*table, pre, *io);
    }
    ExecutionResult::from_exit_code(ExecutionExitCode::NotFound)
}

/// Invokes a registered function: pushes a scope, binds the arguments as the
/// positional parameters, runs the body, and pops the scope on every path.
/// `return` is caught here; `exit` passes through.
fn invoke_function_inner(
    shell: &mut Shell,
    io: &mut IoStore,
    table: &OpenFiles,
    name: &String,
    args: Vec<String>,
    fuel: u64,
    cpu: Option<CpuTimes>,
) -> (r: ExecutionResult)
    requires
        old(shell).wf(),
        table.wf_for(*old(io)),
        fuel >= 1,
    ensures
        final(shell).wf(),
        final(shell).env.spec_depth() == old(shell).env.spec_depth(),
        table.wf_for(*final(io)),
        io_extends(*final(io), *old(io)),
        crate::shell::spec_func_find(old(shell).funcs@, name@) is None ==> r.exit_code == 127
            && r.control_flow is Normal,
        r.control_flow is Normal || r.control_flow is ExitShell,
    decreases fuel, 0int, 0int,
{
    let body = match shell.find_func(name.as_str()) {
        Some(entry) => rc_clone(&entry.body),
        None => {
            let e = Error::new(ErrorKind::CommandNotFound(name.clone()));
            return report_error(table, io, &e);
        },
    };
    shell.env.push_scope();
    let result = run_program(shell, io, table, &args, &body, fuel - 1, cpu);
    let popped = shell.env.pop_scope();
    proof {
        assert(popped is Ok);
    }
    match result.control_flow {
        ExecutionControlFlow::ReturnFromFunction => ExecutionResult::new(result.exit_code),
        ExecutionControlFlow::ExitShell => result,
        _ => ExecutionResult::new(result.exit_code),
    }
}

/// Dispatches to one builtin by kind, with the frame's table and the
/// expanded arguments.  `builtin` re-dispatches on its first argument.
#[verifier::rlimit(100)]
#[verifier::spinoff_prover]
fn run_builtin(
    shell: &mut Shell,
    io: &mut IoStore,
    table: &OpenFiles,
    positional: &Vec<String>,
    kind: BuiltinKind,
    command_name: &String,
    args: Vec<String>,
    fuel: u64,
    cpu: Option<CpuTimes>,
) -> (r: ExecutionResult)
    requires
        old(shell).wf(),
        table.wf_for(*old(io)),
        fuel >= 1,
    ensures
        final(shell).wf(),
        final(shell).env.spec_depth() == old(shell).env.spec_depth(),
        table.wf_for(*final(io)),
        io_extends(*final(io), *old(io)),
        spec_kind_outcome(kind, r),
        (kind is Colon || kind is True || kind is False) ==> *final(shell) == *old(shell),
        kind is Echo ==> {
            &&& (table.spec_get(1) is Some ==> r.exit_code == 0)
            &&& (table.spec_get(1) is None ==> r.exit_code == 1)
            &&& (table.spec_get(1) matches Some(OpenFile::Buffer(id))
                ==> final(io).buffers@[id as int]@ == old(io).buffers@[id as int]@
                + crate::builtins::spec_join_words(args.deep_view()) + "\n"@)
        },
        kind is Pwd ==> {
            &&& (table.spec_get(1) is Some ==> r.exit_code == 0)
            &&& (table.spec_get(1) matches Some(OpenFile::Buffer(id))
                ==> final(io).buffers@[id as int]@ == old(io).buffers@[id as int]@ + old(shell).working_dir@ + "\n"@)
        },
        kind is Return ==> {
            &&& (args.deep_view().len() == 0 ==> r.exit_code == 0)
            &&& (args.deep_view().len() > 0 ==> (
            match crate::builtins::spec_small_code(args.deep_view()[0]) {
                Some(c) => r.exit_code == c,
                None => r.exit_code == 2,
            }))
        },
        kind is Exit ==> {
            &&& (args.deep_view().len() == 0 ==> r.exit_code == 0)
            &&& (args.deep_view().len() > 0 ==> (
            match crate::builtins::spec_small_code(args.deep_view()[0]) {
                Some(c) => r.exit_code == c,
                None => r.exit_code == 2,
            }))
        },
        kind is SetOptions ==> {
            &&& ((args.deep_view().len() == 2 && args.deep_view()[0] == "-o"@
                && args.deep_view()[1] == "pipefail"@) ==> final(shell).options.pipefail
                && r.exit_code == 0)
            &&& ((args.deep_view().len() == 2 && args.deep_view()[0] == "+o"@
                && args.deep_view()[1] == "pipefail"@) ==> !final(shell).options.pipefail
                && r.exit_code == 0)
        },
        kind is Test ==> {
            let bracket = command_name@ == "["@;
            &&& (bracket && !(args.deep_view().len() > 0 && args.deep_view().last() == "]"@)
                ==> r.exit_code == 2)
            &&& ((!bracket || (args.deep_view().len() > 0 && args.deep_view().last() == "]"@))
                ==> (match crate::testexpr::spec_test_args(
                if bracket {
                    args.deep_view().drop_last()
                } else {
                    args.deep_view()
                },
            ) {
                Some(true) => r.exit_code == 0,
                Some(false) => r.exit_code == 1,
                None => r.exit_code == 2,
            }))
        },
        kind is Popd ==> {
            let no_chdir = args.deep_view().len() > 0 && args.deep_view()[0] == "-n"@;
            &&& (old(shell).directory_stack@.len() == 0 ==> r.exit_code != 0 && final(shell).directory_stack@ == old(shell).directory_stack@ && final(shell).working_dir == old(shell).working_dir)
            &&& (old(shell).directory_stack@.len() > 0 ==> r.exit_code == 0 && final(shell).directory_stack@ == old(shell).directory_stack@.drop_last() && (!no_chdir
                ==> final(shell).working_dir == old(shell).directory_stack@.last()) && (no_chdir
                ==> final(shell).working_dir@ == old(shell).working_dir@))
        },
        kind is Pushd ==> {
            &&& (args.deep_view().len() == 0 ==> r.exit_code != 0)
            &&& (args.deep_view().len() > 0 ==> r.exit_code == 0 && final(shell).directory_stack@
                =~= old(shell).directory_stack@.push(old(shell).working_dir) && final(shell).working_dir@ == args.deep_view()[0])
        },
        kind is Suspend ==> {
            let force = args.deep_view().len() > 0 && args.deep_view()[0] == "-f"@;
            &&& (old(shell).options.login_shell && !force ==> r.exit_code == 2)
            &&& (!(old(shell).options.login_shell && !force) ==> r.exit_code == 1)
        },
        kind is Unset ==> {
            &&& (forall|j: int|
                0 <= j < args@.len() && old(shell).env.spec_count((#[trigger] args@[j])@) <= 1
                    && !(old(shell).env.spec_lookup(args@[j]@) matches Some(p) && p.readonly)
                    ==> final(shell).env.spec_lookup(args@[j]@) is None)
            &&& (args@.len() == 1 ==> r.exit_code == (
            if (old(shell).env.spec_lookup(args@[0]@) matches Some(p) && p.readonly) {
                1u8
            } else {
                0u8
            }))
        },
        kind is BuiltinDispatch ==> {
            &&& (args.deep_view().len() == 0 ==> r.exit_code == 0 && r.control_flow is Normal)
            &&& (args.deep_view().len() > 0 ==> (
            match crate::shell::spec_builtin_find(old(shell).builtins@, args.deep_view()[0]) {
                None => r.exit_code == 127 && r.control_flow is Normal,
                Some(b) => (b.disabled ==> r.exit_code == 127 && r.control_flow is Normal)
                    && (!b.disabled ==> spec_kind_outcome(b.kind, r)),
            }))
        },
        kind is Times ==> {
            &&& (cpu is None ==> r.exit_code == 99)
            &&& match cpu {
                Some(t) => t.wf() ==> ((table.spec_get(1) is Some ==> r.exit_code == 0) && (
                table.spec_get(1) matches Some(OpenFile::Buffer(id))
                    ==> final(io).buffers@[id as int]@ == old(io).buffers@[id as int]@
                    + crate::builtins::spec_duration_text(t.self_user.0, t.self_user.1) + " "@
                    + crate::builtins::spec_duration_text(t.self_system.0, t.self_system.1)
                    + "\n"@ + crate::builtins::spec_duration_text(
                    t.children_user.0,
                    t.children_user.1,
                ) + " "@ + crate::builtins::spec_duration_text(
                    t.children_system.0,
                    t.children_system.1,
                ) + "\n"@)),
                None => true,
            }
        },
        kind is Dirs ==> {
            &&& (table.spec_get(1) is Some ==> r.exit_code == 0)
            &&& (table.spec_get(1) matches Some(OpenFile::Buffer(id))
                ==> final(io).buffers@[id as int]@ == old(io).buffers@[id as int]@ + old(shell).working_dir@ + crate::builtins::spec_dirs_tail(old(shell).directory_stack@)
                + "\n"@)
        },
    decreases fuel, 0int, args@.len(),
{
    proof {
        assert(args.deep_view().len() == args@.len());
        assert forall|j: int| 0 <= j < args@.len() implies args.deep_view()[j] == (
        #[trigger] args@[j])@ by {}
    }
    match kind {
        BuiltinKind::Colon => crate::builtins::colon_command(),
        BuiltinKind::True => crate::builtins::true_command(),
        BuiltinKind::False => crate::builtins::false_command(),
        BuiltinKind::Echo => crate::builtins::echo_command(table, io, &args),
        BuiltinKind::Pwd => {
            // `-P` needs the host's symlink resolution, which the in-process
            // engine does not have; it prints the tracked directory and a
            // host resolving physically calls the builtin with the resolved
            // path.
            crate::builtins::pwd_command(shell, table, io, None)
        },
        BuiltinKind::Dirs => crate::builtins::dirs_command(shell, table, io),
        BuiltinKind::SetOptions => crate::builtins::set_options_command(shell, &args),
        BuiltinKind::Return => crate::builtins::return_command(table, io, &args),
        BuiltinKind::Exit => crate::builtins::exit_command(table, io, &args),
        BuiltinKind::Break => crate::builtins::break_command(table, io, &args),
        BuiltinKind::Continue => crate::builtins::continue_command(table, io, &args),
        BuiltinKind::Unset => crate::builtins::unset_command(shell, table, io, &args),
        BuiltinKind::Test => {
            let bracket = crate::strings::str_eq(command_name.as_str(), "[");
            crate::builtins::test_command(table, io, bracket, &args)
        },
        BuiltinKind::Popd => {
            let no_chdir = args.len() > 0 && crate::strings::str_eq(args[0].as_str(), "-n");
            crate::builtins::popd_command(shell, table, io, no_chdir)
        },
        BuiltinKind::Pushd => {
            if args.len() == 0 {
                let _ = write_via_fd(table, io, 2, "pushd: no other directory\n");
                ExecutionResult::general_error()
            } else {
                crate::builtins::pushd_command(shell, table, io, args[0].clone())
            }
        },
        BuiltinKind::Export => {
            // Leading flags, then declarations.
            let mut names_are_functions = false;
            let mut unexport = false;
            let n = args.len();
            let mut i: usize = 0;
            while i < n
                invariant
                    i <= n,
                    n == args@.len(),
                decreases n - i,
            {
                if crate::strings::str_eq(args[i].as_str(), "-f") {
                    names_are_functions = true;
                } else if crate::strings::str_eq(args[i].as_str(), "-n") {
                    unexport = true;
                } else if crate::strings::str_eq(args[i].as_str(), "-p") {
                } else {
                    break ;
                }
                i = i + 1;
            }
            let mut declarations: Vec<CommandArg> = Vec::new();
            while i < n
                invariant
                    i <= n,
                    n == args@.len(),
                decreases n - i,
            {
                declarations.push(parse_command_arg(&args[i]));
                i = i + 1;
            }
            match crate::builtins::export_command(
                shell,
                table,
                io,
                names_are_functions,
                unexport,
                &declarations,
            ) {
                Ok(res) => res,
                Err(e) => report_error(table, io, &e),
            }
        },
        BuiltinKind::Let => {
            // The arithmetic grammar belongs to the parser collaborator; the
            // engine hands each word over as a literal number or a variable
            // reference.
            let n = args.len();
            let mut exprs: Vec<ArithExpr> = Vec::new();
            let mut i: usize = 0;
            while i < n
                invariant
                    i <= n,
                    n == args@.len(),
                decreases n - i,
            {
                match crate::strings::parse_i64(args[i].as_str()) {
                    Some(v) => exprs.push(ArithExpr::Literal(v)),
                    None => exprs.push(ArithExpr::Variable(args[i].clone())),
                }
                i = i + 1;
            }
            match crate::builtins::let_command(shell, table, io, &exprs) {
                Ok(res) => res,
                Err(e) => report_error(table, io, &e),
            }
        },
        BuiltinKind::Suspend => {
            let force = args.len() > 0 && crate::strings::str_eq(args[0].as_str(), "-f");
            let pid = shell.pid;
            match crate::builtins::suspend_command(shell, table, io, force, pid) {
                Ok(res) => res,
                Err(e) => report_error(table, io, &e),
            }
        },
        BuiltinKind::BuiltinDispatch => {
            if args.len() == 0 {
                return ExecutionResult::success();
            }
            let target = args[0].clone();
            let reg = shell.find_builtin(target.as_str());
            match reg {
                Some(b) => {
                    if b.disabled {
                        let e = Error::new(ErrorKind::BuiltinNotFound(target));
                        return report_error(table, io, &e);
                    }
                    let mut rest: Vec<String> = Vec::new();
                    let n = args.len();
                    let mut i: usize = 1;
                    while i < n
                        invariant
                            1 <= i <= n,
                            n == args@.len(),
                            rest@.len() == i - 1,
                        decreases n - i,
                    {
                        rest.push(args[i].clone());
                        i = i + 1;
                    }
                    run_builtin(shell, io, table, positional, b.kind, &target, rest, fuel, cpu)
                },
                None => {
                    let e = Error::new(ErrorKind::BuiltinNotFound(target));
                    report_error(table, io, &e)
                },
            }
        },
        BuiltinKind::Times => {
            // The CPU-time readings come from the host through the
            // execution parameters; without them the builtin is
            // unavailable.
            match cpu {
                Some(t) => {
                    if t.self_user.1 < 1000 && t.self_system.1 < 1000 && t.children_user.1
                        < 1000 && t.children_system.1 < 1000 {
                        crate::builtins::times_command(
                            table,
                            io,
                            t.self_user,
                            t.self_system,
                            t.children_user,
                            t.children_system,
                        )
                    } else {
                        crate::builtins::unimplemented_command()
                    }
                },
                None => crate::builtins::unimplemented_command(),
            }
        },
        BuiltinKind::Brushctl => {
            // The tracing backend lives with the host.
            crate::builtins::unimplemented_command()
        },
        BuiltinKind::Unimplemented => crate::builtins::unimplemented_command(),
    }
}

impl Shell {
    /// A fresh parameters object: the standard file descriptors, the
    /// inherited process group, no cancellation.
    pub fn default_exec_params(&self) -> (r: ExecutionParameters)
        ensures
            r.open_files.spec_get(0) == Some(OpenFile::OsFd(0)),
            r.open_files.spec_get(1) == Some(OpenFile::OsFd(1)),
            r.open_files.spec_get(2) == Some(OpenFile::OsFd(2)),
            !r.cancelled,
            forall|io: IoStore| r.open_files.wf_for(io),
    {
        ExecutionParameters {
            open_files: OpenFiles::standard(),
            process_group_policy: ProcessGroupPolicy::Inherit,
            cancelled: false,
            cpu_times: None,
        }
    }

    /// Executes a parsed program.  The returned exit code is recorded as the
    /// shell's last exit code; the scope depth always comes back unchanged;
    /// a cancelled call performs no dispatch and reports the interrupt code.
    pub fn run_ast(
        &mut self,
        io: &mut IoStore,
        program: &Program,
        params: &ExecutionParameters,
    ) -> (r: ExecutionResult)
        requires
            old(self).wf(),
            params.open_files.wf_for(*old(io)),
        ensures
            final(self).wf(),
            final(self).env.spec_depth() == old(self).env.spec_depth(),
            final(self).last_exit_code == r.exit_code,
            io_extends(*final(io), *old(io)),
            params.cancelled ==> r.exit_code == spec_cancel_code() && *final(self) == (Shell {
                last_exit_code: spec_cancel_code(),
                ..*old(self)
            }),
            !params.cancelled && program.items@.len() == 0 ==> r.exit_code == 0 && final(io).buffers@ =~= old(io).buffers@ && final(io).files@ =~= old(io).files@ && final(io).pending@ == old(io).pending@,
            params.cancelled ==> final(io).buffers@ =~= old(io).buffers@ && final(io).files@
                =~= old(io).files@ && final(io).pending@ == old(io).pending@,
            !params.cancelled ==> (spec_lone_simple(*program) matches Some(sc)
                ==> spec_plain_command_outcome(*old(self), Seq::<Seq<char>>::empty(), sc, r)),
            !params.cancelled ==> (spec_lone_simple(*program) matches Some(sc4)
                ==> spec_plain_echo_output(
                *old(self),
                Seq::<Seq<char>>::empty(),
                sc4,
                params.open_files,
                *old(io),
                *final(io),
            )),
            !params.cancelled && spec_lone_subshell(*program) ==> spec_shell_preserved(
                *old(self),
                *final(self),
            ),
            (!params.cancelled && program.items@.len() > 0 && spec_all_const(
                *old(self),
                Seq::<Seq<char>>::empty(),
                program.items@,
            )) ==> r.exit_code == spec_item_code(
                *old(self),
                Seq::<Seq<char>>::empty(),
                program.items@.last(),
            ),
    {
        if params.cancelled {
            self.last_exit_code = 130;
            return ExecutionResult::new(130);
        }
        let positional: Vec<String> = Vec::new();
        proof {
            assert(positional.deep_view() =~= Seq::<Seq<char>>::empty());
        }
        let result = run_program(self, io, &params.open_files, &positional, program, 255, params.cpu_times);
        self.last_exit_code = result.exit_code;
        result
    }

    /// Calls a registered function as if from the shell: the arguments
    /// become its positional parameters.  The scope depth comes back
    /// unchanged, and the exit code is recorded as the last exit code.
    pub fn invoke_function(
        &mut self,
        io: &mut IoStore,
        name: &String,
        args: Vec<String>,
        params: &ExecutionParameters,
    ) -> (r: ExecutionResult)
        requires
            old(self).wf(),
            params.open_files.wf_for(*old(io)),
        ensures
            final(self).wf(),
            final(self).env.spec_depth() == old(self).env.spec_depth(),
            final(self).last_exit_code == r.exit_code,
            io_extends(*final(io), *old(io)),
            params.cancelled ==> r.exit_code == spec_cancel_code(),
            !params.cancelled && crate::shell::spec_func_find(old(self).funcs@, name@) is None
                ==> r.exit_code == 127,
            r.control_flow is Normal || r.control_flow is ExitShell,
    {
        if params.cancelled {
            self.last_exit_code = 130;
            return ExecutionResult::new(130);
        }
        let result = invoke_function_inner(self, io, &params.open_files, name, args, 255, params.cpu_times);
        self.last_exit_code = result.exit_code;
        result
    }
}

} // verus!
