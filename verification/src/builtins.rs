//! The builtin commands, as verified functions over the shell state and the
//! per-frame open-file table.  The engine dispatches to these; each one's
//! contract pins its output and its effect on the state.

use vstd::prelude::*;

use crate::env::{
    EnvironmentLookup, EnvironmentScope, VariableMutation, entries_have_name, entries_sorted,
    spec_exported_entry, spec_exported_name,
};
use crate::error::{Error, ErrorKind};
use crate::openfiles::{IoStore, OpenFiles, io_extends, write_via_fd};
use crate::results::{ExecutionControlFlow, ExecutionExitCode, ExecutionResult};
use crate::shell::Shell;
use crate::signal::{Signal, TrapSignal, kill_process};
use crate::strings::{spec_decimal, u64_to_string};
use crate::variables::ShellValueLiteral;

verus! {

/// What a builtin can be asked to print about itself.
#[derive(Clone, Copy, PartialEq, Eq, Structural, Debug)]
pub enum ContentType {
    DetailedHelp,
    ShortUsage,
    ShortDescription,
    ManPage,
}

/// The text the `:` builtin reports about itself.
pub fn colon_get_content(content_type: ContentType) -> (r: Result<String, Error>)
    ensures
        match content_type {
            ContentType::DetailedHelp => r matches Ok(s) && s@
                == "Null command; always returns success."@,
            ContentType::ShortUsage => r matches Ok(s) && s@ == ":: :"@,
            ContentType::ShortDescription => r matches Ok(s) && s@ == ": - Null command"@,
            ContentType::ManPage => r matches Err(e) && e.kind is Unimplemented,
        },
{
    match content_type {
        ContentType::DetailedHelp => Ok(String::from_str(
            "Null command; always returns success.",
        )),
        ContentType::ShortUsage => Ok(String::from_str(":: :")),
        ContentType::ShortDescription => Ok(String::from_str(": - Null command")),
        ContentType::ManPage => Err(Error::unimp("man page not yet implemented")),
    }
}

/// `:` — does nothing, successfully.
pub fn colon_command() -> (r: ExecutionResult)
    ensures
        r.exit_code == 0,
        r.control_flow is Normal,
{
    ExecutionResult::success()
}

/// `true` — returns 0.
pub fn true_command() -> (r: ExecutionResult)
    ensures
        r.exit_code == 0,
        r.control_flow is Normal,
{
    ExecutionResult::success()
}

/// `false` — returns a non-zero exit code.
pub fn false_command() -> (r: ExecutionResult)
    ensures
        r.exit_code == 1,
        r.control_flow is Normal,
{
    ExecutionResult::general_error()
}

/// A builtin the engine knows by name but does not implement: it reports the
/// unimplemented sentinel and the engine continues.
pub fn unimplemented_command() -> (r: ExecutionResult)
    ensures
        r.exit_code == 99,
        r.control_flow is Normal,
{
    ExecutionResult::from_exit_code(ExecutionExitCode::Unimplemented)
}

/// The text `echo` writes for the given arguments: they are joined by single
/// spaces and followed by a newline.
pub open spec fn spec_join_words(args: Seq<Seq<char>>) -> Seq<char>
    decreases args.len(),
{
    if args.len() == 0 {
        Seq::<char>::empty()
    } else if args.len() == 1 {
        args[0]
    } else {
        spec_join_words(args.drop_last()) + " "@ + args.last()
    }
}

/// Joins strings with single spaces.
pub fn join_words(args: &Vec<String>) -> (r: String)
    ensures
        r@ == spec_join_words(args.deep_view()),
{
    let n = args.len();
    proof {
        assert(args.deep_view().len() == args@.len());
    }
    let mut out = String::new();
    let mut i: usize = 0;
    while i < n
        invariant
            i <= n,
            n == args@.len(),
            args.deep_view().len() == args@.len(),
            forall|j: int| 0 <= j < n ==> args.deep_view()[j] == (#[trigger] args@[j])@,
            out@ == spec_join_words(args.deep_view().subrange(0, i as int)),
        decreases n - i,
    {
        if i > 0 {
            out.append(" ");
        }
        out.append(args[i].as_str());
        proof {
            let dv = args.deep_view();
            assert(dv.subrange(0, i + 1).drop_last() =~= dv.subrange(0, i as int));
            assert(dv.subrange(0, i + 1).last() == dv[i as int]);
            if i == 0 {
                assert(out@ == dv[0]);
            }
        }
        i = i + 1;
    }
    proof {
        assert(args.deep_view().subrange(0, n as int) =~= args.deep_view());
    }
    out
}

/// `echo` — writes its arguments, joined by spaces, and a newline to FD 1.
pub fn echo_command(table: &OpenFiles, io: &mut IoStore, args: &Vec<String>) -> (r:
    ExecutionResult)
    requires
        table.wf_for(*old(io)),
    ensures
        table.wf_for(*final(io)),
        io_extends(*final(io), *old(io)),
        r.control_flow is Normal,
        table.spec_get(1) matches Some(crate::openfiles::OpenFile::Buffer(id))
            ==> final(io).buffers@[id as int]@ == old(io).buffers@[id as int]@
            + spec_join_words(args.deep_view()) + "\n"@,
        table.spec_get(1) is Some ==> r.exit_code == 0,
        table.spec_get(1) is None ==> r.exit_code == 1,
{
    let text = join_words(args).concat("\n");
    match write_via_fd(table, io, 1, text.as_str()) {
        Ok(_) => ExecutionResult::success(),
        Err(_) => ExecutionResult::general_error(),
    }
}

/// Renders a CPU time of `secs` seconds plus `millis` milliseconds the way
/// `times` reports it: `MmS.FFFs`.
pub open spec fn spec_duration_text(secs: u64, millis: u64) -> Seq<char> {
    spec_decimal((secs / 60) as nat) + "m"@ + spec_decimal((secs % 60) as nat) + "."@
        + spec_decimal((millis / 100) as nat) + spec_decimal(((millis / 10) % 10) as nat)
        + spec_decimal((millis % 10) as nat) + "s"@
}

/// Formats a duration as minutes, seconds and milliseconds.
pub fn format_duration(secs: u64, millis: u64) -> (r: String)
    requires
        millis < 1000,
    ensures
        r@ == spec_duration_text(secs, millis),
{
    let mins = u64_to_string(secs / 60);
    let rem = u64_to_string(secs % 60);
    let h = u64_to_string(millis / 100);
    let t = u64_to_string((millis / 10) % 10);
    let o = u64_to_string(millis % 10);
    mins.concat("m").concat(rem.as_str()).concat(".").concat(h.as_str()).concat(t.as_str()).concat(
        o.as_str(),
    ).concat("s")
}

/// `times` — reports the shell's own and its children's user and system CPU
/// time, two lines of two durations each.  The host supplies the readings.
#[verifier::rlimit(100)]
#[verifier::spinoff_prover]
pub fn times_command(
    table: &OpenFiles,
    io: &mut IoStore,
    self_user: (u64, u64),
    self_system: (u64, u64),
    children_user: (u64, u64),
    children_system: (u64, u64),
) -> (r: ExecutionResult)
    requires
        table.wf_for(*old(io)),
        self_user.1 < 1000,
        self_system.1 < 1000,
        children_user.1 < 1000,
        children_system.1 < 1000,
    ensures
        table.wf_for(*final(io)),
        io_extends(*final(io), *old(io)),
        r.control_flow is Normal,
        table.spec_get(1) matches Some(crate::openfiles::OpenFile::Buffer(id))
            ==> final(io).buffers@[id as int]@ == old(io).buffers@[id as int]@ + spec_duration_text(
            self_user.0,
            self_user.1,
        ) + " "@ + spec_duration_text(self_system.0, self_system.1) + "\n"@ + spec_duration_text(
            children_user.0,
            children_user.1,
        ) + " "@ + spec_duration_text(children_system.0, children_system.1) + "\n"@,
        table.spec_get(1) is Some ==> r.exit_code == 0,
        table.spec_get(1) is None ==> r.exit_code == 1,
{
    let line1 = format_duration(self_user.0, self_user.1).concat(" ").concat(
        format_duration(self_system.0, self_system.1).as_str(),
    ).concat("\n");
    let line2 = format_duration(children_user.0, children_user.1).concat(" ").concat(
        format_duration(children_system.0, children_system.1).as_str(),
    ).concat("\n");
    let text = line1.concat(line2.as_str());
    match write_via_fd(table, io, 1, text.as_str()) {
        Ok(_) => ExecutionResult::success(),
        Err(_) => ExecutionResult::general_error(),
    }
}

/// `suspend` — asks the platform to stop the shell's own process.  A login
/// shell refuses unless forced.  The stub platform's signal set has no stop
/// signal and its kill refuses every request before the signal value
/// matters; a host that can suspend does so with the real stop signal.
pub fn suspend_command(shell: &Shell, table: &OpenFiles, io: &mut IoStore, force: bool, pid: i32) -> (r:
    Result<ExecutionResult, Error>)
    requires
        table.wf_for(*old(io)),
    ensures
        table.wf_for(*final(io)),
        io_extends(*final(io), *old(io)),
        shell.options.login_shell && !force ==> (r matches Ok(res) && res.exit_code == 2) && (
        table.spec_get(2) matches Some(crate::openfiles::OpenFile::Buffer(id2))
            ==> final(io).buffers@[id2 as int]@ == old(io).buffers@[id2 as int]@
            + "login shell cannot be suspended\n"@),
        !(shell.options.login_shell && !force) ==> (r matches Err(e) && (
        e.kind matches ErrorKind::NotSupportedOnThisPlatform(m) && m@ == "killing process"@)),
{
    if shell.options.login_shell && !force {
        let _ = write_via_fd(table, io, 2, "login shell cannot be suspended\n");
        return Ok(ExecutionResult::from_exit_code(ExecutionExitCode::InvalidUsage));
    }
    match kill_process(pid, TrapSignal::Signal(Signal::SIGTERM)) {
        Ok(_) => Ok(ExecutionResult::success()),
        Err(e) => Err(e),
    }
}

/// `test` and `[` — evaluates the test expression its arguments denote.
/// Under the `[` name the final argument must be `]` and is stripped.
pub fn test_command(
    table: &OpenFiles,
    io: &mut IoStore,
    bracket_form: bool,
    args: &Vec<String>,
) -> (r: ExecutionResult)
    requires
        table.wf_for(*old(io)),
    ensures
        table.wf_for(*final(io)),
        io_extends(*final(io), *old(io)),
        r.control_flow is Normal,
        bracket_form && !(args.deep_view().len() > 0 && args.deep_view().last() == "]"@) ==> (
        r.exit_code == 2 && (table.spec_get(2) matches Some(
            crate::openfiles::OpenFile::Buffer(id2),
        ) ==> final(io).buffers@[id2 as int]@ == old(io).buffers@[id2 as int]@
            + "[: missing ']'\n"@)),
        ({
            let effective = if bracket_form {
                args.deep_view().drop_last()
            } else {
                args.deep_view()
            };
            ((!bracket_form || (args.deep_view().len() > 0 && args.deep_view().last() == "]"@))
                && crate::testexpr::spec_test_args(effective) is Some) ==> (
            final(io).buffers@ =~= old(io).buffers@ && final(io).files@ =~= old(io).files@
                && final(io).pending@ == old(io).pending@)
        }),
        ({
            let effective = if bracket_form {
                args.deep_view().drop_last()
            } else {
                args.deep_view()
            };
            (!bracket_form || (args.deep_view().len() > 0 && args.deep_view().last() == "]"@))
                ==> match crate::testexpr::spec_test_args(effective) {
                Some(true) => r.exit_code == 0,
                Some(false) => r.exit_code == 1,
                None => r.exit_code == 2,
            }
        }),
{
    let n = args.len();
    proof {
        assert(args.deep_view().len() == args@.len());
        assert forall|j: int| 0 <= j < args@.len() implies args.deep_view()[j] == (
        #[trigger] args@[j])@ by {}
    }
    let mut effective: Vec<String> = Vec::new();
    if bracket_form {
        if n == 0 || !crate::strings::str_eq(args[n - 1].as_str(), "]") {
            let _ = write_via_fd(table, io, 2, "[: missing ']'\n");
            return ExecutionResult::from_exit_code(ExecutionExitCode::InvalidUsage);
        }
        let mut i: usize = 0;
        while i < n - 1
            invariant
                i <= n - 1,
                n == args@.len(),
                n >= 1,
                effective@.len() == i,
                forall|j: int| 0 <= j < i ==> (#[trigger] effective@[j])@ == args@[j]@,
            decreases n - 1 - i,
        {
            effective.push(args[i].clone());
            i = i + 1;
        }
        proof {
            assert(effective.deep_view() =~= args.deep_view().drop_last());
        }
    } else {
        let mut i: usize = 0;
        while i < n
            invariant
                i <= n,
                n == args@.len(),
                effective@.len() == i,
                forall|j: int| 0 <= j < i ==> (#[trigger] effective@[j])@ == args@[j]@,
            decreases n - i,
        {
            effective.push(args[i].clone());
            i = i + 1;
        }
        proof {
            assert(effective.deep_view() =~= args.deep_view());
        }
    }
    match crate::testexpr::execute_test(&effective) {
        Ok(true) => ExecutionResult::success(),
        Ok(false) => ExecutionResult::general_error(),
        Err(e) => {
            let _ = write_via_fd(table, io, 2, e.message().concat("\n").as_str());
            ExecutionResult::from_exit_code(ExecutionExitCode::InvalidUsage)
        },
    }
}

/// The lines `export` prints with no arguments: `declare -x name="value"`
/// for a scalar entry, the bare `declare -x name` for an exported variable
/// with no scalar rendering.
pub open spec fn spec_export_lines(entries: Seq<(String, Option<String>)>) -> Seq<char>
    decreases entries.len(),
{
    if entries.len() == 0 {
        Seq::<char>::empty()
    } else {
        spec_export_lines(entries.drop_last()) + "declare -x "@ + entries.last().0@ + (
        match entries.last().1 {
            Some(v) => "=\""@ + v@ + "\""@,
            None => Seq::<char>::empty(),
        }) + "\n"@
    }
}

/// Renders exported entries as `declare -x` lines.
pub fn render_export_lines(entries: &Vec<(String, Option<String>)>) -> (r: String)
    ensures
        r@ == spec_export_lines(entries@),
{
    let n = entries.len();
    let mut out = String::new();
    let mut i: usize = 0;
    while i < n
        invariant
            i <= n,
            n == entries@.len(),
            out@ == spec_export_lines(entries@.subrange(0, i as int)),
        decreases n - i,
    {
        out.append("declare -x ");
        out.append(entries[i].0.as_str());
        match &entries[i].1 {
            Some(v) => {
                out.append("=\"");
                out.append(v.as_str());
                out.append("\"");
            },
            None => {},
        }
        out.append("\n");
        proof {
            assert(entries@.subrange(0, i + 1).drop_last() =~= entries@.subrange(0, i as int));
            assert(entries@.subrange(0, i + 1).last() == entries@[i as int]);
        }
        i = i + 1;
    }
    proof {
        assert(entries@.subrange(0, n as int) =~= entries@);
    }
    out
}

/// What a complete export listing leaves on FD 1's capture buffer: the
/// `declare -x` lines of a sorted list that holds exactly the exported
/// names — every entry is an exported variable (value text for a scalar, a
/// bare name for an array), and every exported name appears.
pub open spec fn spec_listing_written(
    env: crate::env::ShellEnvironment,
    pre_io: IoStore,
    post_io: IoStore,
    table: OpenFiles,
) -> bool {
    table.spec_get(1) matches Some(crate::openfiles::OpenFile::Buffer(id))
        ==> exists|entries: Seq<(String, Option<String>)>|
        {
            &&& entries_sorted(entries)
            &&& (forall|j: int|
                0 <= j < entries.len() ==> spec_exported_entry(env, #[trigger] entries[j]))
            &&& (forall|n: Seq<char>|
                spec_exported_name(env, n) ==> entries_have_name(entries, n))
            &&& post_io.buffers@[id as int]@ == pre_io.buffers@[id as int]@ + spec_export_lines(
                entries,
            )
        }
}

/// `export` with no arguments: prints every exported variable, sorted by
/// name, one `declare -x` line each — with its value for a scalar, as a
/// bare name for an array.  Fails only when FD 1 is not open.
pub fn display_all_exported_vars(shell: &Shell, table: &OpenFiles, io: &mut IoStore) -> (r:
    Result<(), Error>)
    requires
        shell.wf(),
        table.wf_for(*old(io)),
    ensures
        table.wf_for(*final(io)),
        io_extends(*final(io), *old(io)),
        r is Ok <==> table.spec_get(1) is Some,
        spec_listing_written(shell.env, *old(io), *final(io), *table),
{
    let entries = shell.env.exported_vars();
    let text = render_export_lines(&entries);
    let r = write_via_fd(table, io, 1, text.as_str());
    proof {
        match table.spec_get(1) {
            Some(crate::openfiles::OpenFile::Buffer(id)) => {
                assert(final(io).buffers@[id as int]@ == old(io).buffers@[id as int]@
                    + spec_export_lines(entries@));
            },
            _ => {},
        }
    }
    match r {
        Ok(_) => Ok(()),
        Err(e) => Err(e),
    }
}

/// Whether a declaration argument is about the variable or function `n`.
pub open spec fn spec_decl_mentions(d: crate::ast::CommandArg, n: Seq<char>) -> bool {
    match d {
        crate::ast::CommandArg::Word(s) => s@ == n,
        crate::ast::CommandArg::Assignment(name, _) => name@ == n,
    }
}

/// Whether the text holds an equals sign anywhere.
pub open spec fn spec_has_eq(s: Seq<char>) -> bool {
    exists|j: int| 0 <= j < s.len() && s[j] == '='
}

fn contains_eq(s: &str) -> (r: bool)
    ensures
        r == spec_has_eq(s@),
{
    let n = s.unicode_len();
    let mut i: usize = 0;
    while i < n
        invariant
            i <= n,
            n == s@.len(),
            forall|j: int| 0 <= j < i ==> s@[j] != '=',
        decreases n - i,
    {
        if s.get_char(i) == '=' {
            return true;
        }
        i = i + 1;
    }
    false
}

/// What processing one export declaration does: an assignment installs the
/// scalar with the exported flag set per `-n` (refused on a readonly
/// variable); under `-f` a plain word toggles a registered function's
/// exported flag, and a missing function is invalid usage; a plain word
/// otherwise toggles an existing variable's flag; a word that looks like an
/// assignment but whose target is not a valid variable name (an array
/// element, say) is invalid usage and changes nothing.
pub open spec fn spec_process_decl_post(
    pre: Shell,
    post: Shell,
    pre_io: IoStore,
    post_io: IoStore,
    table: OpenFiles,
    r: Result<ExecutionResult, Error>,
    names_are_functions: bool,
    unexport: bool,
    decl: crate::ast::CommandArg,
) -> bool {
    match decl {
        crate::ast::CommandArg::Assignment(name, value) => {
            &&& ((r is Err) <==> (pre.env.spec_lookup(name@) matches Some(p) && p.readonly))
            &&& (r matches Err(e) ==> e.kind is ReadOnlyVariable)
            &&& (r is Err ==> forall|m: Seq<char>|
                post.env.spec_lookup(m) == pre.env.spec_lookup(m))
            &&& (r matches Ok(res) ==> {
                &&& res.exit_code == 0
                &&& res.control_flow is Normal
                &&& (post.env.spec_lookup(name@) matches Some(v) && v.exported == !unexport
                    && !v.readonly && (v.value matches crate::variables::ShellValue::Scalar(s)
                    && s@ == value@))
            })
            &&& post.funcs@ == pre.funcs@
        },
        crate::ast::CommandArg::Word(w) => {
            &&& r is Ok
            &&& (r matches Ok(res) ==> res.control_flow is Normal)
            &&& if names_are_functions {
                &&& post.env == pre.env
                &&& match crate::shell::spec_func_find(pre.funcs@, w@) {
                    Some(d) => {
                        &&& (r matches Ok(res) && res.exit_code == 0)
                        &&& (crate::shell::spec_func_find(post.funcs@, w@) matches Some(d2)
                            && d2.body == d.body && d2.exported == !unexport)
                    },
                    None => {
                        &&& (r matches Ok(res) && res.exit_code == 2)
                        &&& post.funcs@ == pre.funcs@
                        &&& (table.spec_get(2) matches Some(
                            crate::openfiles::OpenFile::Buffer(id2),
                        ) ==> post_io.buffers@[id2 as int]@ == pre_io.buffers@[id2 as int]@ + w@
                            + ": not a function\n"@)
                    },
                }
            } else if spec_has_eq(w@) {
                &&& (r matches Ok(res) && res.exit_code == 2)
                &&& post.env == pre.env
                &&& post.funcs@ == pre.funcs@
                &&& (table.spec_get(2) matches Some(crate::openfiles::OpenFile::Buffer(id2))
                    ==> post_io.buffers@[id2 as int]@ == pre_io.buffers@[id2 as int]@
                    + "not a valid variable name\n"@)
            } else {
                &&& (r matches Ok(res) && res.exit_code == 0)
                &&& post.funcs@ == pre.funcs@
                &&& match pre.env.spec_lookup(w@) {
                    Some(p) => post.env.spec_lookup(w@) == Some(
                        (crate::variables::ShellVariable { exported: !unexport, ..p }),
                    ),
                    None => post.env.spec_lookup(w@) is None,
                }
            }
        },
    }
}

/// Processes one export declaration against the shell.
pub fn process_decl(
    shell: &mut Shell,
    table: &OpenFiles,
    io: &mut IoStore,
    names_are_functions: bool,
    unexport: bool,
    decl: &crate::ast::CommandArg,
) -> (r: Result<ExecutionResult, Error>)
    requires
        old(shell).wf(),
        table.wf_for(*old(io)),
    ensures
        final(shell).wf(),
        final(shell).env.spec_depth() == old(shell).env.spec_depth(),
        table.wf_for(*final(io)),
        io_extends(*final(io), *old(io)),
        final(shell).options == old(shell).options,
        final(shell).directory_stack@ == old(shell).directory_stack@,
        final(shell).working_dir == old(shell).working_dir,
        final(shell).builtins@ == old(shell).builtins@,
        final(shell).last_exit_code == old(shell).last_exit_code,
        forall|m: Seq<char>|
            !spec_decl_mentions(*decl, m) ==> final(shell).env.spec_lookup(m) == old(shell).env.spec_lookup(m),
        forall|m: Seq<char>|
            !spec_decl_mentions(*decl, m) ==> crate::shell::spec_func_find(
                final(shell).funcs@,
                m,
            ) == crate::shell::spec_func_find(old(shell).funcs@, m),
        spec_process_decl_post(
            *old(shell),
            *final(shell),
            *old(io),
            *final(io),
            *table,
            r,
            names_are_functions,
            unexport,
            *decl,
        ),
{
    match decl {
        crate::ast::CommandArg::Word(s) => {
            if names_are_functions {
                if shell.set_func_exported(s.as_str(), !unexport) {
                    Ok(ExecutionResult::success())
                } else {
                    let msg = s.clone().concat(": not a function\n");
                    let ghost io_pre = *io;
                    let _ = write_via_fd(table, io, 2, msg.as_str());
                    proof {
                        match table.spec_get(2) {
                            Some(crate::openfiles::OpenFile::Buffer(id2)) => {
                                assert(io.buffers@[id2 as int]@ =~= io_pre.buffers@[id2 as int]@
                                    + s@ + ": not a function\n"@);
                            },
                            _ => {},
                        }
                    }
                    Ok(ExecutionResult::from_exit_code(ExecutionExitCode::InvalidUsage))
                }
            } else if contains_eq(s.as_str()) {
                let _ = write_via_fd(table, io, 2, "not a valid variable name\n");
                Ok(ExecutionResult::from_exit_code(ExecutionExitCode::InvalidUsage))
            } else {
                let _ = shell.env.set_exported(s.as_str(), !unexport);
                Ok(ExecutionResult::success())
            }
        },
        crate::ast::CommandArg::Assignment(name, value) => {
            let mutation = if unexport {
                VariableMutation::Unexport
            } else {
                VariableMutation::Export
            };
            match shell.env.update_or_add(
                name.as_str(),
                ShellValueLiteral::Scalar(value.clone()),
                mutation,
                EnvironmentLookup::Anywhere,
                EnvironmentScope::Global,
            ) {
                Ok(_) => Ok(ExecutionResult::success()),
                Err(e) => Err(e),
            }
        },
    }
}

/// `export` — marks variables (or, with `-f`, functions) exported or, with
/// `-n`, unexported; assignment arguments install the value too.  With no
/// arguments it prints every exported scalar variable.  Declarations apply
/// left to right; the result is the last failing declaration's, or success.
pub fn export_command(
    shell: &mut Shell,
    table: &OpenFiles,
    io: &mut IoStore,
    names_are_functions: bool,
    unexport: bool,
    declarations: &Vec<crate::ast::CommandArg>,
) -> (r: Result<ExecutionResult, Error>)
    requires
        old(shell).wf(),
        table.wf_for(*old(io)),
    ensures
        final(shell).wf(),
        final(shell).env.spec_depth() == old(shell).env.spec_depth(),
        table.wf_for(*final(io)),
        io_extends(*final(io), *old(io)),
        final(shell).options == old(shell).options,
        final(shell).directory_stack@ == old(shell).directory_stack@,
        final(shell).working_dir == old(shell).working_dir,
        final(shell).builtins@ == old(shell).builtins@,
        final(shell).last_exit_code == old(shell).last_exit_code,
        forall|n: Seq<char>|
            (forall|j: int|
                0 <= j < declarations@.len() ==> !spec_decl_mentions(
                    #[trigger] declarations@[j],
                    n,
                )) ==> final(shell).env.spec_lookup(n) == old(shell).env.spec_lookup(n),
        forall|n: Seq<char>|
            (forall|j: int|
                0 <= j < declarations@.len() ==> !spec_decl_mentions(
                    #[trigger] declarations@[j],
                    n,
                )) ==> crate::shell::spec_func_find(final(shell).funcs@, n)
                == crate::shell::spec_func_find(old(shell).funcs@, n),
        r matches Ok(res) ==> res.control_flow is Normal,
        declarations@.len() == 0 ==> {
            &&& final(shell).env == old(shell).env
            &&& final(shell).funcs@ == old(shell).funcs@
            &&& ((r is Ok) <==> table.spec_get(1) is Some)
            &&& (r matches Ok(res) ==> res.exit_code == 0 && res.control_flow is Normal)
            &&& spec_listing_written(old(shell).env, *old(io), *final(io), *table)
        },
        declarations@.len() == 1 ==> spec_process_decl_post(
            *old(shell),
            *final(shell),
            *old(io),
            *final(io),
            *table,
            r,
            names_are_functions,
            unexport,
            declarations@[0],
        ),
{
    if declarations.len() == 0 {
        match display_all_exported_vars(shell, table, io) {
            Ok(_) => {
                return Ok(ExecutionResult::success());
            },
            Err(e) => {
                return Err(e);
            },
        }
    }
    if declarations.len() == 1 {
        return process_decl(shell, table, io, names_are_functions, unexport, &declarations[0]);
    }
    let n = declarations.len();
    let mut result = ExecutionResult::success();
    let mut i: usize = 0;
    while i < n
        invariant
            i <= n,
            n >= 2,
            n == declarations@.len(),
            shell.wf(),
            shell.env.spec_depth() == old(shell).env.spec_depth(),
            table.wf_for(*io),
            io_extends(*io, *old(io)),
            shell.options == old(shell).options,
            shell.directory_stack@ == old(shell).directory_stack@,
            shell.working_dir == old(shell).working_dir,
            shell.builtins@ == old(shell).builtins@,
            shell.last_exit_code == old(shell).last_exit_code,
            forall|m: Seq<char>|
                (forall|j: int|
                    0 <= j < n ==> !spec_decl_mentions(#[trigger] declarations@[j], m))
                    ==> shell.env.spec_lookup(m) == old(shell).env.spec_lookup(m),
            forall|m: Seq<char>|
                (forall|j: int|
                    0 <= j < n ==> !spec_decl_mentions(#[trigger] declarations@[j], m))
                    ==> crate::shell::spec_func_find(shell.funcs@, m)
                    == crate::shell::spec_func_find(old(shell).funcs@, m),
            result.control_flow is Normal,
        decreases n - i,
    {
        let current = match process_decl(
            shell,
            table,
            io,
            names_are_functions,
            unexport,
            &declarations[i],
        ) {
            Ok(res) => res,
            Err(e) => {
                return Err(e);
            },
        };
        if !current.is_success() {
            result = current;
        }
        i = i + 1;
    }
    Ok(result)
}

/// `let` — evaluates each expression; the command fails when the last one
/// evaluates to zero, and a malformed expression is an error.
pub fn let_command(
    shell: &Shell,
    table: &OpenFiles,
    io: &mut IoStore,
    exprs: &Vec<crate::ast::ArithExpr>,
) -> (r: Result<ExecutionResult, Error>)
    requires
        shell.wf(),
        table.wf_for(*old(io)),
    ensures
        table.wf_for(*final(io)),
        io_extends(*final(io), *old(io)),
        exprs@.len() == 0 ==> (r matches Ok(res) && res.exit_code == 2) && (
        table.spec_get(2) matches Some(crate::openfiles::OpenFile::Buffer(id2))
            ==> final(io).buffers@[id2 as int]@ == old(io).buffers@[id2 as int]@
            + "missing expression\n"@),
        (exprs@.len() > 0 && exists|j: int|
            0 <= j < exprs@.len() && crate::arith::spec_arith_eval(
                #[trigger] exprs@[j],
                shell.env,
            ) is None) ==> (r matches Err(e) && e.kind is ArithmeticEvaluation),
        exprs@.len() > 0 && (forall|j: int|
            0 <= j < exprs@.len() ==> crate::arith::spec_arith_eval(
                #[trigger] exprs@[j],
                shell.env,
            ) is Some) ==> (r matches Ok(res) && (match crate::arith::spec_arith_eval(
            exprs@.last(),
            shell.env,
        ) {
            Some(v) => res.exit_code == (if v == 0 {
                1u8
            } else {
                0u8
            }),
            None => false,
        })),
{
    if exprs.len() == 0 {
        let _ = write_via_fd(table, io, 2, "missing expression\n");
        return Ok(ExecutionResult::from_exit_code(ExecutionExitCode::InvalidUsage));
    }
    let n = exprs.len();
    let mut result = ExecutionResult::from_exit_code(ExecutionExitCode::InvalidUsage);
    let mut i: usize = 0;
    while i < n
        invariant
            i <= n,
            n == exprs@.len(),
            shell.wf(),
            table.wf_for(*io),
            io_extends(*io, *old(io)),
            forall|j: int|
                0 <= j < i ==> crate::arith::spec_arith_eval(
                    #[trigger] exprs@[j],
                    shell.env,
                ) is Some,
            i > 0 ==> (match crate::arith::spec_arith_eval(exprs@[i - 1], shell.env) {
                Some(v) => result.exit_code == (if v == 0 {
                    1u8
                } else {
                    0u8
                }),
                None => false,
            }),
        decreases n - i,
    {
        let evaluated = match crate::arith::eval_arith(&exprs[i], &shell.env) {
            Ok(v) => v,
            Err(e) => {
                return Err(e);
            },
        };
        if evaluated == 0 {
            result = ExecutionResult::general_error();
        } else {
            result = ExecutionResult::success();
        }
        i = i + 1;
    }
    Ok(result)
}

/// The text `dirs` (and a successful `popd`/`pushd`) prints: the working
/// directory, then the stack from its top down, space-separated.
pub open spec fn spec_dirs_tail(stack: Seq<String>) -> Seq<char>
    decreases stack.len(),
{
    if stack.len() == 0 {
        Seq::<char>::empty()
    } else {
        " "@ + stack.last()@ + spec_dirs_tail(stack.drop_last())
    }
}

/// Renders the directory stack line.
proof fn lemma_dirs_tail_drop_first(s: Seq<String>)
    requires
        s.len() > 0,
    ensures
        spec_dirs_tail(s) == spec_dirs_tail(s.drop_first()) + " "@ + s[0]@,
    decreases s.len(),
{
    if s.len() == 1 {
        assert(s.drop_first() =~= Seq::<String>::empty());
        assert(s.drop_last() =~= Seq::<String>::empty());
        assert(spec_dirs_tail(s) =~= spec_dirs_tail(s.drop_first()) + " "@ + s[0]@);
    } else {
        lemma_dirs_tail_drop_first(s.drop_last());
        assert(s.drop_last().drop_first() =~= s.drop_first().drop_last());
        assert(s.drop_first().last() == s.last());
        assert(s.drop_last()[0] == s[0]);
        assert(spec_dirs_tail(s) =~= spec_dirs_tail(s.drop_first()) + " "@ + s[0]@);
    }
}

/// Renders the working directory and the stack from its top down.
pub fn render_dirs(working_dir: &String, stack: &Vec<String>) -> (r: String)
    ensures
        r@ == working_dir@ + spec_dirs_tail(stack@) + "\n"@,
{
    let mut out = working_dir.clone();
    let n = stack.len();
    let mut i = n;
    proof {
        assert(stack@.subrange(n as int, n as int) =~= Seq::<String>::empty());
        assert(out@ =~= working_dir@ + spec_dirs_tail(stack@.subrange(n as int, n as int)));
    }
    while i > 0
        invariant
            i <= n,
            n == stack@.len(),
            out@ == working_dir@ + spec_dirs_tail(stack@.subrange(i as int, n as int)),
        decreases i,
    {
        i = i - 1;
        out.append(" ");
        out.append(stack[i].as_str());
        proof {
            let s = stack@.subrange(i as int, n as int);
            assert(s[0] == stack@[i as int]);
            assert(s.drop_first() =~= stack@.subrange(i + 1, n as int));
            lemma_dirs_tail_drop_first(s);
            assert(out@ =~= working_dir@ + spec_dirs_tail(s));
        }
    }
    proof {
        assert(stack@.subrange(0, n as int) =~= stack@);
    }
    out.concat("\n")
}

/// `popd` — pops the directory stack and, unless `-n` is given, returns to
/// the popped directory; prints the resulting stack.  On an empty stack it
/// reports the error on FD 2 and fails, leaving everything unchanged.
pub fn popd_command(
    shell: &mut Shell,
    table: &OpenFiles,
    io: &mut IoStore,
    no_directory_change: bool,
) -> (r: ExecutionResult)
    requires
        old(shell).wf(),
        table.wf_for(*old(io)),
    ensures
        final(shell).wf(),
        final(shell).env == old(shell).env,
        table.wf_for(*final(io)),
        io_extends(*final(io), *old(io)),
        r.control_flow is Normal,
        old(shell).directory_stack@.len() == 0 ==> {
            &&& r.exit_code != 0
            &&& final(shell).directory_stack@ == old(shell).directory_stack@
            &&& final(shell).working_dir == old(shell).working_dir
            &&& (table.spec_get(2) matches Some(crate::openfiles::OpenFile::Buffer(id2))
                ==> final(io).buffers@[id2 as int]@ == old(io).buffers@[id2 as int]@
                + "popd: directory stack empty\n"@)
            &&& (table.spec_get(1) matches Some(crate::openfiles::OpenFile::Buffer(id1)) ==> (
            table.spec_get(2) != Some(crate::openfiles::OpenFile::Buffer(id1)) ==> final(io).buffers@[id1 as int]@ == old(io).buffers@[id1 as int]@))
        },
        old(shell).directory_stack@.len() > 0 ==> {
            &&& r.exit_code == 0
            &&& final(shell).directory_stack@ == old(shell).directory_stack@.drop_last()
            &&& (!no_directory_change ==> final(shell).working_dir == old(shell).directory_stack@.last())
            &&& (no_directory_change ==> final(shell).working_dir@ == old(shell).working_dir@)
            &&& (table.spec_get(1) matches Some(crate::openfiles::OpenFile::Buffer(id))
                ==> final(io).buffers@[id as int]@ == old(io).buffers@[id as int]@ + final(shell).working_dir@ + spec_dirs_tail(final(shell).directory_stack@) + "\n"@)
        },
{
    match shell.pop_directory(!no_directory_change) {
        Some(_) => {
            let text = render_dirs(&shell.working_dir, &shell.directory_stack);
            let _ = write_via_fd(table, io, 1, text.as_str());
            ExecutionResult::success()
        },
        None => {
            let _ = write_via_fd(table, io, 2, "popd: directory stack empty\n");
            ExecutionResult::general_error()
        },
    }
}

/// `dirs` — prints the working directory and the stack from its top down.
pub fn dirs_command(shell: &Shell, table: &OpenFiles, io: &mut IoStore) -> (r: ExecutionResult)
    requires
        table.wf_for(*old(io)),
    ensures
        table.wf_for(*final(io)),
        io_extends(*final(io), *old(io)),
        r.control_flow is Normal,
        table.spec_get(1) matches Some(crate::openfiles::OpenFile::Buffer(id))
            ==> final(io).buffers@[id as int]@ == old(io).buffers@[id as int]@
            + shell.working_dir@ + spec_dirs_tail(shell.directory_stack@) + "\n"@,
        table.spec_get(1) is Some ==> r.exit_code == 0,
        table.spec_get(1) is None ==> r.exit_code == 1,
{
    let text = render_dirs(&shell.working_dir, &shell.directory_stack);
    match write_via_fd(table, io, 1, text.as_str()) {
        Ok(_) => ExecutionResult::success(),
        Err(_) => ExecutionResult::general_error(),
    }
}

/// `pushd` — remembers the working directory on the stack, moves to the
/// given path, and prints the resulting stack.
pub fn pushd_command(shell: &mut Shell, table: &OpenFiles, io: &mut IoStore, path: String) -> (r:
    ExecutionResult)
    requires
        old(shell).wf(),
        table.wf_for(*old(io)),
    ensures
        final(shell).wf(),
        final(shell).env == old(shell).env,
        table.wf_for(*final(io)),
        io_extends(*final(io), *old(io)),
        r.exit_code == 0,
        r.control_flow is Normal,
        final(shell).directory_stack@ =~= old(shell).directory_stack@.push(
            old(shell).working_dir,
        ),
        final(shell).working_dir == path,
        table.spec_get(1) matches Some(crate::openfiles::OpenFile::Buffer(id))
            ==> final(io).buffers@[id as int]@ == old(io).buffers@[id as int]@ + final(shell).working_dir@ + spec_dirs_tail(final(shell).directory_stack@) + "\n"@,
{
    shell.push_directory(path);
    let text = render_dirs(&shell.working_dir, &shell.directory_stack);
    let _ = write_via_fd(table, io, 1, text.as_str());
    ExecutionResult::success()
}

/// `pwd` — prints the working directory.  With `-P` the host resolves
/// symlinks and hands the physical path in; without one the tracked
/// (logical) directory prints.
pub fn pwd_command(
    shell: &Shell,
    table: &OpenFiles,
    io: &mut IoStore,
    physical: Option<&String>,
) -> (r: ExecutionResult)
    requires
        table.wf_for(*old(io)),
    ensures
        table.wf_for(*final(io)),
        io_extends(*final(io), *old(io)),
        r.control_flow is Normal,
        table.spec_get(1) matches Some(crate::openfiles::OpenFile::Buffer(id))
            ==> final(io).buffers@[id as int]@ == old(io).buffers@[id as int]@ + (
            match physical {
                Some(p) => p@,
                None => shell.working_dir@,
            }) + "\n"@,
        table.spec_get(1) is Some ==> r.exit_code == 0,
        table.spec_get(1) is None ==> r.exit_code == 1,
{
    let dir = match physical {
        Some(p) => p.clone(),
        None => shell.working_dir.clone(),
    };
    let text = dir.concat("\n");
    match write_via_fd(table, io, 1, text.as_str()) {
        Ok(_) => ExecutionResult::success(),
        Err(_) => ExecutionResult::general_error(),
    }
}

/// `set` — adjusts shell options: `-o pipefail` and `+o pipefail` are
/// understood; anything else reports the unimplemented sentinel.
pub fn set_options_command(shell: &mut Shell, args: &Vec<String>) -> (r: ExecutionResult)
    requires
        old(shell).wf(),
    ensures
        final(shell).wf(),
        final(shell).env == old(shell).env,
        final(shell).directory_stack@ == old(shell).directory_stack@,
        final(shell).working_dir == old(shell).working_dir,
        r.control_flow is Normal,
        (args.deep_view().len() == 2 && args.deep_view()[0] == "-o"@ && args.deep_view()[1]
            == "pipefail"@) ==> {
            &&& final(shell).options == (crate::shell::ShellOptions {
                pipefail: true,
                ..old(shell).options
            })
            &&& r.exit_code == 0
        },
        (args.deep_view().len() == 2 && args.deep_view()[0] == "+o"@ && args.deep_view()[1]
            == "pipefail"@) ==> {
            &&& final(shell).options == (crate::shell::ShellOptions {
                pipefail: false,
                ..old(shell).options
            })
            &&& r.exit_code == 0
        },
        !(args.deep_view().len() == 2 && (args.deep_view()[0] == "-o"@ || args.deep_view()[0]
            == "+o"@) && args.deep_view()[1] == "pipefail"@) ==> final(shell).options == old(shell).options && r.exit_code == 99,
{
    if args.len() == 2 {
        let on = crate::strings::str_eq(args[0].as_str(), "-o");
        let off = crate::strings::str_eq(args[0].as_str(), "+o");
        if (on || off) && crate::strings::str_eq(args[1].as_str(), "pipefail") {
            shell.options.pipefail = on;
            proof {
                reveal_strlit("-o");
                reveal_strlit("+o");
                assert(("-o"@)[0] == '-');
                assert(("+o"@)[0] == '+');
                assert("-o"@ != "+o"@);
                assert(args.deep_view().len() == 2);
                assert(args.deep_view()[0] == args@[0]@);
                assert(args.deep_view()[1] == args@[1]@);
            }
            return ExecutionResult::success();
        }
    }
    proof {
        assert(args.deep_view().len() == args@.len());
        if args@.len() == 2 {
            assert(args.deep_view()[0] == args@[0]@);
            assert(args.deep_view()[1] == args@[1]@);
        }
    }
    ExecutionResult::from_exit_code(ExecutionExitCode::Unimplemented)
}

/// The exit code a `return`/`exit` argument denotes: accepted when it is a
/// decimal between 0 and 255.
pub open spec fn spec_small_code(s: Seq<char>) -> Option<u8> {
    match crate::strings::spec_parse_i64(s) {
        Some(v) => if 0 <= v <= 255 {
            Some(v as u8)
        } else {
            None
        },
        None => None,
    }
}

fn parse_small_code(s: &str) -> (r: Option<u8>)
    ensures
        r == spec_small_code(s@),
{
    match crate::strings::parse_i64(s) {
        Some(v) => if 0 <= v && v <= 255 {
            Some(v as u8)
        } else {
            None
        },
        None => None,
    }
}

/// `return` — surfaces the return disposition with the given code (0 when
/// absent); a malformed code reports invalid usage but still returns.
pub fn return_command(table: &OpenFiles, io: &mut IoStore, args: &Vec<String>) -> (r:
    ExecutionResult)
    requires
        table.wf_for(*old(io)),
    ensures
        table.wf_for(*final(io)),
        io_extends(*final(io), *old(io)),
        r.control_flow is ReturnFromFunction,
        args.deep_view().len() == 0 ==> r.exit_code == 0,
        args.deep_view().len() > 0 ==> (match spec_small_code(args.deep_view()[0]) {
            Some(c) => r.exit_code == c,
            None => r.exit_code == 2,
        }),
{
    proof {
        assert(args.deep_view().len() == args@.len());
        if args@.len() > 0 {
            assert(args.deep_view()[0] == args@[0]@);
        }
    }
    let code: u8 = if args.len() == 0 {
        0
    } else {
        match parse_small_code(args[0].as_str()) {
            Some(c) => c,
            None => {
                let _ = write_via_fd(table, io, 2, "return: numeric argument required\n");
                2
            },
        }
    };
    ExecutionResult { exit_code: code, control_flow: ExecutionControlFlow::ReturnFromFunction }
}

/// `exit` — surfaces the exit-shell disposition with the given code (0 when
/// absent).
pub fn exit_command(table: &OpenFiles, io: &mut IoStore, args: &Vec<String>) -> (r:
    ExecutionResult)
    requires
        table.wf_for(*old(io)),
    ensures
        table.wf_for(*final(io)),
        io_extends(*final(io), *old(io)),
        r.control_flow is ExitShell,
        args.deep_view().len() == 0 ==> r.exit_code == 0,
        args.deep_view().len() > 0 ==> (match spec_small_code(args.deep_view()[0]) {
            Some(c) => r.exit_code == c,
            None => r.exit_code == 2,
        }),
{
    proof {
        assert(args.deep_view().len() == args@.len());
        if args@.len() > 0 {
            assert(args.deep_view()[0] == args@[0]@);
        }
    }
    let code: u8 = if args.len() == 0 {
        0
    } else {
        match parse_small_code(args[0].as_str()) {
            Some(c) => c,
            None => {
                let _ = write_via_fd(table, io, 2, "exit: numeric argument required\n");
                2
            },
        }
    };
    ExecutionResult { exit_code: code, control_flow: ExecutionControlFlow::ExitShell }
}

/// The loop level a `break`/`continue` argument denotes: a decimal of at
/// least 1.
pub open spec fn spec_loop_level(s: Seq<char>) -> Option<u32> {
    match crate::strings::spec_parse_i64(s) {
        Some(v) => if 1 <= v <= 0xffffffff {
            Some(v as u32)
        } else {
            None
        },
        None => None,
    }
}

fn parse_loop_level(s: &str) -> (r: Option<u32>)
    ensures
        r == spec_loop_level(s@),
{
    match crate::strings::parse_i64(s) {
        Some(v) => if 1 <= v && v <= 0xffffffff {
            Some(v as u32)
        } else {
            None
        },
        None => None,
    }
}

/// `break` — surfaces the break disposition for the given number of
/// enclosing loops (one when absent); a malformed level is invalid usage.
pub fn break_command(table: &OpenFiles, io: &mut IoStore, args: &Vec<String>) -> (r:
    ExecutionResult)
    requires
        table.wf_for(*old(io)),
    ensures
        table.wf_for(*final(io)),
        io_extends(*final(io), *old(io)),
        args.deep_view().len() == 0 ==> r.control_flow == ExecutionControlFlow::Break(1)
            && r.exit_code == 0,
        args.deep_view().len() > 0 ==> (match spec_loop_level(args.deep_view()[0]) {
            Some(n) => r.control_flow == ExecutionControlFlow::Break(n) && r.exit_code == 0,
            None => r.exit_code == 2 && r.control_flow is Normal,
        }),
{
    proof {
        assert(args.deep_view().len() == args@.len());
        if args@.len() > 0 {
            assert(args.deep_view()[0] == args@[0]@);
        }
    }
    if args.len() == 0 {
        return ExecutionResult { exit_code: 0, control_flow: ExecutionControlFlow::Break(1) };
    }
    match parse_loop_level(args[0].as_str()) {
        Some(n) => ExecutionResult { exit_code: 0, control_flow: ExecutionControlFlow::Break(n) },
        None => {
            let _ = write_via_fd(table, io, 2, "break: numeric argument required\n");
            ExecutionResult::from_exit_code(ExecutionExitCode::InvalidUsage)
        },
    }
}

/// `continue` — surfaces the continue disposition for the given number of
/// enclosing loops (one when absent); a malformed level is invalid usage.
pub fn continue_command(table: &OpenFiles, io: &mut IoStore, args: &Vec<String>) -> (r:
    ExecutionResult)
    requires
        table.wf_for(*old(io)),
    ensures
        table.wf_for(*final(io)),
        io_extends(*final(io), *old(io)),
        args.deep_view().len() == 0 ==> r.control_flow == ExecutionControlFlow::Continue(1)
            && r.exit_code == 0,
        args.deep_view().len() > 0 ==> (match spec_loop_level(args.deep_view()[0]) {
            Some(n) => r.control_flow == ExecutionControlFlow::Continue(n) && r.exit_code == 0,
            None => r.exit_code == 2 && r.control_flow is Normal,
        }),
{
    proof {
        assert(args.deep_view().len() == args@.len());
        if args@.len() > 0 {
            assert(args.deep_view()[0] == args@[0]@);
        }
    }
    if args.len() == 0 {
        return ExecutionResult { exit_code: 0, control_flow: ExecutionControlFlow::Continue(1) };
    }
    match parse_loop_level(args[0].as_str()) {
        Some(n) => ExecutionResult {
            exit_code: 0,
            control_flow: ExecutionControlFlow::Continue(n),
        },
        None => {
            let _ = write_via_fd(table, io, 2, "continue: numeric argument required\n");
            ExecutionResult::from_exit_code(ExecutionExitCode::InvalidUsage)
        },
    }
}

/// `unset` — removes each named variable.  Readonly variables refuse and
/// fail the command; other names are removed or silently absent.
pub fn unset_command(shell: &mut Shell, table: &OpenFiles, io: &mut IoStore, args: &Vec<String>) -> (r:
    ExecutionResult)
    requires
        old(shell).wf(),
        table.wf_for(*old(io)),
    ensures
        final(shell).wf(),
        final(shell).env.spec_depth() == old(shell).env.spec_depth(),
        table.wf_for(*final(io)),
        io_extends(*final(io), *old(io)),
        r.control_flow is Normal,
        final(shell).funcs@ == old(shell).funcs@,
        final(shell).directory_stack@ == old(shell).directory_stack@,
        final(shell).working_dir == old(shell).working_dir,
        forall|n: Seq<char>|
            (forall|j: int| 0 <= j < args@.len() ==> (#[trigger] args@[j])@ != n)
                ==> final(shell).env.spec_lookup(n) == old(shell).env.spec_lookup(n),
        forall|j: int|
            0 <= j < args@.len() && old(shell).env.spec_count((#[trigger] args@[j])@) <= 1 && !(
            old(shell).env.spec_lookup(args@[j]@) matches Some(p) && p.readonly) ==> final(shell).env.spec_lookup(args@[j]@) is None,
        args@.len() == 1 ==> r.exit_code == (
        if (old(shell).env.spec_lookup(args@[0]@) matches Some(p) && p.readonly) {
            1u8
        } else {
            0u8
        }),
        (exists|j: int|
            0 <= j < args@.len() && (old(shell).env.spec_lookup(
                (#[trigger] args@[j])@,
            ) matches Some(p) && p.readonly)) ==> r.exit_code == 1,
        (forall|j: int|
            0 <= j < args@.len() ==> old(shell).env.spec_count((#[trigger] args@[j])@) <= 1
                && !(old(shell).env.spec_lookup(args@[j]@) matches Some(p) && p.readonly))
            ==> r.exit_code == 0,
{
    let n = args.len();
    let mut result = ExecutionResult::success();
    let mut i: usize = 0;
    while i < n
        invariant
            i <= n,
            n == args@.len(),
            shell.wf(),
            shell.env.spec_depth() == old(shell).env.spec_depth(),
            table.wf_for(*io),
            io_extends(*io, *old(io)),
            result.control_flow is Normal,
            i == 0 ==> result.exit_code == 0,
            shell.funcs@ == old(shell).funcs@,
            shell.directory_stack@ == old(shell).directory_stack@,
            shell.working_dir == old(shell).working_dir,
            forall|m: Seq<char>|
                (forall|j: int| 0 <= j < i ==> (#[trigger] args@[j])@ != m)
                    ==> shell.env.spec_lookup(m) == old(shell).env.spec_lookup(m)
                    && shell.env.spec_count(m) == old(shell).env.spec_count(m),
            forall|j: int|
                0 <= j < i && old(shell).env.spec_count((#[trigger] args@[j])@) <= 1 && !(old(shell).env.spec_lookup(args@[j]@) matches Some(p) && p.readonly)
                    ==> shell.env.spec_lookup(args@[j]@) is None,
            n == 1 && i == 1 ==> result.exit_code == (
            if (old(shell).env.spec_lookup(args@[0]@) matches Some(p) && p.readonly) {
                1u8
            } else {
                0u8
            }),
            forall|m: Seq<char>|
                (old(shell).env.spec_lookup(m) matches Some(p) && p.readonly)
                    ==> shell.env.spec_lookup(m) == old(shell).env.spec_lookup(m),
            (exists|j: int|
                0 <= j < i && (old(shell).env.spec_lookup(
                    (#[trigger] args@[j])@,
                ) matches Some(p) && p.readonly)) ==> result.exit_code == 1,
            (forall|j: int|
                0 <= j < i ==> old(shell).env.spec_count((#[trigger] args@[j])@) <= 1 && !(old(shell).env.spec_lookup(args@[j]@) matches Some(p) && p.readonly)) ==> result.exit_code
                == 0,
        decreases n - i,
    {
        let ghost w = args@[i as int]@;
        proof {
            if forall|k: int| 0 <= k < i ==> (#[trigger] args@[k])@ != w {
                assert(shell.env.spec_lookup(w) == old(shell).env.spec_lookup(w));
                assert(shell.env.spec_count(w) == old(shell).env.spec_count(w));
            }
        }
        match shell.env.unset(args[i].as_str()) {
            Ok(_) => {},
            Err(e) => {
                let _ = write_via_fd(table, io, 2, e.message().concat("\n").as_str());
                result = ExecutionResult::general_error();
            },
        }
        proof {
            assert forall|j: int|
                0 <= j < i + 1 && old(shell).env.spec_count((#[trigger] args@[j])@) <= 1 && !(
                old(shell).env.spec_lookup(args@[j]@) matches Some(p) && p.readonly) implies
                shell.env.spec_lookup(args@[j]@) is None by {
                let m = args@[j]@;
                if j < i {
                    if m != w {
                    }
                }
            }
        }
        i = i + 1;
    }
    result
}

} // verus!
