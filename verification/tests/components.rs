//! Component-level behavior: signals, the environment, prompts, test
//! expressions, arithmetic, formatting, and the platform stubs.

use bash_shell::arith::eval_arith;
use bash_shell::ast::{ArithExpr, BinaryPredicate, TestExpr, UnaryPredicate};
use bash_shell::builtins::{ContentType, colon_get_content, format_duration, suspend_command, times_command};
use bash_shell::engine::{parse_command_arg, pipeline_exit_code};
use bash_shell::env::{
    EnvironmentLookup, EnvironmentScope, ShellEnvironment, VariableMutation,
};
use bash_shell::error::{Error, ErrorKind, Formatter};
use bash_shell::events::{EventConfig, EventsCommand, TraceEvent, events_execute};
use bash_shell::fsinfo::{
    ascii_lowercase, executable_from_extension, get_default_executable_search_paths,
    get_default_standard_utils_paths,
};
use bash_shell::openfiles::{IoStore, OpenFile, OpenFiles, write_via_fd};
use bash_shell::process::{
    ProcessOutput, ProcessWaitEvent, ProcessWaitResult, WaitDecision, wait_step,
};
use bash_shell::prompt::{
    LocalDateTime, PromptCache, PromptContext, day_of_week, expand_prompt,
    format_current_working_directory,
};
use bash_shell::shell::{Shell, default_builtins};
use bash_shell::signal::{
    Signal, continue_process, kill_process, poll_for_stopped_children, TrapSignal,
};
use bash_shell::strings::{i64_to_string, parse_i64, str_le, u64_to_string};
use bash_shell::testexpr::{eval_expr, execute_test};
use bash_shell::variables::{ShellValue, ShellValueLiteral, ShellVariable};

#[test]
fn signal_names_and_numbers() {
    assert_eq!(Signal::SIGINT.as_str(), "SIGINT");
    assert_eq!(Signal::SIGTERM.as_raw(), 15);
    assert_eq!(Signal::from_str("QUIT").unwrap(), Signal::SIGQUIT);
    assert_eq!(Signal::from_str("9").unwrap(), Signal::SIGKILL);
    let err = Signal::from_str("bogus").unwrap_err();
    assert!(matches!(err.kind, ErrorKind::InvalidSignal(ref s) if s == "bogus"));
    assert_eq!(Signal::try_from(2).unwrap(), Signal::SIGINT);
    assert!(Signal::try_from(99).is_err());
    let all = Signal::iterator();
    assert_eq!(all.len(), 7);
    assert_eq!(all[0], Signal::SIGINT);
}

#[test]
fn platform_signal_stubs() {
    let err = kill_process(1234, TrapSignal::Signal(Signal::SIGTERM)).unwrap_err();
    assert!(matches!(err.kind, ErrorKind::NotSupportedOnThisPlatform(_)));
    assert!(continue_process(1).is_err());
    assert_eq!(poll_for_stopped_children().unwrap(), false);
}

#[test]
fn environment_set_then_unset_restores_absence() {
    let mut env = ShellEnvironment::new();
    assert!(env.get("FOO").is_none());
    env.update_or_add(
        "FOO",
        ShellValueLiteral::Scalar("bar".to_owned()),
        VariableMutation::Keep,
        EnvironmentLookup::Anywhere,
        EnvironmentScope::Global,
    )
    .unwrap();
    assert_eq!(env.get("FOO").unwrap().value, ShellValue::Scalar("bar".to_owned()));
    assert_eq!(env.unset("FOO").unwrap(), true);
    assert!(env.get("FOO").is_none());
    assert_eq!(env.unset("FOO").unwrap(), false);
}

#[test]
fn readonly_variable_refuses_writes() {
    let mut env = ShellEnvironment {
        scopes: vec![vec![(
            "LOCKED".to_owned(),
            ShellVariable {
                value: ShellValue::Scalar("fixed".to_owned()),
                exported: false,
                readonly: true,
            },
        )]],
    };
    let err = env
        .update_or_add(
            "LOCKED",
            ShellValueLiteral::Scalar("new".to_owned()),
            VariableMutation::Keep,
            EnvironmentLookup::Anywhere,
            EnvironmentScope::Global,
        )
        .unwrap_err();
    assert!(matches!(err.kind, ErrorKind::ReadOnlyVariable(ref n) if n == "LOCKED"));
    assert!(env.unset("LOCKED").is_err());
    assert_eq!(env.get("LOCKED").unwrap().value, ShellValue::Scalar("fixed".to_owned()));
}

#[test]
fn exported_listing_covers_every_exported_variable_sorted() {
    let mut env = ShellEnvironment::new();
    for (name, value, exported) in
        [("BETA", "2", true), ("ALPHA", "1", true), ("HIDDEN", "x", false)]
    {
        env.update_or_add(
            name,
            ShellValueLiteral::Scalar(value.to_owned()),
            if exported { VariableMutation::Export } else { VariableMutation::Keep },
            EnvironmentLookup::Anywhere,
            EnvironmentScope::Global,
        )
        .unwrap();
    }
    env.update_or_add(
        "MIDDLE",
        ShellValueLiteral::Array(vec!["one".to_owned(), "two".to_owned()]),
        VariableMutation::Export,
        EnvironmentLookup::Anywhere,
        EnvironmentScope::Global,
    )
    .unwrap();
    // The listing holds every exported name, sorted; the array carries no
    // scalar value.
    let entries = env.exported_vars();
    assert_eq!(
        entries,
        vec![
            ("ALPHA".to_owned(), Some("1".to_owned())),
            ("BETA".to_owned(), Some("2".to_owned())),
            ("MIDDLE".to_owned(), None),
        ]
    );
    // The child environment map keeps only the scalars.
    let map = env.exported_env();
    assert_eq!(
        map,
        vec![("ALPHA".to_owned(), "1".to_owned()), ("BETA".to_owned(), "2".to_owned())]
    );
    for (name, value) in &map {
        let var = env.get(name).expect("entry names a variable");
        assert!(var.exported);
        assert_eq!(var.value, ShellValue::Scalar(value.clone()));
    }
}

#[test]
fn scope_shadowing_resolves_nearest_first() {
    let mut env = ShellEnvironment::new();
    env.update_or_add(
        "V",
        ShellValueLiteral::Scalar("global".to_owned()),
        VariableMutation::Keep,
        EnvironmentLookup::Anywhere,
        EnvironmentScope::Global,
    )
    .unwrap();
    env.push_scope();
    env.update_or_add(
        "V",
        ShellValueLiteral::Scalar("local".to_owned()),
        VariableMutation::Keep,
        EnvironmentLookup::OnlyInCurrentScope,
        EnvironmentScope::Current,
    )
    .unwrap();
    assert_eq!(env.get("V").unwrap().value, ShellValue::Scalar("local".to_owned()));
    env.pop_scope().unwrap();
    assert_eq!(env.get("V").unwrap().value, ShellValue::Scalar("global".to_owned()));
}

#[test]
fn prompt_rendering_fixed_context() {
    let ctx = PromptContext {
        user: "alice".to_owned(),
        hostname: "host.example".to_owned(),
        working_dir: "/home/alice".to_owned(),
        home: "/home/alice".to_owned(),
        is_root: false,
        jobs_count: 0,
        shell_name: Some("/bin/bsh".to_owned()),
        now: LocalDateTime {
            year: 2024,
            month: 12,
            day: 25,
            hour: 13,
            minute: 34,
            second: 56,
            nanosecond: 0,
        },
        expand_prompt_strings: false,
    };
    assert_eq!(expand_prompt(&ctx, "\\u@\\h:\\w\\$ ").unwrap(), "alice@host:~$ ");
    assert_eq!(expand_prompt(&ctx, "\\u@\\H:\\w\\$ ").unwrap(), "alice@host.example:~$ ");
    assert_eq!(expand_prompt(&ctx, "\\s \\t").unwrap(), "bsh 13:34:56");
    assert_eq!(expand_prompt(&ctx, "\\101\\102").unwrap(), "AB");
    // Rendering twice from the same context gives the same text.
    assert_eq!(
        expand_prompt(&ctx, "\\u@\\h:\\w\\$ ").unwrap(),
        expand_prompt(&ctx, "\\u@\\h:\\w\\$ ").unwrap()
    );
    // Unimplemented pieces are reported, not rendered.
    assert!(expand_prompt(&ctx, "\\#").is_err());
}

#[test]
fn cwd_basename_keeps_the_root_path() {
    assert_eq!(format_current_working_directory("/", "", false, true), "/");
    assert_eq!(format_current_working_directory("/home/alice", "", false, true), "alice");
    assert_eq!(format_current_working_directory("/home/alice", "/home/alice", true, true), "~");
}

#[test]
fn prompt_cache_returns_parsed_pieces() {
    let mut cache = PromptCache::new();
    let first = cache.get_or_parse("\\u@\\h").len();
    let again = cache.get_or_parse("\\u@\\h").len();
    assert_eq!(first, 3);
    assert_eq!(again, 3);
    assert_eq!(cache.entries.len(), 1);
}

#[test]
fn day_of_week_matches_known_dates() {
    assert_eq!(day_of_week(2024, 12, 25), 3); // Wednesday
    assert_eq!(day_of_week(2000, 1, 1), 6); // Saturday
    assert_eq!(day_of_week(1970, 1, 1), 4); // Thursday
}

#[test]
fn test_expressions_evaluate() {
    assert_eq!(eval_expr(&TestExpr::False).unwrap(), false);
    assert_eq!(eval_expr(&TestExpr::Literal("x".to_owned())).unwrap(), true);
    assert_eq!(eval_expr(&TestExpr::Literal(String::new())).unwrap(), false);
    assert_eq!(
        eval_expr(&TestExpr::UnaryTest(UnaryPredicate::StringHasZeroLength, String::new()))
            .unwrap(),
        true
    );
    assert_eq!(
        eval_expr(&TestExpr::BinaryTest(
            BinaryPredicate::ArithmeticLessThan,
            "3".to_owned(),
            "10".to_owned()
        ))
        .unwrap(),
        true
    );
    assert!(eval_expr(&TestExpr::BinaryTest(
        BinaryPredicate::ArithmeticEqual,
        "x".to_owned(),
        "1".to_owned()
    ))
    .is_err());
    // Short-circuit: the unreached error operand is not observed.
    let and = TestExpr::And(
        Box::new(TestExpr::False),
        Box::new(TestExpr::BinaryTest(
            BinaryPredicate::ArithmeticEqual,
            "x".to_owned(),
            "1".to_owned(),
        )),
    );
    assert_eq!(eval_expr(&and).unwrap(), false);
}

#[test]
fn execute_test_argument_rules() {
    let args = |xs: &[&str]| xs.iter().map(|s| s.to_string()).collect::<Vec<_>>();
    assert_eq!(execute_test(&args(&[])).unwrap(), false);
    assert_eq!(execute_test(&args(&["hello"])).unwrap(), true);
    assert_eq!(execute_test(&args(&["!", ""])).unwrap(), true);
    assert_eq!(execute_test(&args(&["-n", "x"])).unwrap(), true);
    assert_eq!(execute_test(&args(&["-z", "x"])).unwrap(), false);
    assert_eq!(execute_test(&args(&["a", "=", "a"])).unwrap(), true);
    assert_eq!(execute_test(&args(&["a", "!=", "a"])).unwrap(), false);
    assert_eq!(execute_test(&args(&["2", "-ge", "2"])).unwrap(), true);
    assert_eq!(execute_test(&args(&["abc", "<", "abd"])).unwrap(), true);
    assert!(execute_test(&args(&["a", "b"])).is_err());
}

#[test]
fn arithmetic_evaluation() {
    let env = ShellEnvironment::new();
    let lit = |v: i64| Box::new(ArithExpr::Literal(v));
    assert_eq!(eval_arith(&ArithExpr::Plus(lit(2), lit(3)), &env).unwrap(), 5);
    assert_eq!(eval_arith(&ArithExpr::Times(lit(-4), lit(5)), &env).unwrap(), -20);
    assert_eq!(eval_arith(&ArithExpr::DividedBy(lit(7), lit(2)), &env).unwrap(), 3);
    let err = eval_arith(&ArithExpr::DividedBy(lit(1), lit(0)), &env).unwrap_err();
    assert!(matches!(err.kind, ErrorKind::ArithmeticEvaluation(_)));
    let overflow = ArithExpr::Plus(lit(i64::MAX), lit(1));
    assert!(eval_arith(&overflow, &env).is_err());
    // An unset or non-numeric variable counts as zero.
    assert_eq!(eval_arith(&ArithExpr::Variable("UNSET".to_owned()), &env).unwrap(), 0);
}

#[test]
fn number_rendering_and_parsing() {
    assert_eq!(u64_to_string(0), "0");
    assert_eq!(u64_to_string(1234567890), "1234567890");
    assert_eq!(i64_to_string(-42), "-42");
    assert_eq!(parse_i64("123"), Some(123));
    assert_eq!(parse_i64("-7"), Some(-7));
    assert_eq!(parse_i64(""), None);
    assert_eq!(parse_i64("12x"), None);
    assert_eq!(parse_i64("999999999999999999"), Some(999999999999999999));
    assert_eq!(parse_i64("9223372036854775807"), Some(i64::MAX));
    assert_eq!(parse_i64("-9223372036854775808"), Some(i64::MIN));
    assert_eq!(parse_i64("9223372036854775808"), None);
    assert_eq!(parse_i64("9999999999999999999"), None);
    assert!(str_le("abc", "abd"));
    assert!(!str_le("b", "ab"));
}

#[test]
fn let_with_no_expressions_reports_invalid_usage() {
    let shell = Shell::new(default_builtins());
    let mut io = IoStore::new();
    let err_id = io.new_buffer();
    let mut table = OpenFiles::new();
    table.set_fd(2, OpenFile::Buffer(err_id));
    let r = bash_shell::builtins::let_command(&shell, &table, &mut io, &vec![]).unwrap();
    assert_eq!(r.exit_code, 2);
    assert_eq!(io.buffer_contents(err_id), "missing expression\n");
}

#[test]
fn pwd_prints_physical_path_when_given() {
    let mut shell = Shell::new(default_builtins());
    shell.working_dir = "/logical".to_owned();
    let mut io = IoStore::new();
    let out_id = io.new_buffer();
    let mut table = OpenFiles::new();
    table.set_fd(1, OpenFile::Buffer(out_id));
    let resolved = "/physical".to_owned();
    let r = bash_shell::builtins::pwd_command(&shell, &table, &mut io, Some(&resolved));
    assert_eq!(r.exit_code, 0);
    assert_eq!(io.buffer_contents(out_id), "/physical\n");
    let r = bash_shell::builtins::pwd_command(&shell, &table, &mut io, None);
    assert_eq!(r.exit_code, 0);
    assert_eq!(io.buffer_contents(out_id), "/physical\n/logical\n");
}

#[test]
fn duration_formatting() {
    assert_eq!(format_duration(0, 16), "0m0.016s");
    assert_eq!(format_duration(75, 250), "1m15.250s");
    assert_eq!(format_duration(3600, 5), "60m0.005s");
}

#[test]
fn times_builtin_writes_two_lines() {
    let mut io = IoStore::new();
    let out = io.new_buffer();
    let mut table = OpenFiles::new();
    table.set_fd(1, OpenFile::Buffer(out));
    let r = times_command(&table, &mut io, (0, 16), (0, 4), (1, 0), (0, 0));
    assert_eq!(r.exit_code, 0);
    assert_eq!(io.buffer_contents(out), "0m0.016s 0m0.004s\n0m1.000s 0m0.000s\n");
}

#[test]
fn suspend_refuses_login_shell_without_force() {
    let mut io = IoStore::new();
    let err_id = io.new_buffer();
    let mut table = OpenFiles::new();
    table.set_fd(2, OpenFile::Buffer(err_id));
    let mut shell = Shell::new(default_builtins());
    shell.options.login_shell = true;
    let r = suspend_command(&shell, &table, &mut io, false, 42).unwrap();
    assert_eq!(r.exit_code, 2);
    assert!(io.buffer_contents(err_id).contains("login shell"));
    // Forced, the stub platform reports it cannot signal.
    let err = suspend_command(&shell, &table, &mut io, true, 42).unwrap_err();
    assert!(matches!(err.kind, ErrorKind::NotSupportedOnThisPlatform(_)));
}

#[test]
fn event_config_enable_disable_status() {
    let mut config = EventConfig::new();
    let mut io = IoStore::new();
    let out = io.new_buffer();
    let mut table = OpenFiles::new();
    table.set_fd(1, OpenFile::Buffer(out));
    events_execute(&mut config, &table, &mut io, EventsCommand::Enable(TraceEvent::Commands));
    events_execute(&mut config, &table, &mut io, EventsCommand::Enable(TraceEvent::Jobs));
    events_execute(&mut config, &table, &mut io, EventsCommand::Disable(TraceEvent::Commands));
    events_execute(&mut config, &table, &mut io, EventsCommand::Status);
    assert_eq!(io.buffer_contents(out), "jobs\n");
    assert_eq!(config.get_enabled(), &vec![TraceEvent::Jobs]);
}

#[test]
fn fs_decisions() {
    assert_eq!(ascii_lowercase("EXE"), "exe");
    assert!(executable_from_extension(true, Some(&"ExE".to_owned())));
    assert!(!executable_from_extension(true, Some(&"txt".to_owned())));
    assert!(!executable_from_extension(false, Some(&"exe".to_owned())));
    assert!(!executable_from_extension(true, None));
    assert_eq!(
        get_default_executable_search_paths("a;;b;c;"),
        vec!["a".to_owned(), "b".to_owned(), "c".to_owned()]
    );
    assert!(get_default_executable_search_paths("").is_empty());
    let utils = get_default_standard_utils_paths("C:\\Windows");
    assert_eq!(utils[0], "C:\\Windows\\System32");
    assert_eq!(utils[1], "C:\\Windows\\System32\\WindowsPowerShell\\v1.0");
}

#[test]
fn wait_step_decisions() {
    let (d, sigint) = wait_step(ProcessWaitEvent::CancellationFired, true);
    assert!(matches!(d, WaitDecision::Finish(ProcessWaitResult::Cancelled)));
    assert!(sigint);
    let out = ProcessOutput { exit_code: 3, stdout: String::new(), stderr: String::new() };
    let (d, sigint) = wait_step(ProcessWaitEvent::ProcessExited(out), true);
    match d {
        WaitDecision::Finish(ProcessWaitResult::Completed(o)) => assert_eq!(o.exit_code, 3),
        other => panic!("unexpected decision: {other:?}"),
    }
    assert!(!sigint);
    let (d, _) = wait_step(ProcessWaitEvent::SigchldReceived { stopped_children: false }, true);
    assert!(matches!(d, WaitDecision::ContinueWaiting));
    let (d, _) = wait_step(ProcessWaitEvent::CtrlCReceived, true);
    assert!(matches!(d, WaitDecision::ContinueWaiting));
    let (d, _) = wait_step(ProcessWaitEvent::SigtstpReceived, false);
    assert!(matches!(d, WaitDecision::Finish(ProcessWaitResult::Stopped)));
}

#[test]
fn pipeline_codes_combine() {
    assert_eq!(pipeline_exit_code(&vec![1, 0], false, false), 0);
    assert_eq!(pipeline_exit_code(&vec![1, 0], true, false), 1);
    assert_eq!(pipeline_exit_code(&vec![0, 2, 0], true, false), 2);
    assert_eq!(pipeline_exit_code(&vec![0, 0], true, false), 0);
    assert_eq!(pipeline_exit_code(&vec![3], false, true), 0);
    assert_eq!(pipeline_exit_code(&vec![], false, false), 0);
}

#[test]
fn declaration_arguments_split_on_valid_names() {
    match parse_command_arg(&"NAME=value".to_owned()) {
        bash_shell::ast::CommandArg::Assignment(n, v) => {
            assert_eq!(n, "NAME");
            assert_eq!(v, "value");
        }
        other => panic!("expected assignment, got {other:?}"),
    }
    assert!(matches!(
        parse_command_arg(&"1BAD=value".to_owned()),
        bash_shell::ast::CommandArg::Word(_)
    ));
    assert!(matches!(
        parse_command_arg(&"plain".to_owned()),
        bash_shell::ast::CommandArg::Word(_)
    ));
    match parse_command_arg(&"X=a=b".to_owned()) {
        bash_shell::ast::CommandArg::Assignment(n, v) => {
            assert_eq!(n, "X");
            assert_eq!(v, "a=b");
        }
        other => panic!("expected assignment, got {other:?}"),
    }
}

#[test]
fn error_messages_and_formatting() {
    let err = Error::new(ErrorKind::CommandNotFound("frobnicate".to_owned()));
    assert_eq!(err.message(), "frobnicate: command not found");
    let plain = Formatter { use_color: false };
    assert_eq!(plain.format_error(&err), "error: frobnicate: command not found\n");
    let colored = Formatter { use_color: true };
    assert_eq!(
        colored.format_error(&err),
        "\u{1b}[31merror:\u{1b}[39m frobnicate: command not found\n"
    );
}

#[test]
fn write_via_fd_targets() {
    let mut io = IoStore::new();
    let buf = io.new_buffer();
    let mut table = OpenFiles::new();
    table.set_fd(1, OpenFile::Buffer(buf));
    table.set_fd(3, OpenFile::Null);
    write_via_fd(&table, &mut io, 1, "hello").unwrap();
    write_via_fd(&table, &mut io, 3, "dropped").unwrap();
    assert!(write_via_fd(&table, &mut io, 9, "missing").is_err());
    assert_eq!(io.buffer_contents(buf), "hello");
    let fid = io.open_file_for_write("log", false);
    table.set_fd(4, OpenFile::FileWrite(fid));
    write_via_fd(&table, &mut io, 4, "line").unwrap();
    assert_eq!(io.file_contents("log").unwrap(), "line");
    // Re-opening without append truncates; with append it keeps contents.
    let fid2 = io.open_file_for_write("log", true);
    io.append_to_file(fid2, "+more");
    assert_eq!(io.file_contents("log").unwrap(), "line+more");
    io.open_file_for_write("log", false);
    assert_eq!(io.file_contents("log").unwrap(), "");
}

#[test]
fn table_dup_and_close() {
    let mut table = OpenFiles::standard();
    table.dup(1, 5).unwrap();
    assert_eq!(table.get(5), Some(OpenFile::OsFd(1)));
    table.close(5);
    assert_eq!(table.get(5), None);
    let err = table.dup(9, 6).unwrap_err();
    assert!(matches!(err.kind, ErrorKind::InvalidRedirection));
    assert_eq!(table.take(2), Some(OpenFile::OsFd(2)));
    assert_eq!(table.get(2), None);
}

#[test]
fn colon_reports_its_content() {
    assert_eq!(
        colon_get_content(ContentType::DetailedHelp).unwrap(),
        "Null command; always returns success."
    );
    assert_eq!(colon_get_content(ContentType::ShortUsage).unwrap(), ":: :");
    assert_eq!(colon_get_content(ContentType::ShortDescription).unwrap(), ": - Null command");
    let err = colon_get_content(ContentType::ManPage).unwrap_err();
    assert!(matches!(err.kind, ErrorKind::Unimplemented(_)));
}

#[test]
fn missing_descriptor_write_is_an_io_error() {
    let mut io = IoStore::new();
    let table = OpenFiles::new();
    let err = write_via_fd(&table, &mut io, 1, "text").unwrap_err();
    assert!(matches!(err.kind, ErrorKind::Io(_)));
    assert_eq!(err.message(), "i/o error: bad file descriptor");
}
