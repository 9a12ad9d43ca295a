//! End-to-end scenarios: scripts run through the engine against capture
//! buffers.

use std::rc::Rc;

use bash_shell::ast::{
    AndOrList, AndOrOp, CaseArm, CaseArmMode, Command, Pipeline, Program, Redirect,
    SimpleCommand, Word, WordPiece,
};
use bash_shell::strings::glob_match;
use bash_shell::engine::{ExecutionParameters, ProcessGroupPolicy};
use bash_shell::openfiles::{IoStore, OpenFile, OpenFiles};
use bash_shell::results::ExecutionControlFlow;
use bash_shell::shell::{Shell, default_builtins};

fn word(text: &str) -> Word {
    Word { pieces: vec![WordPiece::Literal(text.to_owned())] }
}

fn simple(words: Vec<Word>) -> Command {
    Command::Simple(SimpleCommand { assignments: vec![], words, redirects: vec![] })
}

fn cmd_pipeline(cmd: Command) -> Pipeline {
    Pipeline { negate: false, stages: vec![cmd] }
}

fn item(cmd: Command) -> AndOrList {
    AndOrList { first: cmd_pipeline(cmd), rest: vec![] }
}

fn program(items: Vec<AndOrList>) -> Program {
    Program { items }
}

struct Capture {
    io: IoStore,
    out_id: usize,
    err_id: usize,
    params: ExecutionParameters,
}

fn capture() -> Capture {
    let mut io = IoStore::new();
    let out_id = io.new_buffer();
    let err_id = io.new_buffer();
    let mut table = OpenFiles::new();
    table.set_fd(0, OpenFile::Null);
    table.set_fd(1, OpenFile::Buffer(out_id));
    table.set_fd(2, OpenFile::Buffer(err_id));
    let params = ExecutionParameters {
        open_files: table,
        process_group_policy: ProcessGroupPolicy::Inherit,
        cancelled: false,
        cpu_times: None,
    };
    Capture { io, out_id, err_id, params }
}

fn fresh_shell() -> Shell {
    Shell::new(default_builtins())
}

#[test]
fn empty_script_exits_zero() {
    let mut shell = fresh_shell();
    let mut cap = capture();
    let result = shell.run_ast(&mut cap.io, &program(vec![]), &cap.params);
    assert_eq!(result.exit_code, 0);
    assert_eq!(shell.last_exit_code, 0);
}

#[test]
fn colon_true_false_exit_codes() {
    for (name, expected) in [(":", 0u8), ("true", 0), ("false", 1)] {
        let mut shell = fresh_shell();
        let mut cap = capture();
        let prog = program(vec![item(simple(vec![word(name)]))]);
        let result = shell.run_ast(&mut cap.io, &prog, &cap.params);
        assert_eq!(result.exit_code, expected, "builtin {name}");
        assert_eq!(shell.last_exit_code, expected);
    }
}

#[test]
fn test_with_empty_args_fails() {
    let mut shell = fresh_shell();
    let mut cap = capture();
    let prog = program(vec![item(simple(vec![word("test")]))]);
    let result = shell.run_ast(&mut cap.io, &prog, &cap.params);
    assert_eq!(result.exit_code, 1);
}

#[test]
fn bracket_without_closing_is_invalid_usage() {
    let mut shell = fresh_shell();
    let mut cap = capture();
    let prog = program(vec![item(simple(vec![word("["), word("x")]))]);
    let result = shell.run_ast(&mut cap.io, &prog, &cap.params);
    assert_eq!(result.exit_code, 2);
    assert!(cap.io.buffer_contents(cap.err_id).contains("missing ']'"));
}

#[test]
fn export_with_no_args_prints_sorted_declarations() {
    let mut shell = fresh_shell();
    let mut cap = capture();
    // An exported array prints as a bare declare -x line among the scalars.
    shell
        .env
        .update_or_add(
            "MVAR",
            bash_shell::variables::ShellValueLiteral::Array(vec!["x".to_owned()]),
            bash_shell::env::VariableMutation::Export,
            bash_shell::env::EnvironmentLookup::Anywhere,
            bash_shell::env::EnvironmentScope::Global,
        )
        .unwrap();
    let prog = program(vec![
        item(simple(vec![word("export"), word("ZVAR=omega")])),
        item(simple(vec![word("export"), word("AVAR=alpha")])),
        item(simple(vec![word("export")])),
    ]);
    let result = shell.run_ast(&mut cap.io, &prog, &cap.params);
    assert_eq!(result.exit_code, 0);
    assert_eq!(
        cap.io.buffer_contents(cap.out_id),
        "declare -x AVAR=\"alpha\"\ndeclare -x MVAR\ndeclare -x ZVAR=\"omega\"\n"
    );
}

#[test]
fn popd_on_empty_stack_fails_and_changes_nothing() {
    let mut shell = fresh_shell();
    let mut cap = capture();
    let before_dir = shell.working_dir.clone();
    let prog = program(vec![item(simple(vec![word("popd")]))]);
    let result = shell.run_ast(&mut cap.io, &prog, &cap.params);
    assert_ne!(result.exit_code, 0);
    assert!(cap.io.buffer_contents(cap.err_id).contains("directory stack empty"));
    assert!(shell.directory_stack.is_empty());
    assert_eq!(shell.working_dir, before_dir);
    assert!(cap.io.buffer_contents(cap.out_id).is_empty());
}

#[test]
fn pushd_then_popd_restores_directory_and_stack() {
    let mut shell = fresh_shell();
    shell.working_dir = "/start".to_owned();
    let mut cap = capture();
    let prog = program(vec![
        item(simple(vec![word("pushd"), word("/elsewhere")])),
        item(simple(vec![word("popd")])),
    ]);
    let result = shell.run_ast(&mut cap.io, &prog, &cap.params);
    assert_eq!(result.exit_code, 0);
    assert_eq!(shell.working_dir, "/start");
    assert!(shell.directory_stack.is_empty());
}

#[test]
fn function_definition_and_invocation() {
    let mut shell = fresh_shell();
    let mut cap = capture();
    // hello() { echo "Hello, world: $@"; return 42; }
    let body = program(vec![
        item(Command::Simple(SimpleCommand {
            assignments: vec![],
            words: vec![
                word("echo"),
                Word {
                    pieces: vec![
                        WordPiece::Literal("Hello, world: ".to_owned()),
                        WordPiece::AllPositionals,
                    ],
                },
            ],
            redirects: vec![],
        })),
        item(simple(vec![word("return"), word("42")])),
    ]);
    let def = program(vec![item(Command::FunctionDef {
        name: "hello".to_owned(),
        body: Rc::new(body),
    })]);
    let result = shell.run_ast(&mut cap.io, &def, &cap.params);
    assert_eq!(result.exit_code, 0);
    assert!(shell.find_func("hello").is_some());

    let result = shell.invoke_function(
        &mut cap.io,
        &"hello".to_owned(),
        vec!["arg".to_owned()],
        &cap.params,
    );
    assert_eq!(result.exit_code, 42);
    assert_eq!(shell.last_exit_code, 42);
    assert_eq!(cap.io.buffer_contents(cap.out_id), "Hello, world: arg\n");
}

#[test]
fn pipeline_with_pipefail() {
    // set -o pipefail; false | true  ->  exit 1
    let mut shell = fresh_shell();
    let mut cap = capture();
    let prog = program(vec![
        item(simple(vec![word("set"), word("-o"), word("pipefail")])),
        AndOrList {
            first: Pipeline {
                negate: false,
                stages: vec![simple(vec![word("false")]), simple(vec![word("true")])],
            },
            rest: vec![],
        },
    ]);
    let result = shell.run_ast(&mut cap.io, &prog, &cap.params);
    assert_eq!(result.exit_code, 1);

    // Without pipefail: exit 0.
    let mut shell = fresh_shell();
    let mut cap = capture();
    let prog = program(vec![AndOrList {
        first: Pipeline {
            negate: false,
            stages: vec![simple(vec![word("false")]), simple(vec![word("true")])],
        },
        rest: vec![],
    }]);
    let result = shell.run_ast(&mut cap.io, &prog, &cap.params);
    assert_eq!(result.exit_code, 0);
}

#[test]
fn every_pipeline_stage_runs_regardless_of_earlier_failures() {
    // false | echo alive : the second stage's effect is observed even
    // though the first stage failed, so no stage is skipped.
    let mut shell = fresh_shell();
    let mut cap = capture();
    let prog = program(vec![AndOrList {
        first: Pipeline {
            negate: false,
            stages: vec![
                simple(vec![word("false")]),
                simple(vec![word("echo"), word("alive")]),
            ],
        },
        rest: vec![],
    }]);
    let result = shell.run_ast(&mut cap.io, &prog, &cap.params);
    assert_eq!(result.exit_code, 0);
    assert_eq!(cap.io.buffer_contents(cap.out_id), "alive\n");
}

#[test]
fn builder_configures_shell() {
    let shell = Shell::builder()
        .login_shell(true)
        .shell_name("/bin/bsh".to_owned())
        .pid(1234)
        .working_dir("/start".to_owned())
        .build();
    assert!(shell.options.login_shell);
    assert_eq!(shell.shell_name.as_deref(), Some("/bin/bsh"));
    assert_eq!(shell.pid, 1234);
    assert_eq!(shell.working_dir(), "/start");
    assert_eq!(shell.last_exit_code, 0);
}

#[test]
fn set_working_dir_updates_pwd_and_oldpwd() {
    let mut shell = fresh_shell();
    shell.working_dir = "/first".to_owned();
    shell.set_working_dir("/second".to_owned()).unwrap();
    assert_eq!(shell.working_dir(), "/second");
    assert_eq!(
        shell.env.get("PWD").unwrap().value,
        bash_shell::variables::ShellValue::Scalar("/second".to_owned())
    );
    assert_eq!(
        shell.env.get("OLDPWD").unwrap().value,
        bash_shell::variables::ShellValue::Scalar("/first".to_owned())
    );
}

#[test]
fn cancelled_execution_reports_interrupt_and_shell_stays_usable() {
    let mut shell = fresh_shell();
    let mut cap = capture();
    cap.params.cancelled = true;
    let prog = program(vec![item(simple(vec![word("echo"), word("never")]))]);
    let result = shell.run_ast(&mut cap.io, &prog, &cap.params);
    assert_eq!(result.exit_code, 130);
    assert_eq!(shell.last_exit_code, 130);
    assert!(cap.io.buffer_contents(cap.out_id).is_empty());

    let mut cap2 = capture();
    let prog2 = program(vec![item(simple(vec![word("echo"), word("ok")]))]);
    let result = shell.run_ast(&mut cap2.io, &prog2, &cap2.params);
    assert_eq!(result.exit_code, 0);
    assert_eq!(cap2.io.buffer_contents(cap2.out_id), "ok\n");
}

#[test]
fn redirection_scoping_leaves_outer_stdout_attached() {
    // { echo one >f; } ; echo two
    let mut shell = fresh_shell();
    let mut cap = capture();
    let inner = Command::Simple(SimpleCommand {
        assignments: vec![],
        words: vec![word("echo"), word("one")],
        redirects: vec![Redirect::OutputTo { fd: 1, target: word("f"), append: false }],
    });
    let prog = program(vec![
        item(Command::Group { body: program(vec![item(inner)]), redirects: vec![] }),
        item(simple(vec![word("echo"), word("two")])),
    ]);
    let result = shell.run_ast(&mut cap.io, &prog, &cap.params);
    assert_eq!(result.exit_code, 0);
    assert_eq!(cap.io.buffer_contents(cap.out_id), "two\n");
    assert_eq!(cap.io.file_contents("f").expect("file f exists"), "one\n");
}

#[test]
fn subshell_isolation_discards_mutations() {
    // X=1; ( X=2 ); echo $X
    let mut shell = fresh_shell();
    let mut cap = capture();
    let assign = |value: &str| Command::Simple(SimpleCommand {
        assignments: vec![("X".to_owned(), word(value))],
        words: vec![],
        redirects: vec![],
    });
    let prog = program(vec![
        item(assign("1")),
        item(Command::Subshell { body: program(vec![item(assign("2"))]) }),
        item(Command::Simple(SimpleCommand {
            assignments: vec![],
            words: vec![
                word("echo"),
                Word { pieces: vec![WordPiece::Variable("X".to_owned())] },
            ],
            redirects: vec![],
        })),
    ]);
    let result = shell.run_ast(&mut cap.io, &prog, &cap.params);
    assert_eq!(result.exit_code, 0);
    assert_eq!(cap.io.buffer_contents(cap.out_id), "1\n");
}

#[test]
fn command_not_found_reports_127() {
    let mut shell = fresh_shell();
    let mut cap = capture();
    let prog = program(vec![item(simple(vec![word("nosuchprogram")]))]);
    let result = shell.run_ast(&mut cap.io, &prog, &cap.params);
    assert_eq!(result.exit_code, 127);
    assert!(cap.io.buffer_contents(cap.err_id).contains("command not found"));
}

#[test]
fn builtin_dispatch_and_missing_builtin() {
    let mut shell = fresh_shell();
    let mut cap = capture();
    let prog = program(vec![item(simple(vec![word("builtin"), word("true")]))]);
    let result = shell.run_ast(&mut cap.io, &prog, &cap.params);
    assert_eq!(result.exit_code, 0);

    let mut cap = capture();
    let prog = program(vec![item(simple(vec![word("builtin"), word("nosuch")]))]);
    let result = shell.run_ast(&mut cap.io, &prog, &cap.params);
    assert_eq!(result.exit_code, 127);
}

#[test]
fn and_or_short_circuits() {
    let mut shell = fresh_shell();
    let mut cap = capture();
    // false && echo skipped || echo taken
    let prog = program(vec![AndOrList {
        first: cmd_pipeline(simple(vec![word("false")])),
        rest: vec![
            (AndOrOp::And, cmd_pipeline(simple(vec![word("echo"), word("skipped")]))),
            (AndOrOp::Or, cmd_pipeline(simple(vec![word("echo"), word("taken")]))),
        ],
    }]);
    let result = shell.run_ast(&mut cap.io, &prog, &cap.params);
    assert_eq!(result.exit_code, 0);
    assert_eq!(cap.io.buffer_contents(cap.out_id), "taken\n");
}

#[test]
fn negated_pipeline_inverts_exit_code() {
    let mut shell = fresh_shell();
    let mut cap = capture();
    let prog = program(vec![AndOrList {
        first: Pipeline { negate: true, stages: vec![simple(vec![word("false")])] },
        rest: vec![],
    }]);
    let result = shell.run_ast(&mut cap.io, &prog, &cap.params);
    assert_eq!(result.exit_code, 0);
}

#[test]
fn exit_surfaces_exit_shell_disposition() {
    let mut shell = fresh_shell();
    let mut cap = capture();
    let prog = program(vec![
        item(simple(vec![word("exit"), word("7")])),
        item(simple(vec![word("echo"), word("unreached")])),
    ]);
    let result = shell.run_ast(&mut cap.io, &prog, &cap.params);
    assert_eq!(result.exit_code, 7);
    assert!(matches!(result.control_flow, ExecutionControlFlow::ExitShell));
    assert!(cap.io.buffer_contents(cap.out_id).is_empty());
}

#[test]
fn set_and_unset_variable_restores_absence() {
    let mut shell = fresh_shell();
    let mut cap = capture();
    assert!(shell.env.get("NEWVAR").is_none());
    let assign = Command::Simple(SimpleCommand {
        assignments: vec![("NEWVAR".to_owned(), word("present"))],
        words: vec![],
        redirects: vec![],
    });
    let prog = program(vec![item(assign), item(simple(vec![word("unset"), word("NEWVAR")]))]);
    let result = shell.run_ast(&mut cap.io, &prog, &cap.params);
    assert_eq!(result.exit_code, 0);
    assert!(shell.env.get("NEWVAR").is_none());
}

#[test]
fn if_command_branches_on_guard() {
    let mut shell = fresh_shell();
    let mut cap = capture();
    let prog = program(vec![item(Command::If {
        cond: program(vec![item(simple(vec![word("true")]))]),
        then_body: program(vec![item(simple(vec![word("echo"), word("yes")]))]),
        else_body: program(vec![item(simple(vec![word("echo"), word("no")]))]),
    })]);
    let result = shell.run_ast(&mut cap.io, &prog, &cap.params);
    assert_eq!(result.exit_code, 0);
    assert_eq!(cap.io.buffer_contents(cap.out_id), "yes\n");
}

#[test]
fn while_loop_runs_until_guard_flips() {
    // X=a; while [ "$X" != "b" ]; do X=b; echo iter; done
    let mut shell = fresh_shell();
    let mut cap = capture();
    let x_word = Word { pieces: vec![WordPiece::Variable("X".to_owned())] };
    let guard = program(vec![item(simple(vec![
        word("["),
        x_word,
        word("!="),
        word("b"),
        word("]"),
    ]))]);
    let body = program(vec![
        item(Command::Simple(SimpleCommand {
            assignments: vec![("X".to_owned(), word("b"))],
            words: vec![],
            redirects: vec![],
        })),
        item(simple(vec![word("echo"), word("iter")])),
    ]);
    let prog = program(vec![
        item(Command::Simple(SimpleCommand {
            assignments: vec![("X".to_owned(), word("a"))],
            words: vec![],
            redirects: vec![],
        })),
        item(Command::While { cond: guard, body }),
    ]);
    let result = shell.run_ast(&mut cap.io, &prog, &cap.params);
    assert_eq!(result.exit_code, 0);
    assert_eq!(cap.io.buffer_contents(cap.out_id), "iter\n");
}

#[test]
fn break_leaves_the_loop() {
    // while true; do echo once; break; echo never; done
    let mut shell = fresh_shell();
    let mut cap = capture();
    let body = program(vec![
        item(simple(vec![word("echo"), word("once")])),
        item(simple(vec![word("break")])),
        item(simple(vec![word("echo"), word("never")])),
    ]);
    let prog = program(vec![item(Command::While {
        cond: program(vec![item(simple(vec![word("true")]))]),
        body,
    })]);
    let result = shell.run_ast(&mut cap.io, &prog, &cap.params);
    assert_eq!(result.exit_code, 0);
    assert_eq!(cap.io.buffer_contents(cap.out_id), "once\n");
}

#[test]
fn for_in_binds_each_word_and_continue_skips() {
    // for W in x y z; do echo $W; done
    let mut shell = fresh_shell();
    let mut cap = capture();
    let echo_w = simple(vec![
        word("echo"),
        Word { pieces: vec![WordPiece::Variable("W".to_owned())] },
    ]);
    let prog = program(vec![item(Command::ForIn {
        var: "W".to_owned(),
        words: vec![word("x"), word("y"), word("z")],
        body: program(vec![item(echo_w)]),
    })]);
    let result = shell.run_ast(&mut cap.io, &prog, &cap.params);
    assert_eq!(result.exit_code, 0);
    assert_eq!(cap.io.buffer_contents(cap.out_id), "x\ny\nz\n");

    // for W in x y; do continue; echo $W; done prints nothing.
    let mut shell = fresh_shell();
    let mut cap = capture();
    let echo_w = simple(vec![
        word("echo"),
        Word { pieces: vec![WordPiece::Variable("W".to_owned())] },
    ]);
    let prog = program(vec![item(Command::ForIn {
        var: "W".to_owned(),
        words: vec![word("x"), word("y")],
        body: program(vec![item(simple(vec![word("continue")])), item(echo_w)]),
    })]);
    let result = shell.run_ast(&mut cap.io, &prog, &cap.params);
    assert_eq!(result.exit_code, 0);
    assert!(cap.io.buffer_contents(cap.out_id).is_empty());
}

#[test]
fn break_with_level_leaves_nested_loops() {
    // while true; do while true; do break 2; done; echo inner; done
    let mut shell = fresh_shell();
    let mut cap = capture();
    let truth = || program(vec![item(simple(vec![word("true")]))]);
    let inner = Command::While {
        cond: truth(),
        body: program(vec![item(simple(vec![word("break"), word("2")]))]),
    };
    let outer = Command::While {
        cond: truth(),
        body: program(vec![
            item(inner),
            item(simple(vec![word("echo"), word("inner")])),
        ]),
    };
    let result = shell.run_ast(&mut cap.io, &program(vec![item(outer)]), &cap.params);
    assert_eq!(result.exit_code, 0);
    assert!(cap.io.buffer_contents(cap.out_id).is_empty());
}

#[test]
fn until_loop_runs_while_guard_fails() {
    // X=a; until [ "$X" = "b" ]; do X=b; echo tick; done
    let mut shell = fresh_shell();
    let mut cap = capture();
    let x_word = Word { pieces: vec![WordPiece::Variable("X".to_owned())] };
    let guard = program(vec![item(simple(vec![
        word("["),
        x_word,
        word("="),
        word("b"),
        word("]"),
    ]))]);
    let prog = program(vec![
        item(Command::Simple(SimpleCommand {
            assignments: vec![("X".to_owned(), word("a"))],
            words: vec![],
            redirects: vec![],
        })),
        item(Command::Until {
            cond: guard,
            body: program(vec![
                item(Command::Simple(SimpleCommand {
                    assignments: vec![("X".to_owned(), word("b"))],
                    words: vec![],
                    redirects: vec![],
                })),
                item(simple(vec![word("echo"), word("tick")])),
            ]),
        }),
    ]);
    let result = shell.run_ast(&mut cap.io, &prog, &cap.params);
    assert_eq!(result.exit_code, 0);
    assert_eq!(cap.io.buffer_contents(cap.out_id), "tick\n");
}

#[test]
fn case_selects_the_first_matching_arm() {
    // case x in a) echo wrong;; x) echo hit;; *) echo default;; esac
    let mut shell = fresh_shell();
    let mut cap = capture();
    let arm = |pattern: &str, text: &str, mode: CaseArmMode| CaseArm {
        patterns: vec![word(pattern)],
        body: program(vec![item(simple(vec![word("echo"), word(text)]))]),
        mode,
    };
    let prog = program(vec![item(Command::Case {
        subject: word("x"),
        arms: vec![
            arm("a", "wrong", CaseArmMode::Stop),
            arm("x", "hit", CaseArmMode::Stop),
            arm("*", "default", CaseArmMode::Stop),
        ],
    })]);
    let result = shell.run_ast(&mut cap.io, &prog, &cap.params);
    assert_eq!(result.exit_code, 0);
    assert_eq!(cap.io.buffer_contents(cap.out_id), "hit\n");
}

#[test]
fn case_fall_through_and_continue_matching() {
    let mut shell = fresh_shell();
    let mut cap = capture();
    let arm = |pattern: &str, text: &str, mode: CaseArmMode| CaseArm {
        patterns: vec![word(pattern)],
        body: program(vec![item(simple(vec![word("echo"), word(text)]))]),
        mode,
    };
    // case ab in a?) first;& zz) second;; *) third;; esac
    let prog = program(vec![item(Command::Case {
        subject: word("ab"),
        arms: vec![
            arm("a?", "first", CaseArmMode::FallThrough),
            arm("zz", "second", CaseArmMode::Stop),
            arm("*", "third", CaseArmMode::Stop),
        ],
    })]);
    let result = shell.run_ast(&mut cap.io, &prog, &cap.params);
    assert_eq!(result.exit_code, 0);
    assert_eq!(cap.io.buffer_contents(cap.out_id), "first\nsecond\n");

    // case ab in a*) one;;& *b) two;; esac
    let mut shell = fresh_shell();
    let mut cap = capture();
    let prog = program(vec![item(Command::Case {
        subject: word("ab"),
        arms: vec![
            arm("a*", "one", CaseArmMode::ContinueMatching),
            arm("*b", "two", CaseArmMode::Stop),
        ],
    })]);
    let result = shell.run_ast(&mut cap.io, &prog, &cap.params);
    assert_eq!(result.exit_code, 0);
    assert_eq!(cap.io.buffer_contents(cap.out_id), "one\ntwo\n");
}

#[test]
fn glob_patterns_match_shell_style() {
    assert!(glob_match("*", ""));
    assert!(glob_match("*", "anything"));
    assert!(glob_match("a?c", "abc"));
    assert!(!glob_match("a?c", "ac"));
    assert!(glob_match("*.rs", "engine.rs"));
    assert!(!glob_match("*.rs", "engine.rc"));
    assert!(glob_match("a*b*c", "axxbyyc"));
}

#[test]
fn dirs_prints_working_directory_then_stack() {
    let mut shell = fresh_shell();
    shell.working_dir = "/start".to_owned();
    let mut cap = capture();
    let prog = program(vec![
        item(simple(vec![word("pushd"), word("/one")])),
        item(simple(vec![word("pushd"), word("/two")])),
        item(simple(vec![word("dirs")])),
    ]);
    let result = shell.run_ast(&mut cap.io, &prog, &cap.params);
    assert_eq!(result.exit_code, 0);
    // pushd prints the stack after each push; dirs repeats the last view.
    assert_eq!(
        cap.io.buffer_contents(cap.out_id),
        "/one /start\n/two /one /start\n/two /one /start\n"
    );
}

#[test]
fn export_rejects_invalid_assignment_target() {
    // export a[0]=v : the target is not a valid variable name.
    let mut shell = fresh_shell();
    let mut cap = capture();
    let prog = program(vec![item(simple(vec![word("export"), word("a[0]=v")]))]);
    let result = shell.run_ast(&mut cap.io, &prog, &cap.params);
    assert_eq!(result.exit_code, 2);
    assert!(cap.io.buffer_contents(cap.err_id).contains("not a valid variable name"));
    assert!(shell.env.get("a[0]").is_none());
    assert!(shell.env.get("a").is_none());
}

#[test]
fn export_missing_function_is_invalid_usage() {
    let mut shell = fresh_shell();
    let mut cap = capture();
    let prog = program(vec![item(simple(vec![word("export"), word("-f"), word("nofunc")]))]);
    let result = shell.run_ast(&mut cap.io, &prog, &cap.params);
    assert_eq!(result.exit_code, 2);
    assert!(cap.io.buffer_contents(cap.err_id).contains("not a function"));
}

#[test]
fn writes_to_os_descriptors_are_recorded_for_the_host() {
    // With the standard table, builtin output cannot be written in-process;
    // it lands on the store's pending list, tagged with the descriptor.
    let mut shell = fresh_shell();
    let mut io = bash_shell::openfiles::IoStore::new();
    let params = shell.default_exec_params();
    let prog = program(vec![item(simple(vec![word("echo"), word("through")]))]);
    let result = shell.run_ast(&mut io, &prog, &params);
    assert_eq!(result.exit_code, 0);
    assert_eq!(io.pending.len(), 1);
    assert_eq!(io.pending[0].0, 1);
    assert_eq!(io.pending[0].1, "through\n");
}

#[test]
fn times_reports_host_readings_through_the_engine() {
    let mut shell = fresh_shell();
    let mut cap = capture();
    cap.params.cpu_times = Some(bash_shell::engine::CpuTimes {
        self_user: (0, 16),
        self_system: (0, 4),
        children_user: (61, 250),
        children_system: (0, 0),
    });
    let prog = program(vec![item(simple(vec![word("times")]))]);
    let result = shell.run_ast(&mut cap.io, &prog, &cap.params);
    assert_eq!(result.exit_code, 0);
    assert_eq!(
        cap.io.buffer_contents(cap.out_id),
        "0m0.016s 0m0.004s\n1m1.250s 0m0.000s\n"
    );

    // Without host readings the builtin reports the unimplemented sentinel.
    let mut shell = fresh_shell();
    let mut cap = capture();
    let prog = program(vec![item(simple(vec![word("times")]))]);
    let result = shell.run_ast(&mut cap.io, &prog, &cap.params);
    assert_eq!(result.exit_code, 99);
}

#[test]
fn scope_depth_preserved_across_function_calls() {
    let mut shell = fresh_shell();
    let mut cap = capture();
    let body = program(vec![item(simple(vec![word("true")]))]);
    let def = program(vec![item(Command::FunctionDef {
        name: "noop".to_owned(),
        body: Rc::new(body),
    })]);
    shell.run_ast(&mut cap.io, &def, &cap.params);
    assert_eq!(shell.env.depth(), 1);
    shell.invoke_function(&mut cap.io, &"noop".to_owned(), vec![], &cap.params);
    assert_eq!(shell.env.depth(), 1);
}
