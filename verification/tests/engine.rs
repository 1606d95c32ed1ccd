use minishell::commands::Command;
use minishell::engine::{cd_outcome, join_with_spaces, RunResult, Step, IO};
use minishell::parser::{parse_input, Environment, RedirectType};

fn words(items: &[&str]) -> Vec<String> {
    items.iter().map(|s| s.to_string()).collect()
}

fn env() -> Environment {
    Environment {
        home: "/home/u".to_string(),
        search_path: words(&["/usr/bin", "/bin"]),
        files: words(&["/usr/bin/ls", "/bin/cat", "/usr/bin/wc", "/usr/bin/printf"]),
    }
}

fn write(to: IO, text: &str) -> Step {
    Step::Write { to, text: text.to_string() }
}

fn report(to: IO, text: &str) -> Step {
    Step::WriteError { to, text: text.to_string() }
}

fn spawn(path: &str, args: &[&str], stdin: IO, stdout: IO, stderr: IO) -> Step {
    Step::Spawn { path: path.to_string(), args: words(args), stdin, stdout, stderr }
}

fn steps_of(line: &str) -> Vec<Step> {
    parse_input(line, &env()).unwrap().run("/home/u")
}

#[test]
fn names_of_commands() {
    assert_eq!(Command::Exit.name(), "exit");
    assert_eq!(Command::Echo(words(&["a"])).name(), "echo");
    assert_eq!(Command::Type(vec![]).name(), "type");
    assert_eq!(Command::PWD.name(), "pwd");
    assert_eq!(Command::CD(vec![]).name(), "cd");
    assert_eq!(Command::InvalidCommand("x".to_string()).name(), "invalid_command");
    assert_eq!(Command::Executable("/usr/bin/ls".to_string(), vec![]).name(), "ls");
    assert_eq!(Command::Executable("rel/dir/tool".to_string(), vec![]).name(), "tool");
    assert_eq!(Command::Executable("/usr/bin/".to_string(), vec![]).name(), "bin");
}

#[test]
fn type_reports_builtins_programs_and_unknown_names() {
    assert_eq!(Command::Echo(vec![]).type_description(), "echo is a shell builtin");
    assert_eq!(Command::Exit.type_description(), "exit is a shell builtin");
    assert_eq!(Command::Type(vec![]).type_description(), "type is a shell builtin");
    assert_eq!(Command::PWD.type_description(), "pwd is a shell builtin");
    assert_eq!(Command::CD(vec![]).type_description(), "cd is a shell builtin");
    assert_eq!(
        Command::InvalidCommand("nonexistentcmd123".to_string()).type_description(),
        "nonexistentcmd123: not found"
    );
    assert_eq!(
        Command::Executable("/usr/bin/ls".to_string(), vec![]).type_description(),
        "ls is /usr/bin/ls"
    );
}

#[test]
fn type_lines_through_the_parser() {
    assert_eq!(
        steps_of("type echo nonexistentcmd123 ls"),
        vec![
            write(IO::Default, "echo is a shell builtin\n"),
            write(IO::Default, "nonexistentcmd123: not found\n"),
            write(IO::Default, "ls is /usr/bin/ls\n"),
        ]
    );
}

#[test]
fn pipes_and_redirects_have_no_type_line() {
    let piped = Command::Pipe(Box::new(Command::Exit), Box::new(Command::PWD));
    assert!(!piped.has_type_description());
    assert_eq!(piped.try_type_description(), None);
    let redirected = Command::Redirect(RedirectType::Unset, RedirectType::Unset, Box::new(Command::PWD));
    assert_eq!(redirected.try_type_description(), None);
    assert_eq!(Command::Executable("/".to_string(), vec![]).try_type_description(), None);
    assert_eq!(Command::Executable("a/..".to_string(), vec![]).try_type_description(), None);
    assert_eq!(Command::PWD.try_type_description(), Some("pwd is a shell builtin".to_string()));
    assert!(!Command::Type(vec![piped]).is_runnable());
    assert_eq!(Command::Type(vec![redirected]).try_run("/h"), None);
    assert!(Command::Type(vec![Command::Exit]).is_runnable());
}

#[test]
fn echo_joins_its_words_with_spaces() {
    assert_eq!(join_with_spaces(&words(&[])), "");
    assert_eq!(join_with_spaces(&words(&["a"])), "a");
    assert_eq!(join_with_spaces(&words(&["a", "b c", "d"])), "a b c d");
    assert_eq!(steps_of("echo hello   world"), vec![write(IO::Default, "hello world\n")]);
    assert_eq!(steps_of("echo"), vec![write(IO::Default, "\n")]);
}

#[test]
fn exit_and_pwd() {
    assert_eq!(steps_of("exit"), vec![Step::Exit]);
    assert_eq!(steps_of("pwd"), vec![Step::WriteWorkingDir { to: IO::Default }]);
}

#[test]
fn cd_goes_home_without_an_argument() {
    assert_eq!(
        steps_of("cd"),
        vec![Step::ChangeDir { path: "/home/u".to_string(), err: IO::Default }]
    );
    assert_eq!(
        steps_of("cd /tmp"),
        vec![Step::ChangeDir { path: "/tmp".to_string(), err: IO::Default }]
    );
    assert_eq!(steps_of("cd a b"), vec![report(IO::Default, "cd: too many arguments\n")]);
    assert_eq!(steps_of("cd a b c"), vec![report(IO::Default, "cd: too many arguments\n")]);
}

#[test]
fn cd_reports_what_is_in_the_way() {
    assert_eq!(cd_outcome("/home/u", true, true), None);
    assert_eq!(
        cd_outcome("nonexistent", false, false),
        Some("cd: nonexistent: No such file or directory".to_string())
    );
    assert_eq!(
        cd_outcome("nonexistent", false, true),
        Some("cd: nonexistent: No such file or directory".to_string())
    );
    assert_eq!(
        cd_outcome("/etc/passwd", true, false),
        Some("cd: /etc/passwd: Not a directory".to_string())
    );
}

#[test]
fn invalid_command_is_reported_on_the_error_stream() {
    assert_eq!(steps_of("nope a b"), vec![report(IO::Default, "nope: command not found\n")]);
    assert_eq!(
        steps_of("nope 2> log"),
        vec![
            Step::OpenFile { path: "log".to_string(), append: false },
            report(IO::File(0), "nope: command not found\n"),
            Step::Close { stream: IO::File(0) },
        ]
    );
    let padded = Command::InvalidCommand("  nope \t".to_string());
    assert_eq!(padded.run("/h"), vec![report(IO::Default, "nope: command not found\n")]);
    assert_eq!(padded.type_description(), "nope: not found");
}

#[test]
fn program_is_started_then_waited_for() {
    assert_eq!(
        steps_of("ls -l /"),
        vec![
            spawn("/usr/bin/ls", &["-l", "/"], IO::Default, IO::Default, IO::Default),
            Step::Wait { child: 0 },
        ]
    );
}

#[test]
fn pipe_starts_both_stages_before_it_waits() {
    assert_eq!(
        steps_of("printf '%s' hello | wc -c"),
        vec![
            Step::OpenPipe,
            spawn("/usr/bin/printf", &["%s", "hello"], IO::Default, IO::PipeSender(0), IO::Default),
            spawn("/usr/bin/wc", &["-c"], IO::PipeReceiver(0), IO::Default, IO::Default),
            Step::Wait { child: 1 },
            Step::Wait { child: 2 },
        ]
    );
}

#[test]
fn builtin_in_a_pipe_closes_its_end() {
    assert_eq!(
        steps_of("echo hi | cat"),
        vec![
            Step::OpenPipe,
            write(IO::PipeSender(0), "hi\n"),
            Step::Close { stream: IO::PipeSender(0) },
            spawn("/bin/cat", &[], IO::PipeReceiver(0), IO::Default, IO::Default),
            Step::Wait { child: 3 },
        ]
    );
    assert_eq!(
        steps_of("ls | pwd"),
        vec![
            Step::OpenPipe,
            spawn("/usr/bin/ls", &[], IO::Default, IO::PipeSender(0), IO::Default),
            Step::WriteWorkingDir { to: IO::Default },
            Step::Close { stream: IO::PipeReceiver(0) },
            Step::Wait { child: 1 },
        ]
    );
}

#[test]
fn three_stages_nest_their_pipes() {
    assert_eq!(
        steps_of("ls | cat | wc"),
        vec![
            Step::OpenPipe,
            Step::OpenPipe,
            spawn("/usr/bin/ls", &[], IO::Default, IO::PipeSender(1), IO::Default),
            spawn("/bin/cat", &[], IO::PipeReceiver(1), IO::PipeSender(0), IO::Default),
            Step::Wait { child: 2 },
            Step::Wait { child: 3 },
            spawn("/usr/bin/wc", &[], IO::PipeReceiver(0), IO::Default, IO::Default),
            Step::Wait { child: 6 },
        ]
    );
}

#[test]
fn redirect_opens_runs_and_closes() {
    assert_eq!(
        steps_of("ls > out.txt 2>> err.txt"),
        vec![
            Step::OpenFile { path: "out.txt".to_string(), append: false },
            Step::OpenFile { path: "err.txt".to_string(), append: true },
            spawn("/usr/bin/ls", &[], IO::Default, IO::File(0), IO::File(1)),
            Step::Wait { child: 2 },
            Step::Close { stream: IO::File(0) },
            Step::Close { stream: IO::File(1) },
        ]
    );
    assert_eq!(
        steps_of("echo a >> log"),
        vec![
            Step::OpenFile { path: "log".to_string(), append: true },
            write(IO::File(0), "a\n"),
            Step::Close { stream: IO::File(0) },
        ]
    );
}

#[test]
fn redirect_on_a_pipeline_binds_last_output_and_every_error() {
    assert_eq!(
        steps_of("ls | cat > out 2> err"),
        vec![
            Step::OpenFile { path: "out".to_string(), append: false },
            Step::OpenFile { path: "err".to_string(), append: false },
            Step::OpenPipe,
            spawn("/usr/bin/ls", &[], IO::Default, IO::PipeSender(2), IO::File(1)),
            spawn("/bin/cat", &[], IO::PipeReceiver(2), IO::File(0), IO::File(1)),
            Step::Wait { child: 3 },
            Step::Wait { child: 4 },
            Step::Close { stream: IO::File(0) },
            Step::Close { stream: IO::File(1) },
        ]
    );
}

#[test]
fn run_with_io_appends_and_reports_the_child() {
    let mut steps = vec![Step::OpenPipe];
    let program = Command::Executable("/bin/cat".to_string(), words(&["x"]));
    let result = program.run_with_io(IO::PipeReceiver(0), IO::Default, IO::Default, "/h", &mut steps);
    assert_eq!(result, RunResult::Child(1));
    result.wait(&mut steps);
    RunResult::Finished.wait(&mut steps);
    assert_eq!(
        steps,
        vec![
            Step::OpenPipe,
            spawn("/bin/cat", &["x"], IO::PipeReceiver(0), IO::Default, IO::Default),
            Step::Wait { child: 1 },
        ]
    );
    let done = Command::PWD.run_with_io(IO::PipeReceiver(0), IO::PipeSender(0), IO::Default, "/h", &mut steps);
    assert_eq!(done, RunResult::Finished);
    assert_eq!(steps.len(), 6);
    assert_eq!(steps[3], Step::WriteWorkingDir { to: IO::PipeSender(0) });
    assert_eq!(steps[4], Step::Close { stream: IO::PipeReceiver(0) });
    assert_eq!(steps[5], Step::Close { stream: IO::PipeSender(0) });
}

#[test]
fn streams_write_and_release() {
    let mut steps = Vec::new();
    IO::Default.write("a".to_string(), &mut steps);
    IO::File(7).writeln("b".to_string(), &mut steps);
    IO::Default.report("c".to_string(), &mut steps);
    IO::Default.release(&mut steps);
    IO::File(7).release(&mut steps);
    IO::PipeSender(3).release(&mut steps);
    IO::PipeSender(3).close_file(&mut steps);
    IO::File(7).close_file(&mut steps);
    assert_eq!(
        steps,
        vec![
            write(IO::Default, "a"),
            write(IO::File(7), "b\n"),
            report(IO::Default, "c\n"),
            Step::Close { stream: IO::PipeSender(3) },
            Step::Close { stream: IO::File(7) },
        ]
    );
    let at = RedirectType::Append("f".to_string()).as_io(&mut steps);
    assert_eq!(at, IO::File(5));
    assert_eq!(RedirectType::Unset.as_io(&mut steps), IO::Default);
    assert_eq!(steps.len(), 6);
    assert_eq!(steps[5], Step::OpenFile { path: "f".to_string(), append: true });
}

#[test]
fn try_run_agrees_with_run() {
    let command = parse_input("ls | cat > out", &env()).unwrap();
    assert_eq!(command.try_run("/home/u"), Some(command.run("/home/u")));
}

fn was_made(steps: &[Step], k: usize, stream: IO) -> bool {
    match stream {
        IO::Default => true,
        IO::File(n) => n < k && matches!(steps[n], Step::OpenFile { .. }),
        IO::PipeSender(n) | IO::PipeReceiver(n) => n < k && matches!(steps[n], Step::OpenPipe),
    }
}

fn refers_back(steps: &[Step]) -> bool {
    (0..steps.len()).all(|k| match &steps[k] {
        Step::Write { to, .. } | Step::WriteError { to, .. } | Step::WriteWorkingDir { to } => {
            was_made(steps, k, *to)
        }
        Step::ChangeDir { err, .. } => was_made(steps, k, *err),
        Step::Spawn { stdin, stdout, stderr, .. } => {
            was_made(steps, k, *stdin) && was_made(steps, k, *stdout) && was_made(steps, k, *stderr)
        }
        Step::Wait { child } => *child < k && matches!(steps[*child], Step::Spawn { .. }),
        Step::Close { stream } => was_made(steps, k, *stream),
        _ => true,
    })
}

#[test]
fn every_step_names_what_earlier_steps_made() {
    for line in [
        "ls",
        "ls | cat | wc -l | cat",
        "echo a | cat > out 2>> err",
        "type ls echo nope | pwd | cd | exit | nope",
        "cd a b 2> e | ls >> o",
        "pwd > a",
    ] {
        let steps = steps_of(line);
        assert!(refers_back(&steps), "{:?}", steps);
    }
    assert!(!refers_back(&[Step::Wait { child: 0 }]));
    assert!(!refers_back(&[write(IO::File(0), "a")]));
}

#[test]
fn every_started_process_is_waited_for_once() {
    for line in ["ls", "ls | cat | wc -l | cat", "echo a | cat > out", "ls | pwd | cat"] {
        let steps = steps_of(line);
        for (k, step) in steps.iter().enumerate() {
            if matches!(step, Step::Spawn { .. }) {
                let waits = steps.iter().filter(|s| **s == Step::Wait { child: k }).count();
                assert_eq!(waits, 1);
            }
        }
    }
}

#[test]
fn both_stages_of_a_pipe_start_before_either_wait() {
    let steps = steps_of("ls | cat");
    let first_wait = steps.iter().position(|s| matches!(s, Step::Wait { .. })).unwrap();
    let last_spawn = steps.iter().rposition(|s| matches!(s, Step::Spawn { .. })).unwrap();
    assert!(last_spawn < first_wait);
}
