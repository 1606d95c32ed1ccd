//! The execution engine: a command tree becomes the steps that run it.
//!
//! The engine does no I/O itself. It walks the tree and writes down, in
//! order, what has to be done to the outside world: files to open, pipes to
//! make, text to write, processes to start and to wait for. Whoever performs
//! the steps keeps the files, pipes and processes, each known by the index
//! of the step that made it.

use vstd::prelude::*;
use vstd::string::StringExecFns;
use crate::commands::{type_line, Command, CommandTree};
use crate::parser::{sub_tokens, Redirection, RedirectType};
use crate::text::{trim, trimmed};

verus! {

/// A stream endpoint.
#[derive(Clone, Copy, Debug, PartialEq, Eq)]
pub enum IO {
    /// The interpreter's own stream.
    Default,
    /// The file opened by the step at this index.
    File(usize),
    /// The sending end of the pipe made by the step at this index.
    PipeSender(usize),
    /// The receiving end of the pipe made by the step at this index.
    PipeReceiver(usize),
}

impl IO {
    /// Whether the stream is one end of a pipe. A pipe end has one owner, who
    /// closes it or hands it on.
    pub open spec fn is_pipe_end(self) -> bool {
        self is PipeSender || self is PipeReceiver
    }
}

/// One thing to do to the outside world.
#[derive(Debug, PartialEq, Eq)]
pub enum Step {
    /// End the interpreter, with status 0.
    Exit,
    /// Open the file at `path` for writing, creating it if need be; its old
    /// content is kept and written after if `append`, else dropped.
    OpenFile { path: String, append: bool },
    /// Make a pipe.
    OpenPipe,
    /// Write `text` to the stream, which is one for output.
    Write { to: IO, text: String },
    /// Write `text` to the stream, which is one for errors.
    WriteError { to: IO, text: String },
    /// Write the working directory, and a line end, to the stream.
    WriteWorkingDir { to: IO },
    /// Make `path` the working directory, or say on the error stream `err`
    /// why it cannot be.
    ChangeDir { path: String, err: IO },
    /// Start the program at `path` with `args`, bound to the three streams.
    /// A pipe end among them passes to the new process.
    Spawn { path: String, args: Vec<String>, stdin: IO, stdout: IO, stderr: IO },
    /// Wait for the process started by the step at index `child` to end.
    Wait { child: usize },
    /// Close the stream.
    Close { stream: IO },
}

/// A step as a mathematical value.
pub enum StepView {
    Exit,
    OpenFile { path: Seq<char>, append: bool },
    OpenPipe,
    Write { to: IO, text: Seq<char> },
    WriteError { to: IO, text: Seq<char> },
    WriteWorkingDir { to: IO },
    ChangeDir { path: Seq<char>, err: IO },
    Spawn { path: Seq<char>, args: Seq<Seq<char>>, stdin: IO, stdout: IO, stderr: IO },
    Wait { child: usize },
    Close { stream: IO },
}

impl View for Step {
    type V = StepView;

    open spec fn view(&self) -> StepView {
        match self {
            Step::Exit => StepView::Exit,
            Step::OpenFile { path, append } => StepView::OpenFile { path: path@, append: *append },
            Step::OpenPipe => StepView::OpenPipe,
            Step::Write { to, text } => StepView::Write { to: *to, text: text@ },
            Step::WriteError { to, text } => StepView::WriteError { to: *to, text: text@ },
            Step::WriteWorkingDir { to } => StepView::WriteWorkingDir { to: *to },
            Step::ChangeDir { path, err } => StepView::ChangeDir { path: path@, err: *err },
            Step::Spawn { path, args, stdin, stdout, stderr } => StepView::Spawn {
                path: path@,
                args: args.deep_view(),
                stdin: *stdin,
                stdout: *stdout,
                stderr: *stderr,
            },
            Step::Wait { child } => StepView::Wait { child: *child },
            Step::Close { stream } => StepView::Close { stream: *stream },
        }
    }
}

/// The steps of a vector of steps, each as a mathematical value.
pub open spec fn script(steps: &Vec<Step>) -> Seq<StepView> {
    Seq::new(steps.len() as nat, |i: int| steps[i]@)
}

/// Adds one step at the end.
fn push_step(steps: &mut Vec<Step>, step: Step)
    ensures
        script(final(steps)) == script(old(steps)).push(step@),
        final(steps).len() == old(steps).len() + 1,
{
    steps.push(step);
    assert(script(steps) =~= script(old(steps)).push(step@));
}

/// What is left to do once a command has been started.
#[derive(Clone, Copy, Debug, PartialEq, Eq)]
pub enum RunResult {
    /// Nothing: the command has run.
    Finished,
    /// The process started by the step at this index is still to be waited
    /// for.
    Child(usize),
}

/// The step that waits for what a started command left to do.
pub open spec fn wait_steps(result: RunResult) -> Seq<StepView> {
    match result {
        RunResult::Finished => Seq::empty(),
        RunResult::Child(child) => seq![StepView::Wait { child }],
    }
}

impl RunResult {
    /// Has the process waited for, if there is one.
    pub fn wait(&self, steps: &mut Vec<Step>)
        ensures
            script(final(steps)) == script(old(steps)) + wait_steps(*self),
            final(steps).len() == old(steps).len() + wait_steps(*self).len(),
    {
        match self {
            RunResult::Finished => {
                assert(script(steps) =~= script(old(steps)) + wait_steps(*self));
            },
            RunResult::Child(child) => {
                push_step(steps, Step::Wait { child: *child });
                assert(script(steps) =~= script(old(steps)) + wait_steps(*self));
            },
        }
    }
}

/// The step that closes a stream whose owner is done with it: one for a pipe
/// end, none for any other stream.
pub open spec fn release_steps(stream: IO) -> Seq<StepView> {
    if stream.is_pipe_end() {
        seq![StepView::Close { stream }]
    } else {
        Seq::empty()
    }
}

impl IO {
    /// Has `data` written to the stream, as output.
    pub fn write(&self, data: String, steps: &mut Vec<Step>)
        ensures
            script(final(steps)) == script(old(steps)).push(StepView::Write { to: *self, text: data@ }),
            final(steps).len() == old(steps).len() + 1,
    {
        push_step(steps, Step::Write { to: *self, text: data });
    }

    /// Has `data` and a line end written to the stream, as output.
    pub fn writeln(&self, data: String, steps: &mut Vec<Step>)
        ensures
            script(final(steps)) == script(old(steps)).push(
                StepView::Write { to: *self, text: data@.push('\n') },
            ),
            final(steps).len() == old(steps).len() + 1,
    {
        let mut line = data;
        line.push('\n');
        self.write(line, steps);
    }

    /// Has `data` and a line end written to the stream, as an error.
    pub fn report(&self, data: String, steps: &mut Vec<Step>)
        ensures
            script(final(steps)) == script(old(steps)).push(
                StepView::WriteError { to: *self, text: data@.push('\n') },
            ),
            final(steps).len() == old(steps).len() + 1,
    {
        let mut line = data;
        line.push('\n');
        push_step(steps, Step::WriteError { to: *self, text: line });
    }

    /// Has the stream closed if it is a pipe end.
    pub fn release(&self, steps: &mut Vec<Step>)
        ensures
            script(final(steps)) == script(old(steps)) + release_steps(*self),
            final(steps).len() == old(steps).len() + release_steps(*self).len(),
    {
        match self {
            IO::PipeSender(_) | IO::PipeReceiver(_) => {
                push_step(steps, Step::Close { stream: *self });
            },
            _ => {},
        }
        assert(script(steps) =~= script(old(steps)) + release_steps(*self));
    }
}

/// The words with one space between each two.
pub open spec fn join_words(words: Seq<Seq<char>>) -> Seq<char>
    decreases words.len(),
{
    if words.len() == 0 {
        Seq::empty()
    } else if words.len() == 1 {
        words[0]
    } else {
        join_words(words.drop_last()).push(' ') + words.last()
    }
}

/// The words in one line, with one space between each two.
pub fn join_with_spaces(words: &Vec<String>) -> (line: String)
    ensures
        line@ == join_words(words.deep_view()),
{
    let ghost all = words.deep_view();
    let mut line = String::new();
    let mut i: usize = 0;
    assert(all.subrange(0, 0) =~= Seq::<Seq<char>>::empty());
    while i < words.len()
        invariant
            i <= words.len(),
            all == words.deep_view(),
            line@ == join_words(all.subrange(0, i as int)),
        decreases words.len() - i,
    {
        proof {
            let next = all.subrange(0, i + 1);
            assert(next.drop_last() =~= all.subrange(0, i as int));
            assert(next.last() == words[i as int]@);
            assert(Seq::<char>::empty() + words[i as int]@ =~= words[i as int]@);
        }
        if i > 0 {
            line.push(' ');
        }
        line.append(words[i].as_str());
        i += 1;
    }
    assert(all.subrange(0, words.len() as int) =~= all);
    line
}

/// Why a path cannot become the working directory, as the line that says so:
/// nothing is there, or what is there is no directory.
pub open spec fn cd_failure(path: Seq<char>, exists: bool, is_dir: bool) -> Option<Seq<char>> {
    if !exists {
        Some("cd: "@ + path + ": No such file or directory"@)
    } else if !is_dir {
        Some("cd: "@ + path + ": Not a directory"@)
    } else {
        None
    }
}

/// Decides a change of working directory to `path`, given whether anything is
/// at `path` and whether it is a directory: the change goes ahead, or the
/// working directory stays and the line returned says why.
pub fn cd_outcome(path: &str, exists: bool, is_dir: bool) -> (failure: Option<String>)
    ensures
        match failure {
            Some(line) => cd_failure(path@, exists, is_dir) == Some(line@),
            None => cd_failure(path@, exists, is_dir) is None,
        },
{
    if exists && is_dir {
        return None;
    }
    let mut line = String::from_str("cd: ");
    line.append(path);
    if !exists {
        line.append(": No such file or directory");
    } else {
        line.append(": Not a directory");
    }
    Some(line)
}

/// Whether the engine can run the tree: `type` can classify each of its
/// targets.
pub open spec fn runnable(tree: CommandTree) -> bool
    decreases tree,
{
    match tree {
        CommandTree::Type(targets) => forall|i: int|
            0 <= i < targets.len() ==> type_line(#[trigger] targets[i]) is Some,
        CommandTree::Pipe(left, right) => runnable(*left) && runnable(*right),
        CommandTree::Redirect(_, _, inner) => runnable(*inner),
        _ => true,
    }
}

/// What the streams of a finished builtin have done to them: each pipe end
/// among them is closed.
pub open spec fn release_all(iin: IO, out: IO, err: IO) -> Seq<StepView> {
    release_steps(iin) + release_steps(out) + release_steps(err)
}

/// The step of `cd`: more than one argument is an error, said on `err`;
/// else the change is to the one argument, or to `home` without one.
pub open spec fn cd_step(args: Seq<Seq<char>>, home: Seq<char>, err: IO) -> StepView {
    if args.len() > 1 {
        StepView::WriteError { to: err, text: "cd: too many arguments"@.push('\n') }
    } else if args.len() == 1 {
        StepView::ChangeDir { path: args[0], err }
    } else {
        StepView::ChangeDir { path: home, err }
    }
}

/// The steps of `type`: one line on `out` for each target.
pub open spec fn type_steps(targets: Seq<CommandTree>, out: IO) -> Seq<StepView> {
    Seq::new(
        targets.len(),
        |i: int| StepView::Write { to: out, text: type_line(targets[i])->0.push('\n') },
    )
}

/// The step that opens the file of a redirection, if it names one.
pub open spec fn open_steps(target: Redirection) -> Seq<StepView> {
    match target {
        Redirection::Unset => Seq::empty(),
        Redirection::Truncate(path) => seq![StepView::OpenFile { path, append: false }],
        Redirection::Append(path) => seq![StepView::OpenFile { path, append: true }],
    }
}

/// The stream a redirection stands for, when its file would be opened by the
/// step at index `at`: that file, or the interpreter's own stream.
pub open spec fn redirect_stream(target: Redirection, at: int) -> IO {
    match target {
        Redirection::Unset => IO::Default,
        _ => IO::File(at as usize),
    }
}

/// The step that closes the file of a redirection.
pub open spec fn close_steps(stream: IO) -> Seq<StepView> {
    if stream is File {
        seq![StepView::Close { stream }]
    } else {
        Seq::empty()
    }
}

/// A tree laid out: the steps that start it, and what is left to wait for.
pub struct Run {
    pub steps: Seq<StepView>,
    pub result: RunResult,
}

/// The steps that start `tree` on the streams `iin`, `out`, `err`, the first
/// of them at index `base`.
///
/// A builtin runs in place and then lets go of its streams. A program is
/// started and left running. A pipe makes its pipe, starts its left stage
/// writing to it and its right stage reading from it, and only then waits,
/// for the left and then for the right. A redirect opens its files, runs its
/// pipeline on them to the end, and closes them.
pub open spec fn run_node(tree: CommandTree, iin: IO, out: IO, err: IO, home: Seq<char>, base: int) -> Run
    decreases tree,
{
    match tree {
        CommandTree::Exit => Run { steps: seq![StepView::Exit], result: RunResult::Finished },
        CommandTree::Echo(args) => Run {
            steps: seq![StepView::Write { to: out, text: join_words(args).push('\n') }] + release_all(
                iin,
                out,
                err,
            ),
            result: RunResult::Finished,
        },
        CommandTree::Type(targets) => Run {
            steps: type_steps(targets, out) + release_all(iin, out, err),
            result: RunResult::Finished,
        },
        CommandTree::Pwd => Run {
            steps: seq![StepView::WriteWorkingDir { to: out }] + release_all(iin, out, err),
            result: RunResult::Finished,
        },
        CommandTree::Cd(args) => Run {
            steps: seq![cd_step(args, home, err)] + release_all(iin, out, err),
            result: RunResult::Finished,
        },
        CommandTree::Executable(path, args) => Run {
            steps: seq![StepView::Spawn { path, args, stdin: iin, stdout: out, stderr: err }],
            result: RunResult::Child(base as usize),
        },
        CommandTree::InvalidCommand(name) => Run {
            steps: seq![
                StepView::WriteError { to: err, text: (trimmed(name) + ": command not found"@).push('\n') },
            ] + release_all(iin, out, err),
            result: RunResult::Finished,
        },
        CommandTree::Pipe(left, right) => {
            let first = run_node(*left, iin, IO::PipeSender(base as usize), err, home, base + 1);
            let second = run_node(
                *right,
                IO::PipeReceiver(base as usize),
                out,
                err,
                home,
                base + 1 + first.steps.len(),
            );
            Run {
                steps: seq![StepView::OpenPipe] + first.steps + second.steps + wait_steps(first.result)
                    + wait_steps(second.result),
                result: RunResult::Finished,
            }
        },
        CommandTree::Redirect(to_out, to_err, inner) => {
            let opens = open_steps(to_out) + open_steps(to_err);
            let new_out = redirect_stream(to_out, base);
            let new_err = redirect_stream(to_err, base + open_steps(to_out).len());
            let body = run_node(*inner, iin, new_out, new_err, home, base + opens.len());
            Run {
                steps: opens + body.steps + wait_steps(body.result) + close_steps(new_out)
                    + close_steps(new_err) + release_steps(out) + release_steps(err),
                result: RunResult::Finished,
            }
        },
    }
}

/// The steps that run `tree` from start to end on the interpreter's own
/// streams.
pub open spec fn run_steps(tree: CommandTree, home: Seq<char>) -> Seq<StepView> {
    let started = run_node(tree, IO::Default, IO::Default, IO::Default, home, 0);
    started.steps + wait_steps(started.result)
}

impl RedirectType {
    /// Has the file of the redirection opened, and gives the stream that the
    /// redirection stands for.
    pub fn as_io(&self, steps: &mut Vec<Step>) -> (stream: IO)
        ensures
            script(final(steps)) == script(old(steps)) + open_steps(self@),
            final(steps).len() == old(steps).len() + open_steps(self@).len(),
            stream == redirect_stream(self@, old(steps).len() as int),
    {
        let at = steps.len();
        let stream = match self {
            RedirectType::Unset => IO::Default,
            RedirectType::Truncate(path) => {
                push_step(steps, Step::OpenFile { path: path.clone(), append: false });
                IO::File(at)
            },
            RedirectType::Append(path) => {
                push_step(steps, Step::OpenFile { path: path.clone(), append: true });
                IO::File(at)
            },
        };
        assert(script(steps) =~= script(old(steps)) + open_steps(self@));
        stream
    }
}

impl IO {
    /// Has the file closed if the stream is one.
    pub fn close_file(&self, steps: &mut Vec<Step>)
        ensures
            script(final(steps)) == script(old(steps)) + close_steps(*self),
            final(steps).len() == old(steps).len() + close_steps(*self).len(),
    {
        match self {
            IO::File(_) => {
                push_step(steps, Step::Close { stream: *self });
            },
            _ => {},
        }
        assert(script(steps) =~= script(old(steps)) + close_steps(*self));
    }
}

/// Has each pipe end among the three streams closed.
fn release_streams(iin: IO, out: IO, err: IO, steps: &mut Vec<Step>)
    ensures
        script(final(steps)) == script(old(steps)) + release_all(iin, out, err),
        final(steps).len() == old(steps).len() + release_all(iin, out, err).len(),
{
    iin.release(steps);
    out.release(steps);
    err.release(steps);
    assert(script(steps) =~= script(old(steps)) + release_all(iin, out, err));
}

impl Command {
    /// Whether the engine can run the command.
    pub fn is_runnable(&self) -> (can: bool)
        ensures
            can == runnable(self@),
        decreases self,
    {
        match self {
            Command::Type(targets) => {
                let mut i: usize = 0;
                while i < targets.len()
                    invariant
                        i <= targets.len(),
                        self@ is Type,
                        self@->Type_0.len() == targets.len(),
                        forall|k: int| 0 <= k < targets.len() ==> self@->Type_0[k] == (#[trigger] targets[k])@,
                        forall|k: int| 0 <= k < i ==> type_line(#[trigger] self@->Type_0[k]) is Some,
                    decreases targets.len() - i,
                {
                    if !targets[i].has_type_description() {
                        assert(type_line(self@->Type_0[i as int]) is None);
                        return false;
                    }
                    i += 1;
                }
                true
            },
            Command::Pipe(left, right) => left.is_runnable() && right.is_runnable(),
            Command::Redirect(_, _, inner) => inner.is_runnable(),
            _ => true,
        }
    }

    /// Writes down the steps of `echo`.
    fn run_echo(args: &Vec<String>, iin: IO, out: IO, err: IO, steps: &mut Vec<Step>)
        ensures
            script(final(steps)) == script(old(steps)) + (seq![
                StepView::Write { to: out, text: join_words(args.deep_view()).push('\n') },
            ] + release_all(iin, out, err)),
            final(steps).len() == old(steps).len() + 1 + release_all(iin, out, err).len(),
    {
        out.writeln(join_with_spaces(args), steps);
        release_streams(iin, out, err, steps);
        assert(script(steps) =~= script(old(steps)) + (seq![
            StepView::Write { to: out, text: join_words(args.deep_view()).push('\n') },
        ] + release_all(iin, out, err)));
    }

    /// Writes down the steps of `type`.
    fn run_type(&self, iin: IO, out: IO, err: IO, steps: &mut Vec<Step>)
        requires
            self@ is Type,
            runnable(self@),
        ensures
            script(final(steps)) == script(old(steps)) + (type_steps(self@->Type_0, out) + release_all(
                iin,
                out,
                err,
            )),
            final(steps).len() == old(steps).len() + self@->Type_0.len() + release_all(iin, out, err).len(),
    {
        let ghost before = script(steps);
        let ghost trees = self@->Type_0;
        match self {
            Command::Type(targets) => {
                let mut i: usize = 0;
                assert(script(steps) =~= before + type_steps(trees, out).subrange(0, 0));
                while i < targets.len()
                    invariant
                        i <= targets.len(),
                        trees.len() == targets.len(),
                        forall|k: int| 0 <= k < targets.len() ==> trees[k] == (#[trigger] targets[k])@,
                        forall|k: int| 0 <= k < targets.len() ==> type_line(#[trigger] trees[k]) is Some,
                        script(steps) == before + type_steps(trees, out).subrange(0, i as int),
                        steps.len() == old(steps).len() + i,
                    decreases targets.len() - i,
                {
                    assert(type_line(trees[i as int]) is Some);
                    out.writeln(targets[i].type_description(), steps);
                    assert(script(steps) =~= before + type_steps(trees, out).subrange(0, i + 1));
                    i += 1;
                }
                assert(type_steps(trees, out).subrange(0, targets.len() as int) =~= type_steps(trees, out));
            },
            _ => {},
        }
        release_streams(iin, out, err, steps);
        assert(script(steps) =~= before + (type_steps(trees, out) + release_all(iin, out, err)));
    }

    /// Writes down the steps of `cd`.
    fn run_cd(args: &Vec<String>, iin: IO, out: IO, err: IO, home: &str, steps: &mut Vec<Step>)
        ensures
            script(final(steps)) == script(old(steps)) + (seq![cd_step(args.deep_view(), home@, err)]
                + release_all(iin, out, err)),
            final(steps).len() == old(steps).len() + 1 + release_all(iin, out, err).len(),
    {
        assert(args.deep_view().len() == args.len());
        if args.len() > 1 {
            err.report(String::from_str("cd: too many arguments"), steps);
        } else if args.len() == 1 {
            assert(args.deep_view()[0] == args[0]@);
            push_step(steps, Step::ChangeDir { path: args[0].clone(), err });
        } else {
            push_step(steps, Step::ChangeDir { path: String::from_str(home), err });
        }
        release_streams(iin, out, err, steps);
        assert(script(steps) =~= script(old(steps)) + (seq![cd_step(args.deep_view(), home@, err)]
            + release_all(iin, out, err)));
    }

    /// Writes down the steps of a command that resolved to nothing.
    fn run_invalid(input: &String, iin: IO, out: IO, err: IO, steps: &mut Vec<Step>)
        ensures
            script(final(steps)) == script(old(steps)) + (seq![
                StepView::WriteError { to: err, text: (trimmed(input@) + ": command not found"@).push('\n') },
            ] + release_all(iin, out, err)),
            final(steps).len() == old(steps).len() + 1 + release_all(iin, out, err).len(),
    {
        let mut line = String::from_str(trim(input.as_str()));
        line.append(": command not found");
        err.report(line, steps);
        release_streams(iin, out, err, steps);
        assert(script(steps) =~= script(old(steps)) + (seq![
            StepView::WriteError { to: err, text: (trimmed(input@) + ": command not found"@).push('\n') },
        ] + release_all(iin, out, err)));
    }

    /// Writes down the steps that start a program.
    fn run_program(path: &String, args: &Vec<String>, iin: IO, out: IO, err: IO, steps: &mut Vec<Step>) -> (result:
        RunResult)
        ensures
            script(final(steps)) == script(old(steps)) + seq![
                StepView::Spawn { path: path@, args: args.deep_view(), stdin: iin, stdout: out, stderr: err },
            ],
            final(steps).len() == old(steps).len() + 1,
            result == RunResult::Child(old(steps).len()),
    {
        let child = steps.len();
        let args_copy = sub_tokens(args, 0, args.len());
        assert(args.deep_view().subrange(0, args.len() as int) =~= args.deep_view());
        push_step(
            steps,
            Step::Spawn { path: path.clone(), args: args_copy, stdin: iin, stdout: out, stderr: err },
        );
        assert(script(steps) =~= script(old(steps)) + seq![
            StepView::Spawn { path: path@, args: args.deep_view(), stdin: iin, stdout: out, stderr: err },
        ]);
        RunResult::Child(child)
    }

    /// Writes down the steps of a pipe: the pipe is made, both stages are
    /// started, and only then is either waited for.
    fn run_pipe(&self, iin: IO, out: IO, err: IO, home: &str, steps: &mut Vec<Step>)
        requires
            self@ is Pipe,
            runnable(self@),
            !err.is_pipe_end(),
        ensures
            script(final(steps)) == script(old(steps)) + run_node(
                self@,
                iin,
                out,
                err,
                home@,
                old(steps).len() as int,
            ).steps,
            final(steps).len() == old(steps).len() + run_node(
                self@,
                iin,
                out,
                err,
                home@,
                old(steps).len() as int,
            ).steps.len(),
        decreases self, 0nat,
    {
        let ghost before = script(steps);
        let ghost base = steps.len() as int;
        match self {
            Command::Pipe(left_command, right_command) => {
                let pipe = steps.len();
                push_step(steps, Step::OpenPipe);
                let ghost first = run_node(left_command@, iin, IO::PipeSender(pipe), err, home@, base + 1);
                let left_child = left_command.run_with_io(iin, IO::PipeSender(pipe), err, home, steps);
                let ghost started_left = script(steps);
                assert(started_left == before.push(StepView::OpenPipe) + first.steps);
                let ghost second = run_node(
                    right_command@,
                    IO::PipeReceiver(pipe),
                    out,
                    err,
                    home@,
                    base + 1 + first.steps.len(),
                );
                let right_child = right_command.run_with_io(IO::PipeReceiver(pipe), out, err, home, steps);
                let ghost started_both = script(steps);
                assert(started_both == started_left + second.steps);
                left_child.wait(steps);
                let ghost waited_left = script(steps);
                right_child.wait(steps);
                assert(script(steps) == waited_left + wait_steps(second.result));
                assert(waited_left == started_both + wait_steps(first.result));
                assert(script(steps) =~= before + (seq![StepView::OpenPipe] + first.steps + second.steps
                    + wait_steps(first.result) + wait_steps(second.result)));
            },
            _ => {},
        }
    }

    /// Writes down the steps of a redirect: the files are opened, the
    /// pipeline runs on them to its end, and the files are closed.
    fn run_redirect(&self, iin: IO, out: IO, err: IO, home: &str, steps: &mut Vec<Step>)
        requires
            self@ is Redirect,
            runnable(self@),
        ensures
            script(final(steps)) == script(old(steps)) + run_node(
                self@,
                iin,
                out,
                err,
                home@,
                old(steps).len() as int,
            ).steps,
            final(steps).len() == old(steps).len() + run_node(
                self@,
                iin,
                out,
                err,
                home@,
                old(steps).len() as int,
            ).steps.len(),
        decreases self, 0nat,
    {
        let ghost before = script(steps);
        let ghost base = steps.len() as int;
        match self {
            Command::Redirect(out_path, err_path, command) => {
                let new_out = out_path.as_io(steps);
                let new_err = err_path.as_io(steps);
                let ghost s2 = script(steps);
                let ghost opens = open_steps(out_path@) + open_steps(err_path@);
                assert(s2 =~= before + opens);
                let ghost inner = run_node(command@, iin, new_out, new_err, home@, base + opens.len());
                let body = command.run_with_io(iin, new_out, new_err, home, steps);
                let ghost s3 = script(steps);
                assert(s3 == s2 + inner.steps);
                body.wait(steps);
                let ghost s4 = script(steps);
                new_out.close_file(steps);
                let ghost s5 = script(steps);
                new_err.close_file(steps);
                let ghost s6 = script(steps);
                out.release(steps);
                let ghost s7 = script(steps);
                err.release(steps);
                assert(s4 == s3 + wait_steps(inner.result));
                assert(s5 == s4 + close_steps(new_out));
                assert(s6 == s5 + close_steps(new_err));
                assert(s7 == s6 + release_steps(out));
                assert(script(steps) =~= before + (opens + inner.steps + wait_steps(inner.result)
                    + close_steps(new_out) + close_steps(new_err) + release_steps(out) + release_steps(
                    err,
                )));
            },
            _ => {},
        }
    }

    /// Writes down the steps that start the command on the streams `iin`,
    /// `out` and `err`, after the steps that are there, and says what is left
    /// to wait for. Both stages of a pipe share the error stream, so for a
    /// pipe it is no pipe end, which has one owner.
    pub fn run_with_io(&self, iin: IO, out: IO, err: IO, home: &str, steps: &mut Vec<Step>) -> (result:
        RunResult)
        requires
            runnable(self@),
            self@ is Pipe ==> !err.is_pipe_end(),
        ensures
            script(final(steps)) == script(old(steps)) + run_node(
                self@,
                iin,
                out,
                err,
                home@,
                old(steps).len() as int,
            ).steps,
            final(steps).len() == old(steps).len() + run_node(
                self@,
                iin,
                out,
                err,
                home@,
                old(steps).len() as int,
            ).steps.len(),
            result == run_node(self@, iin, out, err, home@, old(steps).len() as int).result,
        decreases self, 1nat,
    {
        match self {
            Command::Exit => {
                push_step(steps, Step::Exit);
                assert(script(steps) =~= script(old(steps)) + seq![StepView::Exit]);
                RunResult::Finished
            },
            Command::Echo(args) => {
                Self::run_echo(args, iin, out, err, steps);
                RunResult::Finished
            },
            Command::Type(_) => {
                self.run_type(iin, out, err, steps);
                RunResult::Finished
            },
            Command::PWD => {
                push_step(steps, Step::WriteWorkingDir { to: out });
                release_streams(iin, out, err, steps);
                assert(script(steps) =~= script(old(steps)) + (seq![StepView::WriteWorkingDir { to: out }]
                    + release_all(iin, out, err)));
                RunResult::Finished
            },
            Command::CD(args) => {
                Self::run_cd(args, iin, out, err, home, steps);
                RunResult::Finished
            },
            Command::Executable(path, args) => Self::run_program(path, args, iin, out, err, steps),
            Command::InvalidCommand(input) => {
                Self::run_invalid(input, iin, out, err, steps);
                RunResult::Finished
            },
            Command::Pipe(_, _) => {
                self.run_pipe(iin, out, err, home, steps);
                RunResult::Finished
            },
            Command::Redirect(_, _, _) => {
                self.run_redirect(iin, out, err, home, steps);
                RunResult::Finished
            },
        }
    }

    /// The steps that run the command from start to end on the interpreter's
    /// own streams. `home` is where `cd` goes without an argument.
    pub fn run(&self, home: &str) -> (steps: Vec<Step>)
        requires
            runnable(self@),
        ensures
            script(&steps) == run_steps(self@, home@),
    {
        let mut steps: Vec<Step> = Vec::new();
        assert(script(&steps) =~= Seq::<StepView>::empty());
        let result = self.run_with_io(IO::Default, IO::Default, IO::Default, home, &mut steps);
        result.wait(&mut steps);
        assert(script(&steps) =~= run_steps(self@, home@));
        steps
    }

    /// The steps that run the command, if the engine can run it.
    pub fn try_run(&self, home: &str) -> (steps: Option<Vec<Step>>)
        ensures
            match steps {
                Some(s) => runnable(self@) && script(&s) == run_steps(self@, home@),
                None => !runnable(self@),
            },
    {
        if self.is_runnable() {
            Some(self.run(home))
        } else {
            None
        }
    }
}

} // verus!
