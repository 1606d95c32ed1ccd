//! What holds of every script the engine writes.

use vstd::prelude::*;
use crate::commands::CommandTree;
use crate::engine::{
    close_steps, open_steps, redirect_stream, release_steps, run_node, run_steps, wait_steps,
    RunResult, StepView, IO,
};

verus! {

/// Whether `stream`, named by step `k`, was made by an earlier step: a file
/// by a step that opens a file, a pipe end by a step that makes a pipe.
pub open spec fn stream_was_made(steps: Seq<StepView>, k: int, stream: IO) -> bool {
    match stream {
        IO::Default => true,
        IO::File(n) => n < k && steps[n as int] is OpenFile,
        IO::PipeSender(n) => n < k && steps[n as int] is OpenPipe,
        IO::PipeReceiver(n) => n < k && steps[n as int] is OpenPipe,
    }
}

/// Whether step `k` names only what earlier steps made: its streams, and
/// the process it waits for.
pub open spec fn step_refers_back(steps: Seq<StepView>, k: int) -> bool {
    match steps[k] {
        StepView::Write { to, text } => stream_was_made(steps, k, to),
        StepView::WriteError { to, text } => stream_was_made(steps, k, to),
        StepView::WriteWorkingDir { to } => stream_was_made(steps, k, to),
        StepView::ChangeDir { path, err } => stream_was_made(steps, k, err),
        StepView::Spawn { path, args, stdin, stdout, stderr } => stream_was_made(steps, k, stdin)
            && stream_was_made(steps, k, stdout) && stream_was_made(steps, k, stderr),
        StepView::Wait { child } => child < k && steps[child as int] is Spawn,
        StepView::Close { stream } => stream_was_made(steps, k, stream),
        _ => true,
    }
}

/// Whether every step names only what earlier steps made.
pub open spec fn refers_back(steps: Seq<StepView>) -> bool {
    forall|k: int| 0 <= k < steps.len() ==> #[trigger] step_refers_back(steps, k)
}

/// Steps that name only the three streams `iin`, `out` and `err`, and wait
/// for nothing, refer back wherever the three streams were made.
proof fn lemma_leaf_refers_back(pre: Seq<StepView>, body: Seq<StepView>, iin: IO, out: IO, err: IO)
    requires
        refers_back(pre),
        stream_was_made(pre, pre.len() as int, iin),
        stream_was_made(pre, pre.len() as int, out),
        stream_was_made(pre, pre.len() as int, err),
        forall|k: int|
            0 <= k < body.len() ==> match #[trigger] body[k] {
                StepView::Write { to, text } => to == out,
                StepView::WriteError { to, text } => to == err,
                StepView::WriteWorkingDir { to } => to == out,
                StepView::ChangeDir { path, err: e } => e == err,
                StepView::Spawn { path, args, stdin, stdout, stderr } => stdin == iin && stdout == out
                    && stderr == err,
                StepView::Close { stream } => stream == iin || stream == out || stream == err,
                StepView::Wait { child } => false,
                _ => true,
            },
    ensures
        refers_back(pre + body),
{
    let all = pre + body;
    assert forall|k: int| 0 <= k < all.len() implies #[trigger] step_refers_back(all, k) by {
        if k < pre.len() {
            assert(step_refers_back(pre, k));
            assert(all[k] == pre[k]);
        } else {
            assert(all[k] == body[k - pre.len()]);
        }
    }
}

/// A script that refers back still does with steps added, where the added
/// steps do.
proof fn lemma_extend_refers_back(pre: Seq<StepView>, more: Seq<StepView>)
    requires
        refers_back(pre),
        forall|k: int| pre.len() <= k < pre.len() + more.len() ==> #[trigger] step_refers_back(pre + more, k),
    ensures
        refers_back(pre + more),
{
    let all = pre + more;
    assert forall|k: int| 0 <= k < all.len() implies #[trigger] step_refers_back(all, k) by {
        if k < pre.len() {
            assert(step_refers_back(pre, k));
            assert(all[k] == pre[k]);
        }
    }
}

/// A stream made before the end of a script was made before the end of any
/// longer script.
proof fn lemma_stream_stays_made(pre: Seq<StepView>, more: Seq<StepView>, stream: IO)
    requires
        stream_was_made(pre, pre.len() as int, stream),
    ensures
        stream_was_made(pre + more, (pre + more).len() as int, stream),
{
    let all = pre + more;
    match stream {
        IO::Default => {},
        IO::File(n) => {
            assert(all[n as int] == pre[n as int]);
        },
        IO::PipeSender(n) => {
            assert(all[n as int] == pre[n as int]);
        },
        IO::PipeReceiver(n) => {
            assert(all[n as int] == pre[n as int]);
        },
    }
}

/// Waiting for a process that the script started refers back.
proof fn lemma_wait_refers_back(pre: Seq<StepView>, result: RunResult)
    requires
        refers_back(pre),
        match result {
            RunResult::Child(c) => c < pre.len() && pre[c as int] is Spawn,
            RunResult::Finished => true,
        },
    ensures
        refers_back(pre + wait_steps(result)),
{
    let waits = wait_steps(result);
    let all = pre + waits;
    assert forall|k: int| pre.len() <= k < pre.len() + waits.len() implies #[trigger] step_refers_back(
        all,
        k,
    ) by {
        assert(all[k] == waits[k - pre.len()]);
        match result {
            RunResult::Child(c) => {
                assert(all[c as int] == pre[c as int]);
            },
            RunResult::Finished => {},
        }
    }
    lemma_extend_refers_back(pre, waits);
}

/// Closing a stream that the script made refers back.
proof fn lemma_close_refers_back(pre: Seq<StepView>, closes: Seq<StepView>, stream: IO)
    requires
        refers_back(pre),
        stream_was_made(pre, pre.len() as int, stream),
        closes == Seq::<StepView>::empty() || closes == seq![StepView::Close { stream }],
    ensures
        refers_back(pre + closes),
{
    lemma_leaf_refers_back(pre, closes, stream, stream, stream);
}

/// The steps of a pipe refer back where those of its two stages do.
proof fn lemma_pipe_refers_back(
    tree: CommandTree,
    iin: IO,
    out: IO,
    err: IO,
    home: Seq<char>,
    pre: Seq<StepView>,
)
    requires
        refers_back(pre),
        stream_was_made(pre, pre.len() as int, iin),
        stream_was_made(pre, pre.len() as int, out),
        stream_was_made(pre, pre.len() as int, err),
        tree is Pipe,
        pre.len() + run_node(tree, iin, out, err, home, pre.len() as int).steps.len() <= usize::MAX,
    ensures
        refers_back(pre + run_node(tree, iin, out, err, home, pre.len() as int).steps),
    decreases tree, 0nat,
{
    let left = *tree->Pipe_0;
    let right = *tree->Pipe_1;
    let base = pre.len() as int;
    let pipe = base as usize;
    let run = run_node(tree, iin, out, err, home, base);
    let first = run_node(left, iin, IO::PipeSender(pipe), err, home, base + 1);
    let second = run_node(right, IO::PipeReceiver(pipe), out, err, home, base + 1 + first.steps.len());
    assert(run.steps == seq![StepView::OpenPipe] + first.steps + second.steps + wait_steps(first.result)
        + wait_steps(second.result));
    let made = seq![StepView::OpenPipe];
    lemma_leaf_refers_back(pre, made, iin, out, err);
    let pre1 = pre + made;
    assert(pre1[base] is OpenPipe);
    lemma_stream_stays_made(pre, made, iin);
    lemma_stream_stays_made(pre, made, out);
    lemma_stream_stays_made(pre, made, err);
    lemma_run_node_refers_back(left, iin, IO::PipeSender(pipe), err, home, pre1);
    let pre2 = pre1 + first.steps;
    assert(pre2[base] == pre1[base]);
    lemma_stream_stays_made(pre1, first.steps, out);
    lemma_stream_stays_made(pre1, first.steps, err);
    lemma_run_node_refers_back(right, IO::PipeReceiver(pipe), out, err, home, pre2);
    let pre3 = pre2 + second.steps;
    match first.result {
        RunResult::Child(c) => {
            assert(pre3[c as int] == pre2[c as int]);
        },
        RunResult::Finished => {},
    }
    lemma_wait_refers_back(pre3, first.result);
    let pre4 = pre3 + wait_steps(first.result);
    match second.result {
        RunResult::Child(c) => {
            assert(pre4[c as int] == pre3[c as int]);
        },
        RunResult::Finished => {},
    }
    lemma_wait_refers_back(pre4, second.result);
    assert(pre + run.steps =~= pre4 + wait_steps(second.result));
}

/// The steps of a redirect refer back where those of its pipeline do.
proof fn lemma_redirect_refers_back(
    tree: CommandTree,
    iin: IO,
    out: IO,
    err: IO,
    home: Seq<char>,
    pre: Seq<StepView>,
)
    requires
        refers_back(pre),
        stream_was_made(pre, pre.len() as int, iin),
        stream_was_made(pre, pre.len() as int, out),
        stream_was_made(pre, pre.len() as int, err),
        tree is Redirect,
        pre.len() + run_node(tree, iin, out, err, home, pre.len() as int).steps.len() <= usize::MAX,
    ensures
        refers_back(pre + run_node(tree, iin, out, err, home, pre.len() as int).steps),
    decreases tree, 0nat,
{
    let to_out = tree->Redirect_0;
    let to_err = tree->Redirect_1;
    let inner = *tree->Redirect_2;
    let base = pre.len() as int;
    let run = run_node(tree, iin, out, err, home, base);
    let opens = open_steps(to_out) + open_steps(to_err);
    let new_out = redirect_stream(to_out, base);
    let new_err = redirect_stream(to_err, base + open_steps(to_out).len());
    let body = run_node(inner, iin, new_out, new_err, home, base + opens.len());
    assert(run.steps == opens + body.steps + wait_steps(body.result) + close_steps(new_out) + close_steps(
        new_err,
    ) + release_steps(out) + release_steps(err));
    lemma_leaf_refers_back(pre, opens, iin, out, err);
    let pre1 = pre + opens;
    lemma_stream_stays_made(pre, opens, iin);
    lemma_stream_stays_made(pre, opens, out);
    lemma_stream_stays_made(pre, opens, err);
    assert(stream_was_made(pre1, pre1.len() as int, new_out)) by {
        if !(to_out is Unset) {
            assert(pre1[base] == opens[0]);
        }
    }
    assert(stream_was_made(pre1, pre1.len() as int, new_err)) by {
        if !(to_err is Unset) {
            assert(pre1[base + open_steps(to_out).len()] == opens[open_steps(to_out).len() as int]);
        }
    }
    lemma_run_node_refers_back(inner, iin, new_out, new_err, home, pre1);
    let pre2 = pre1 + body.steps;
    lemma_stream_stays_made(pre1, body.steps, new_out);
    lemma_stream_stays_made(pre1, body.steps, new_err);
    lemma_stream_stays_made(pre1, body.steps, out);
    lemma_stream_stays_made(pre1, body.steps, err);
    lemma_wait_refers_back(pre2, body.result);
    let pre3 = pre2 + wait_steps(body.result);
    lemma_stream_stays_made(pre2, wait_steps(body.result), new_out);
    lemma_stream_stays_made(pre2, wait_steps(body.result), new_err);
    lemma_stream_stays_made(pre2, wait_steps(body.result), out);
    lemma_stream_stays_made(pre2, wait_steps(body.result), err);
    lemma_close_refers_back(pre3, close_steps(new_out), new_out);
    let pre4 = pre3 + close_steps(new_out);
    lemma_stream_stays_made(pre3, close_steps(new_out), new_err);
    lemma_stream_stays_made(pre3, close_steps(new_out), out);
    lemma_stream_stays_made(pre3, close_steps(new_out), err);
    lemma_close_refers_back(pre4, close_steps(new_err), new_err);
    let pre5 = pre4 + close_steps(new_err);
    lemma_stream_stays_made(pre4, close_steps(new_err), out);
    lemma_stream_stays_made(pre4, close_steps(new_err), err);
    lemma_close_refers_back(pre5, release_steps(out), out);
    let pre6 = pre5 + release_steps(out);
    lemma_stream_stays_made(pre5, release_steps(out), err);
    lemma_close_refers_back(pre6, release_steps(err), err);
    assert(pre + run.steps =~= pre6 + release_steps(err));
}

/// The steps that start a tree name only what earlier steps made, given that
/// the streams the tree is started on were made by the steps before; and
/// what is left to wait for is a process that one of these steps started.
pub proof fn lemma_run_node_refers_back(
    tree: CommandTree,
    iin: IO,
    out: IO,
    err: IO,
    home: Seq<char>,
    pre: Seq<StepView>,
)
    requires
        refers_back(pre),
        stream_was_made(pre, pre.len() as int, iin),
        stream_was_made(pre, pre.len() as int, out),
        stream_was_made(pre, pre.len() as int, err),
        pre.len() + run_node(tree, iin, out, err, home, pre.len() as int).steps.len() <= usize::MAX,
    ensures
        refers_back(pre + run_node(tree, iin, out, err, home, pre.len() as int).steps),
        match run_node(tree, iin, out, err, home, pre.len() as int).result {
            RunResult::Child(c) => pre.len() <= c < pre.len() + run_node(
                tree,
                iin,
                out,
                err,
                home,
                pre.len() as int,
            ).steps.len() && (pre + run_node(tree, iin, out, err, home, pre.len() as int).steps)[c as int]
                is Spawn,
            RunResult::Finished => true,
        },
    decreases tree, 1nat,
{
    let base = pre.len() as int;
    let run = run_node(tree, iin, out, err, home, base);
    match tree {
        CommandTree::Pipe(left, right) => {
            lemma_pipe_refers_back(tree, iin, out, err, home, pre);
        },
        CommandTree::Redirect(to_out, to_err, inner) => {
            lemma_redirect_refers_back(tree, iin, out, err, home, pre);
        },
        CommandTree::Exit => {
            lemma_leaf_refers_back(pre, run.steps, iin, out, err);
        },
        CommandTree::Echo(_) => {
            lemma_leaf_refers_back(pre, run.steps, iin, out, err);
        },
        CommandTree::Type(_) => {
            lemma_leaf_refers_back(pre, run.steps, iin, out, err);
        },
        CommandTree::Pwd => {
            lemma_leaf_refers_back(pre, run.steps, iin, out, err);
        },
        CommandTree::Cd(_) => {
            lemma_leaf_refers_back(pre, run.steps, iin, out, err);
        },
        CommandTree::Executable(_, _) => {
            lemma_leaf_refers_back(pre, run.steps, iin, out, err);
        },
        CommandTree::InvalidCommand(_) => {
            lemma_leaf_refers_back(pre, run.steps, iin, out, err);
        },
    }
}

/// In the script that runs a tree, every step names only what earlier steps
/// made: a stream is written to, handed to a process or closed only after
/// the step that opened it, and a process is waited for only after the step
/// that started it.
pub proof fn lemma_run_steps_refer_back(tree: CommandTree, home: Seq<char>)
    requires
        run_steps(tree, home).len() <= usize::MAX,
    ensures
        refers_back(run_steps(tree, home)),
{
    let none = Seq::<StepView>::empty();
    let started = run_node(tree, IO::Default, IO::Default, IO::Default, home, 0);
    lemma_run_node_refers_back(tree, IO::Default, IO::Default, IO::Default, home, none);
    assert(none + started.steps =~= started.steps);
    let waits = wait_steps(started.result);
    assert forall|k: int|
        started.steps.len() <= k < started.steps.len() + waits.len() implies #[trigger] step_refers_back(
        started.steps + waits,
        k,
    ) by {
        let all = started.steps + waits;
        assert(all[k] == waits[k - started.steps.len()]);
    }
    lemma_extend_refers_back(started.steps, waits);
}

/// A pipe starts both of its stages before it waits for either: the steps
/// of a pipe are the making of the pipe, then all steps that start the left
/// stage, then all steps that start the right stage, and only then the wait
/// for the left and the wait for the right.
pub proof fn lemma_pipe_starts_both_before_waiting(
    left: CommandTree,
    right: CommandTree,
    iin: IO,
    out: IO,
    err: IO,
    home: Seq<char>,
    base: int,
)
    ensures
        ({
            let first = run_node(left, iin, IO::PipeSender(base as usize), err, home, base + 1);
            let second = run_node(
                right,
                IO::PipeReceiver(base as usize),
                out,
                err,
                home,
                base + 1 + first.steps.len(),
            );
            let all = run_node(CommandTree::Pipe(Box::new(left), Box::new(right)), iin, out, err, home, base).steps;
            let started = 1 + first.steps.len() + second.steps.len();
            &&& all.len() == started + wait_steps(first.result).len() + wait_steps(second.result).len()
            &&& all.subrange(0, started as int) == seq![StepView::OpenPipe] + first.steps + second.steps
            &&& all.subrange(started as int, all.len() as int) == wait_steps(first.result) + wait_steps(
                second.result,
            )
        }),
{
    let first = run_node(left, iin, IO::PipeSender(base as usize), err, home, base + 1);
    let second = run_node(right, IO::PipeReceiver(base as usize), out, err, home, base + 1 + first.steps.len());
    let all = run_node(CommandTree::Pipe(Box::new(left), Box::new(right)), iin, out, err, home, base).steps;
    let started = 1 + first.steps.len() + second.steps.len();
    assert(all.subrange(0, started as int) =~= seq![StepView::OpenPipe] + first.steps + second.steps);
    assert(all.subrange(started as int, all.len() as int) =~= wait_steps(first.result) + wait_steps(
        second.result,
    ));
}

} // verus!
