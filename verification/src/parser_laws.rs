//! What holds of every parse.

use vstd::prelude::*;
use crate::commands::{Command, CommandTree};
use crate::parser::{
    bare_stage, empty_stage_at, is_pipe, last_pipe, lemma_last_pipe, lemma_search_first_match,
    operator, option_tree, parse_error, parse_tokens, redirected, resolve, scan, scan_start,
    scan_step, split_pipes, stage, EnvironmentView, Operator, Redirection, Scan,
};
use crate::text::trimmed;
use crate::tokenizer::tokens;

verus! {

/// Whether no node of the tree is a pipe or a redirect.
pub open spec fn has_no_pipe_or_redirect(tree: CommandTree) -> bool
    decreases tree,
{
    match tree {
        CommandTree::Pipe(_, _) => false,
        CommandTree::Redirect(_, _, _) => false,
        CommandTree::Type(targets) => forall|i: int|
            0 <= i < targets.len() ==> has_no_pipe_or_redirect(#[trigger] targets[i]),
        _ => true,
    }
}

/// Whether no token is a pipe separator or a redirection operator.
pub open spec fn has_no_operator(line: Seq<Seq<char>>) -> bool {
    forall|i: int| 0 <= i < line.len() ==> !is_pipe(#[trigger] line[i]) && operator(line[i]) is None
}

/// The redirection extractor keeps a token sequence without redirection
/// operators as it is, and binds neither stream.
pub proof fn lemma_scan_without_operators(line: Seq<Seq<char>>)
    requires
        forall|i: int| 0 <= i < line.len() ==> operator(#[trigger] line[i]) is None,
    ensures
        scan(line).kept == line,
        scan(line).out is Unset,
        scan(line).err is Unset,
        scan(line).pending is None,
    decreases line.len(),
{
    if line.len() > 0 {
        let front = line.drop_last();
        assert forall|i: int| 0 <= i < front.len() implies operator(#[trigger] front[i]) is None by {
            assert(front[i] == line[i]);
        }
        lemma_scan_without_operators(front);
        assert(operator(line[line.len() - 1]) is None);
        assert(front.push(line.last()) =~= line);
    } else {
        assert(scan_start().kept =~= line);
    }
}

/// What a stage resolves to has no pipe and no redirect in it.
pub proof fn lemma_stage_is_plain(name: Seq<char>, args: Seq<Seq<char>>, env: EnvironmentView)
    ensures
        has_no_pipe_or_redirect(stage(name, args, env)),
{
    if name == "type"@ {
        let targets = stage(name, args, env)->Type_0;
        assert forall|i: int| 0 <= i < targets.len() implies has_no_pipe_or_redirect(
            #[trigger] targets[i],
        ) by {
            assert(targets[i] == bare_stage(args[i], env));
        }
    }
}

/// On a line without a pipe separator or a redirection operator the
/// redirection extractor and the pipe splitter change nothing: the line is a
/// command line, it parses to what its one stage resolves to, and the tree
/// has no pipe and no redirect in it.
pub proof fn lemma_plain_line(line: Seq<Seq<char>>, env: EnvironmentView)
    requires
        has_no_operator(line),
    ensures
        scan(line).kept == line,
        !redirected(scan(line)),
        last_pipe(line) is None,
        parse_error(line) is None,
        parse_tokens(line, env) == resolve(line, env),
        match parse_tokens(line, env) {
            Some(tree) => has_no_pipe_or_redirect(tree),
            None => line.len() == 0,
        },
{
    lemma_scan_without_operators(line);
    lemma_last_pipe(line);
    assert forall|i: int| 0 <= i < line.len() implies !#[trigger] empty_stage_at(line, i) by {
        assert(!is_pipe(line[i]));
    }
    if line.len() > 0 {
        lemma_stage_is_plain(line[0], line.skip(1), env);
    }
}

/// Whether the tree is a pipeline: stages nested to the left, so that the
/// right side of every pipe is one stage, and no redirect anywhere.
pub open spec fn is_pipeline(tree: CommandTree) -> bool
    decreases tree,
{
    match tree {
        CommandTree::Pipe(left, right) => is_pipeline(*left) && has_no_pipe_or_redirect(*right),
        _ => has_no_pipe_or_redirect(tree),
    }
}

/// The pipe splitter builds pipelines.
pub proof fn lemma_split_pipes_is_pipeline(line: Seq<Seq<char>>, env: EnvironmentView)
    ensures
        match split_pipes(line, env) {
            Some(tree) => is_pipeline(tree),
            None => true,
        },
    decreases line.len(),
{
    match last_pipe(line) {
        Some(i) => {
            if 0 <= i < line.len() {
                let left = line.subrange(0, i);
                let right = line.subrange(i + 1, line.len() as int);
                lemma_split_pipes_is_pipeline(left, env);
                if right.len() > 0 {
                    lemma_stage_is_plain(right[0], right.skip(1), env);
                }
            }
        },
        None => {
            if line.len() > 0 {
                lemma_stage_is_plain(line[0], line.skip(1), env);
            }
        },
    }
}

/// A redirect is only ever the root of a parsed tree: the tree is a
/// pipeline, or one redirect that binds a stream, over a pipeline.
pub proof fn lemma_redirect_only_at_root(line: Seq<Seq<char>>, env: EnvironmentView)
    ensures
        match parse_tokens(line, env) {
            Some(CommandTree::Redirect(out, err, inner)) => is_pipeline(*inner) && (!(out is Unset) || !(err
                is Unset)),
            Some(tree) => is_pipeline(tree),
            None => true,
        },
{
    lemma_split_pipes_is_pipeline(scan(line).kept, env);
}

/// Whether the path of every program in the tree names a regular file.
pub open spec fn programs_are_files(tree: CommandTree, env: EnvironmentView) -> bool
    decreases tree,
{
    match tree {
        CommandTree::Executable(path, _) => env.files.contains(path),
        CommandTree::Type(targets) => forall|i: int|
            0 <= i < targets.len() ==> programs_are_files(#[trigger] targets[i], env),
        CommandTree::Pipe(left, right) => programs_are_files(*left, env) && programs_are_files(*right, env),
        CommandTree::Redirect(_, _, inner) => programs_are_files(*inner, env),
        _ => true,
    }
}

/// A stage resolves to a program only at the path of a regular file.
pub proof fn lemma_stage_programs_are_files(name: Seq<char>, args: Seq<Seq<char>>, env: EnvironmentView)
    ensures
        programs_are_files(stage(name, args, env), env),
{
    lemma_search_first_match(name, env, 0);
    if name == "type"@ {
        let targets = stage(name, args, env)->Type_0;
        assert forall|i: int| 0 <= i < targets.len() implies programs_are_files(
            #[trigger] targets[i],
            env,
        ) by {
            assert(targets[i] == bare_stage(args[i], env));
            lemma_search_first_match(args[i], env, 0);
        }
    }
}

/// Every program in a parsed pipeline is at the path of a regular file.
pub proof fn lemma_split_pipes_programs_are_files(line: Seq<Seq<char>>, env: EnvironmentView)
    ensures
        match split_pipes(line, env) {
            Some(tree) => programs_are_files(tree, env),
            None => true,
        },
    decreases line.len(),
{
    match last_pipe(line) {
        Some(i) => {
            if 0 <= i < line.len() {
                let left = line.subrange(0, i);
                let right = line.subrange(i + 1, line.len() as int);
                lemma_split_pipes_programs_are_files(left, env);
                if right.len() > 0 {
                    lemma_stage_programs_are_files(right[0], right.skip(1), env);
                }
            }
        },
        None => {
            if line.len() > 0 {
                lemma_stage_programs_are_files(line[0], line.skip(1), env);
            }
        },
    }
}

/// Every program in a parsed tree is at the path of a regular file of the
/// environment the line was parsed against.
pub proof fn lemma_parsed_programs_are_files(line: Seq<Seq<char>>, env: EnvironmentView)
    ensures
        match parse_tokens(line, env) {
            Some(tree) => programs_are_files(tree, env),
            None => true,
        },
{
    lemma_split_pipes_programs_are_files(scan(line).kept, env);
}

/// Pipes associate to the left: a pipeline followed by a pipe separator and
/// one more stage is a pipe with that pipeline on its left and that stage on
/// its right.
pub proof fn lemma_pipe_appends_stage(
    front: Seq<Seq<char>>,
    separator: Seq<char>,
    last: Seq<Seq<char>>,
    env: EnvironmentView,
)
    requires
        is_pipe(separator),
        forall|i: int| 0 <= i < last.len() ==> !is_pipe(#[trigger] last[i]),
    ensures
        last_pipe(front.push(separator) + last) == Some(front.len() as int),
        split_pipes(front.push(separator) + last, env) == match (split_pipes(front, env), resolve(last, env)) {
            (Some(left), Some(right)) => Some(CommandTree::Pipe(Box::new(left), Box::new(right))),
            _ => None,
        },
{
    let line = front.push(separator) + last;
    lemma_last_pipe(line);
    let at = front.len() as int;
    assert(line[at] == separator);
    assert forall|j: int| at < j < line.len() implies !is_pipe(#[trigger] line[j]) by {
        assert(line[j] == last[j - at - 1]);
    }
    assert(last_pipe(line) == Some(at));
    assert(line.subrange(0, at) =~= front);
    assert(line.subrange(at + 1, line.len() as int) =~= last);
}

/// What a redirection operator binds its stream to, given its target.
pub open spec fn bound_to(op: Operator, target: Seq<char>) -> Redirection {
    match op {
        Operator::OutTruncate => Redirection::Truncate(target),
        Operator::OutAppend => Redirection::Append(target),
        Operator::ErrTruncate => Redirection::Truncate(target),
        Operator::ErrAppend => Redirection::Append(target),
    }
}

/// Whether the operator redirects standard output, rather than standard
/// error.
pub open spec fn binds_output(op: Operator) -> bool {
    op is OutTruncate || op is OutAppend
}

/// Tokens without a redirection operator, read after a complete redirection,
/// are kept and leave both streams as they were.
pub proof fn lemma_scan_keeps_words(front: Seq<Seq<char>>, back: Seq<Seq<char>>)
    requires
        scan(front).pending is None,
        forall|i: int| 0 <= i < back.len() ==> operator(#[trigger] back[i]) is None,
    ensures
        scan(front + back) == (Scan { kept: scan(front).kept + back, ..scan(front) }),
    decreases back.len(),
{
    if back.len() == 0 {
        assert(front + back =~= front);
        assert(scan(front).kept + back =~= scan(front).kept);
    } else {
        let shorter = back.drop_last();
        assert forall|i: int| 0 <= i < shorter.len() implies operator(#[trigger] shorter[i]) is None by {
            assert(shorter[i] == back[i]);
        }
        lemma_scan_keeps_words(front, shorter);
        assert((front + back).drop_last() =~= front + shorter);
        assert((front + back).last() == back.last());
        assert(operator(back[back.len() - 1]) is None);
        assert((scan(front).kept + shorter).push(back.last()) =~= scan(front).kept + back);
    }
}

/// The last redirection of a stream wins: after an operator and its target,
/// with no operator behind them, the operator's stream is bound to that
/// target, whatever it was bound to before, and the other stream is as it
/// was.
pub proof fn lemma_last_redirect_wins(
    front: Seq<Seq<char>>,
    spelled: Seq<char>,
    target: Seq<char>,
    back: Seq<Seq<char>>,
)
    requires
        scan(front).pending is None,
        operator(spelled) is Some,
        forall|i: int| 0 <= i < back.len() ==> operator(#[trigger] back[i]) is None,
    ensures
        ({
            let op = operator(spelled)->0;
            let before = scan(front);
            let after = scan(front.push(spelled).push(target) + back);
            &&& after.pending is None
            &&& after.kept == before.kept + back
            &&& binds_output(op) ==> after.out == bound_to(op, target) && after.err == before.err
            &&& !binds_output(op) ==> after.err == bound_to(op, target) && after.out == before.out
        }),
{
    let with_op = front.push(spelled);
    let with_target = with_op.push(target);
    assert(with_op.drop_last() =~= front);
    assert(with_target.drop_last() =~= with_op);
    assert(scan(with_op) == scan_step(scan(front), spelled));
    assert(scan(with_target) == scan_step(scan(with_op), target));
    lemma_scan_keeps_words(with_target, back);
}

/// Parsing keeps no state: two parses of one line against one environment
/// give the same tree.
pub proof fn lemma_parse_is_repeatable(
    input: Seq<char>,
    env: EnvironmentView,
    first: Option<Command>,
    second: Option<Command>,
)
    requires
        option_tree(first) == parse_tokens(tokens(trimmed(input), env.home), env),
        option_tree(second) == parse_tokens(tokens(trimmed(input), env.home), env),
    ensures
        option_tree(first) == option_tree(second),
{
}

} // verus!
