//! The parser: a token sequence becomes a command tree.

use vstd::prelude::*;
use vstd::string::{StrSliceExecFns, StringExecFns};
use crate::commands::{Command, CommandTree};
use crate::tokenizer::tokens;
pub use crate::tokenizer::transform_input;
use crate::text::trimmed;

verus! {

/// What a line is parsed against: the part of the process environment and of
/// the file system that parsing depends on, as plain data.
#[derive(Debug)]
pub struct Environment {
    /// The home directory, which `~` stands for.
    pub home: String,
    /// The directories that are searched for programs, in search order.
    pub search_path: Vec<String>,
    /// The paths that name a regular file.
    pub files: Vec<String>,
}

/// An environment as a mathematical value.
pub struct EnvironmentView {
    pub home: Seq<char>,
    pub search_path: Seq<Seq<char>>,
    pub files: Set<Seq<char>>,
}

impl View for Environment {
    type V = EnvironmentView;

    open spec fn view(&self) -> EnvironmentView {
        EnvironmentView {
            home: self.home@,
            search_path: self.search_path.deep_view(),
            files: self.files.deep_view().to_set(),
        }
    }
}

/// Where one of a pipeline's two output streams is sent.
#[derive(Debug, PartialEq, Eq)]
pub enum RedirectType {
    /// Nowhere: the stream is not redirected.
    Unset,
    /// To the file at this path, replacing what it held.
    Truncate(String),
    /// To the end of the file at this path.
    Append(String),
}

/// A redirection as a mathematical value.
pub enum Redirection {
    Unset,
    Truncate(Seq<char>),
    Append(Seq<char>),
}

impl View for RedirectType {
    type V = Redirection;

    open spec fn view(&self) -> Redirection {
        match self {
            RedirectType::Unset => Redirection::Unset,
            RedirectType::Truncate(path) => Redirection::Truncate(path@),
            RedirectType::Append(path) => Redirection::Append(path@),
        }
    }
}

impl RedirectType {
    /// Whether the stream is sent to a file.
    pub fn is_some(&self) -> (some: bool)
        ensures
            some == !(self@ is Unset),
    {
        match self {
            RedirectType::Unset => false,
            _ => true,
        }
    }
}

/// The redirection operators: which stream, and whether the file is replaced
/// or extended.
#[derive(Clone, Copy, Debug, PartialEq, Eq)]
pub enum Operator {
    OutTruncate,
    OutAppend,
    ErrTruncate,
    ErrAppend,
}

/// The operator that a token spells, if any: `>` and `1>`, `>>` and `1>>`,
/// `2>`, `2>>`.
pub open spec fn operator(token: Seq<char>) -> Option<Operator> {
    if token == ">"@ || token == "1>"@ {
        Some(Operator::OutTruncate)
    } else if token == ">>"@ || token == "1>>"@ {
        Some(Operator::OutAppend)
    } else if token == "2>"@ {
        Some(Operator::ErrTruncate)
    } else if token == "2>>"@ {
        Some(Operator::ErrAppend)
    } else {
        None
    }
}

/// Whether a token is the pipe separator `|`.
pub open spec fn is_pipe(token: Seq<char>) -> bool {
    token == "|"@
}

/// The redirection operator that `token` spells, if any.
pub fn operator_of(token: &str) -> (op: Option<Operator>)
    ensures
        op == operator(token@),
{
    if token.eq(">") || token.eq("1>") {
        Some(Operator::OutTruncate)
    } else if token.eq(">>") || token.eq("1>>") {
        Some(Operator::OutAppend)
    } else if token.eq("2>") {
        Some(Operator::ErrTruncate)
    } else if token.eq("2>>") {
        Some(Operator::ErrAppend)
    } else {
        None
    }
}

/// The redirection extractor's state after some prefix of the tokens.
pub struct Scan {
    /// The tokens that are neither an operator nor an operator's target.
    pub kept: Seq<Seq<char>>,
    pub out: Redirection,
    pub err: Redirection,
    /// The operator just read, whose target is the next token.
    pub pending: Option<Operator>,
}

pub open spec fn scan_start() -> Scan {
    Scan { kept: Seq::empty(), out: Redirection::Unset, err: Redirection::Unset, pending: None }
}

/// A token after an operator is that operator's target, whatever it spells,
/// and replaces what the stream was bound to before; any other token is an
/// operator or is kept.
pub open spec fn scan_step(s: Scan, token: Seq<char>) -> Scan {
    match s.pending {
        Some(Operator::OutTruncate) => Scan { out: Redirection::Truncate(token), pending: None, ..s },
        Some(Operator::OutAppend) => Scan { out: Redirection::Append(token), pending: None, ..s },
        Some(Operator::ErrTruncate) => Scan { err: Redirection::Truncate(token), pending: None, ..s },
        Some(Operator::ErrAppend) => Scan { err: Redirection::Append(token), pending: None, ..s },
        None => match operator(token) {
            Some(op) => Scan { pending: Some(op), ..s },
            None => Scan { kept: s.kept.push(token), ..s },
        },
    }
}

/// The extractor's state after all of `tokens`, read left to right.
pub open spec fn scan(tokens: Seq<Seq<char>>) -> Scan
    decreases tokens.len(),
{
    if tokens.len() == 0 {
        scan_start()
    } else {
        scan_step(scan(tokens.drop_last()), tokens.last())
    }
}

/// What the redirection extractor makes of a token sequence.
pub struct Extraction {
    pub kept: Vec<String>,
    pub out: RedirectType,
    pub err: RedirectType,
    pub pending: Option<Operator>,
}

impl View for Extraction {
    type V = Scan;

    open spec fn view(&self) -> Scan {
        Scan { kept: self.kept.deep_view(), out: self.out@, err: self.err@, pending: self.pending }
    }
}

/// Strips the redirection operators and their targets from `tokens`, and
/// says what the two streams end up bound to. `pending` is left set when the
/// last token is an operator, which then has no target.
pub fn extract_redirects(tokens: &Vec<String>) -> (found: Extraction)
    ensures
        found@ == scan(tokens.deep_view()),
{
    let mut found = Extraction {
        kept: Vec::new(),
        out: RedirectType::Unset,
        err: RedirectType::Unset,
        pending: None,
    };
    let ghost all = tokens.deep_view();
    assert(all.subrange(0, 0) =~= Seq::<Seq<char>>::empty());
    assert(found.kept.deep_view() =~= Seq::<Seq<char>>::empty());
    let mut i: usize = 0;
    while i < tokens.len()
        invariant
            i <= tokens.len(),
            all == tokens.deep_view(),
            found@ == scan(all.subrange(0, i as int)),
        decreases tokens.len() - i,
    {
        let ghost before = scan(all.subrange(0, i as int));
        proof {
            assert(all.subrange(0, i + 1).drop_last() =~= all.subrange(0, i as int));
            assert(all.subrange(0, i + 1).last() == tokens[i as int]@);
        }
        let token = &tokens[i];
        match found.pending {
            Some(Operator::OutTruncate) => {
                found.out = RedirectType::Truncate(token.clone());
                found.pending = None;
            },
            Some(Operator::OutAppend) => {
                found.out = RedirectType::Append(token.clone());
                found.pending = None;
            },
            Some(Operator::ErrTruncate) => {
                found.err = RedirectType::Truncate(token.clone());
                found.pending = None;
            },
            Some(Operator::ErrAppend) => {
                found.err = RedirectType::Append(token.clone());
                found.pending = None;
            },
            None => match operator_of(token.as_str()) {
                Some(op) => {
                    found.pending = Some(op);
                },
                None => {
                    found.kept.push(token.clone());
                    assert(found.kept.deep_view() =~= before.kept.push(token@));
                },
            },
        }
        i += 1;
    }
    assert(all.subrange(0, tokens.len() as int) =~= all);
    found
}

/// The directories that a search path lists: the stretches between its
/// colons, empty ones too, in order.
pub open spec fn path_entries(list: Seq<char>) -> Seq<Seq<char>>
    decreases list.len(),
{
    if list.len() == 0 {
        seq![Seq::empty()]
    } else {
        let front = path_entries(list.drop_last());
        if list.last() == ':' {
            front.push(Seq::empty())
        } else {
            front.drop_last().push(front.last().push(list.last()))
        }
    }
}

/// A search path has one entry more than it has colons, and no entry holds
/// a colon.
pub proof fn lemma_path_entries(list: Seq<char>)
    ensures
        path_entries(list).len() == 1 + list.filter(|c: char| c == ':').len(),
        forall|i: int, j: int|
            0 <= i < path_entries(list).len() && 0 <= j < path_entries(list)[i].len() ==> (
            #[trigger] path_entries(list)[i][j]) != ':',
    decreases list.len(),
{
    reveal(Seq::filter);
    if list.len() > 0 {
        lemma_path_entries(list.drop_last());
        let front = path_entries(list.drop_last());
        let all = path_entries(list);
        assert forall|i: int, j: int| 0 <= i < all.len() && 0 <= j < all[i].len() implies (#[trigger] all[i][j])
            != ':' by {
            if i < front.len() - 1 {
                assert(all[i] == front[i]);
                assert(front[i][j] != ':');
            } else if list.last() != ':' {
                if j < front.last().len() {
                    assert(front[front.len() - 1][j] != ':');
                }
            }
        }
    }
}

/// Splits the value of a search path variable at its colons.
pub fn split_search_path(list: &str) -> (dirs: Vec<String>)
    ensures
        dirs.deep_view() == path_entries(list@),
{
    let mut dirs: Vec<String> = Vec::new();
    let mut current = String::new();
    assert(list@.subrange(0, 0) =~= Seq::<char>::empty());
    assert(dirs.deep_view().push(current@) =~= seq![Seq::<char>::empty()]);
    for c in it: list.chars()
        invariant
            it.seq() == list@,
            dirs.deep_view().push(current@) == path_entries(list@.subrange(0, it.index() as int)),
    {
        let ghost before = list@.subrange(0, it.index() as int);
        let ghost after = list@.subrange(0, it.index() + 1);
        let ghost front = path_entries(before);
        let ghost old_dirs = dirs.deep_view();
        let ghost old_current = current@;
        proof {
            assert(after.drop_last() =~= before);
            assert(after.last() == c);
            assert(front.last() == old_current);
            assert(front.drop_last() =~= old_dirs);
        }
        if c == ':' {
            dirs.push(current);
            current = String::new();
            assert(dirs.deep_view() =~= old_dirs.push(old_current));
        } else {
            current.push(c);
        }
    }
    assert(list@.subrange(0, list@.len() as int) =~= list@);
    let ghost old_dirs = dirs.deep_view();
    let ghost last = current@;
    dirs.push(current);
    assert(dirs.deep_view() =~= old_dirs.push(last));
    dirs
}

/// A copy of the tokens from index `from` up to, not including, index `to`.
pub(crate) fn sub_tokens(tokens: &Vec<String>, from: usize, to: usize) -> (part: Vec<String>)
    requires
        from <= to <= tokens.len(),
    ensures
        part.deep_view() == tokens.deep_view().subrange(from as int, to as int),
        part.len() == to - from,
{
    let mut part: Vec<String> = Vec::new();
    let mut i: usize = from;
    while i < to
        invariant
            from <= i <= to <= tokens.len(),
            part.len() == i - from,
            forall|k: int| 0 <= k < part.len() ==> (#[trigger] part[k])@ == tokens[from + k]@,
        decreases to - i,
    {
        part.push(tokens[i].clone());
        i += 1;
    }
    assert(part.deep_view() =~= tokens.deep_view().subrange(from as int, to as int));
    part
}

/// The path of `name` looked up in the directory `dir`: `name` itself when it
/// is absolute, else `dir` and `name` with one `/` between them, which an
/// empty `dir` or one that ends in `/` does not need.
pub open spec fn joined(dir: Seq<char>, name: Seq<char>) -> Seq<char> {
    if name.len() > 0 && name[0] == '/' {
        name
    } else if dir.len() == 0 || dir.last() == '/' {
        dir + name
    } else {
        dir.push('/') + name
    }
}

/// The path of `name` looked up in the directory `dir`.
pub fn join_path(dir: &str, name: &str) -> (path: String)
    ensures
        path@ == joined(dir@, name@),
{
    if name.unicode_len() > 0 && name.get_char(0) == '/' {
        return String::from_str(name);
    }
    let mut path = String::from_str(dir);
    let n = dir.unicode_len();
    if n > 0 && dir.get_char(n - 1) != '/' {
        path.push('/');
    }
    path.append(name);
    path
}

/// The first directory of the search path, from index `from` on, in which
/// `name` is a regular file, as the path of that file.
pub open spec fn search(name: Seq<char>, env: EnvironmentView, from: int) -> Option<Seq<char>>
    decreases env.search_path.len() - from,
{
    if from < 0 || from >= env.search_path.len() {
        None
    } else if env.files.contains(joined(env.search_path[from], name)) {
        Some(joined(env.search_path[from], name))
    } else {
        search(name, env, from + 1)
    }
}

/// A search finds the candidate of the first directory whose candidate is a
/// regular file, and nothing exactly when no directory has one.
pub proof fn lemma_search_first_match(name: Seq<char>, env: EnvironmentView, from: int)
    requires
        0 <= from,
    ensures
        match search(name, env, from) {
            Some(path) => exists|i: int|
                from <= i < env.search_path.len() && path == joined(#[trigger] env.search_path[i], name)
                    && env.files.contains(path) && forall|j: int|
                    from <= j < i ==> !env.files.contains(joined(#[trigger] env.search_path[j], name)),
            None => forall|j: int|
                from <= j < env.search_path.len() ==> !env.files.contains(
                    joined(#[trigger] env.search_path[j], name),
                ),
        },
    decreases env.search_path.len() - from,
{
    if from < env.search_path.len() {
        if env.files.contains(joined(env.search_path[from], name)) {
        } else {
            lemma_search_first_match(name, env, from + 1);
            match search(name, env, from + 1) {
                Some(path) => {
                    let i = choose|i: int|
                        from + 1 <= i < env.search_path.len() && path == joined(
                            #[trigger] env.search_path[i],
                            name,
                        ) && env.files.contains(path) && forall|j: int|
                            from + 1 <= j < i ==> !env.files.contains(
                                joined(#[trigger] env.search_path[j], name),
                            );
                    assert(from <= i < env.search_path.len() && path == joined(
                        env.search_path[i],
                        name,
                    ) && env.files.contains(path) && forall|j: int|
                        from <= j < i ==> !env.files.contains(
                            joined(#[trigger] env.search_path[j], name),
                        ));
                },
                None => {},
            }
        }
    }
}

impl Environment {
    /// Whether `path` is known to name a regular file.
    pub fn is_file(&self, path: &str) -> (known: bool)
        ensures
            known == self@.files.contains(path@),
    {
        let mut i: usize = 0;
        while i < self.files.len()
            invariant
                i <= self.files.len(),
                forall|k: int| 0 <= k < i ==> (#[trigger] self.files[k])@ != path@,
            decreases self.files.len() - i,
        {
            if self.files[i].as_str().eq(path) {
                assert(self.files.deep_view()[i as int] == path@);
                return true;
            }
            i += 1;
        }
        assert forall|k: int| 0 <= k < self.files.deep_view().len() implies self.files.deep_view()[k]
            != path@ by {
            assert(self.files[k]@ != path@);
        }
        false
    }

    /// Searches the search path, in order, for a regular file named `name`.
    pub fn find_executable(&self, name: &str) -> (found: Option<String>)
        ensures
            match found {
                Some(path) => search(name@, self@, 0) == Some(path@),
                None => search(name@, self@, 0) is None,
            },
    {
        let mut i: usize = 0;
        while i < self.search_path.len()
            invariant
                i <= self.search_path.len(),
                search(name@, self@, 0) == search(name@, self@, i as int),
            decreases self.search_path.len() - i,
        {
            assert(self@.search_path[i as int] == self.search_path[i as int]@);
            let candidate = join_path(self.search_path[i].as_str(), name);
            if self.is_file(candidate.as_str()) {
                return Some(candidate);
            }
            i += 1;
        }
        None
    }
}

/// What a command name with its arguments resolves to, for every name but
/// `type`: one of the builtins, or the first regular file of that name on the
/// search path, or an invalid command.
pub open spec fn plain_stage(name: Seq<char>, args: Seq<Seq<char>>, env: EnvironmentView) -> CommandTree {
    if name == "exit"@ {
        CommandTree::Exit
    } else if name == "echo"@ {
        CommandTree::Echo(args)
    } else if name == "pwd"@ {
        CommandTree::Pwd
    } else if name == "cd"@ {
        CommandTree::Cd(args)
    } else {
        match search(name, env, 0) {
            Some(path) => CommandTree::Executable(path, args),
            None => CommandTree::InvalidCommand(name),
        }
    }
}

/// What a name alone resolves to, as `type` asks of each of its targets.
pub open spec fn bare_stage(name: Seq<char>, env: EnvironmentView) -> CommandTree {
    if name == "type"@ {
        CommandTree::Type(Seq::empty())
    } else {
        plain_stage(name, Seq::empty(), env)
    }
}

/// What one stage resolves to: its first token is the command name, the rest
/// are its arguments, and the arguments of `type` are resolved each alone.
pub open spec fn stage(name: Seq<char>, args: Seq<Seq<char>>, env: EnvironmentView) -> CommandTree {
    if name == "type"@ {
        CommandTree::Type(Seq::new(args.len(), |i: int| bare_stage(args[i], env)))
    } else {
        plain_stage(name, args, env)
    }
}

/// The command of one stage's tokens; no tokens, no command.
pub open spec fn resolve(tokens: Seq<Seq<char>>, env: EnvironmentView) -> Option<CommandTree> {
    if tokens.len() == 0 {
        None
    } else {
        Some(stage(tokens[0], tokens.skip(1), env))
    }
}

/// The tree of a command that may be absent.
pub open spec fn option_tree(command: Option<Command>) -> Option<CommandTree> {
    match command {
        Some(c) => Some(c@),
        None => None,
    }
}

/// Resolves one stage: a builtin, a program on the search path, or an
/// invalid command. An empty stage resolves to nothing.
pub fn parse_command(command_parts: &Vec<String>, env: &Environment) -> (command: Option<Command>)
    ensures
        option_tree(command) == resolve(command_parts.deep_view(), env@),
    decreases command_parts.len(),
{
    if command_parts.len() < 1 {
        return None;
    }
    let ghost parts = command_parts.deep_view();
    assert(parts[0] == command_parts[0]@);
    let name = command_parts[0].as_str();
    if name.eq("type") {
        let mut targets: Vec<Command> = Vec::new();
        let mut i: usize = 1;
        while i < command_parts.len()
            invariant
                1 <= i <= command_parts.len(),
                parts == command_parts.deep_view(),
                targets.len() == i - 1,
                forall|k: int| 0 <= k < targets.len() ==> (#[trigger] targets[k])@ == bare_stage(parts[k + 1], env@),
            decreases command_parts.len() - i,
        {
            let single = vec![command_parts[i].clone()];
            assert(single.deep_view() =~= seq![parts[i as int]]);
            assert(single.deep_view().skip(1) =~= Seq::<Seq<char>>::empty());
            let target = parse_command(&single, env);
            assert(Seq::new(0, |i: int| bare_stage(Seq::<Seq<char>>::empty()[i], env@))
                =~= Seq::<CommandTree>::empty());
            match target {
                Some(t) => {
                    targets.push(t);
                },
                None => {},
            }
            i += 1;
        }
        let command = Command::Type(targets);
        assert(command@ == stage(parts[0], parts.skip(1), env@)) by {
            let wanted = Seq::new(parts.skip(1).len(), |i: int| bare_stage(parts.skip(1)[i], env@));
            assert(command@ is Type);
            assert(command@->Type_0 =~= wanted);
        }
        return Some(command);
    }
    let args = sub_tokens(command_parts, 1, command_parts.len());
    assert(args.deep_view() == parts.skip(1));
    let command = if name.eq("exit") {
        Command::Exit
    } else if name.eq("echo") {
        Command::Echo(args)
    } else if name.eq("pwd") {
        Command::PWD
    } else if name.eq("cd") {
        Command::CD(args)
    } else {
        match env.find_executable(name) {
            Some(path) => Command::Executable(path, args),
            None => Command::InvalidCommand(command_parts[0].clone()),
        }
    };
    Some(command)
}

/// The index of the rightmost pipe separator among the tokens.
pub open spec fn last_pipe(tokens: Seq<Seq<char>>) -> Option<int>
    decreases tokens.len(),
{
    if tokens.len() == 0 {
        None
    } else if is_pipe(tokens.last()) {
        Some(tokens.len() - 1)
    } else {
        last_pipe(tokens.drop_last())
    }
}

/// The rightmost pipe separator is a pipe separator with none to its right;
/// there is none exactly when no token is a pipe separator.
pub proof fn lemma_last_pipe(tokens: Seq<Seq<char>>)
    ensures
        match last_pipe(tokens) {
            Some(i) => 0 <= i < tokens.len() && is_pipe(tokens[i]) && forall|j: int|
                i < j < tokens.len() ==> !is_pipe(#[trigger] tokens[j]),
            None => forall|j: int| 0 <= j < tokens.len() ==> !is_pipe(#[trigger] tokens[j]),
        },
    decreases tokens.len(),
{
    if tokens.len() > 0 && !is_pipe(tokens.last()) {
        lemma_last_pipe(tokens.drop_last());
        assert forall|j: int| 0 <= j < tokens.len() - 1 implies tokens[j] == tokens.drop_last()[j] by {}
    }
}

/// The tree of a pipeline: the tokens right of the rightmost pipe separator
/// are one stage, the tokens left of it are a pipeline again, so that stages
/// nest to the left. Without a pipe separator the tokens are one stage.
pub open spec fn split_pipes(tokens: Seq<Seq<char>>, env: EnvironmentView) -> Option<CommandTree>
    decreases tokens.len(),
{
    match last_pipe(tokens) {
        Some(i) => if 0 <= i < tokens.len() {
            match (
                split_pipes(tokens.subrange(0, i), env),
                resolve(tokens.subrange(i + 1, tokens.len() as int), env),
            ) {
                (Some(left), Some(right)) => Some(CommandTree::Pipe(Box::new(left), Box::new(right))),
                _ => None,
            }
        } else {
            None
        },
        None => resolve(tokens, env),
    }
}

/// Whether the pipe separator at index `i` has no stage on one of its sides:
/// it is the first token, the last token, or follows another pipe separator.
pub open spec fn empty_stage_at(tokens: Seq<Seq<char>>, i: int) -> bool {
    is_pipe(tokens[i]) && (i == 0 || i == tokens.len() - 1 || is_pipe(tokens[i - 1]))
}

/// Whether every pipe separator has a stage on both of its sides.
pub open spec fn stages_complete(tokens: Seq<Seq<char>>) -> bool {
    forall|i: int| 0 <= i < tokens.len() ==> !#[trigger] empty_stage_at(tokens, i)
}

/// In a pipeline whose stages are complete, so are the stages left of the
/// rightmost pipe separator, and both sides of it hold a token.
pub proof fn lemma_stages_of_left(tokens: Seq<Seq<char>>, i: int)
    requires
        stages_complete(tokens),
        last_pipe(tokens) == Some(i),
    ensures
        0 < i < tokens.len() - 1,
        stages_complete(tokens.subrange(0, i)),
        last_pipe(tokens.subrange(i + 1, tokens.len() as int)) is None,
{
    lemma_last_pipe(tokens);
    assert(!empty_stage_at(tokens, i));
    let left = tokens.subrange(0, i);
    assert forall|j: int| 0 <= j < left.len() implies !#[trigger] empty_stage_at(left, j) by {
        assert(!empty_stage_at(tokens, j));
    }
    let right = tokens.subrange(i + 1, tokens.len() as int);
    lemma_last_pipe(right);
    if last_pipe(right) is Some {
        let k = last_pipe(right)->0;
        assert(right[k] == tokens[i + 1 + k]);
    }
}

/// The index of the rightmost pipe separator.
pub fn find_last_pipe(tokens: &Vec<String>) -> (found: Option<usize>)
    ensures
        match found {
            Some(i) => last_pipe(tokens.deep_view()) == Some(i as int),
            None => last_pipe(tokens.deep_view()) is None,
        },
{
    let ghost all = tokens.deep_view();
    let mut i: usize = tokens.len();
    assert(all.subrange(0, i as int) =~= all);
    while i > 0
        invariant
            i <= tokens.len(),
            all == tokens.deep_view(),
            last_pipe(all.subrange(0, i as int)) is None ==> last_pipe(all) is None,
            forall|k: int|
                last_pipe(all.subrange(0, i as int)) == Some(k) ==> last_pipe(all) == Some(k),
        decreases i,
    {
        let ghost prefix = all.subrange(0, i as int);
        assert(prefix.last() == tokens[i - 1]@);
        assert(prefix.drop_last() =~= all.subrange(0, i - 1));
        if tokens[i - 1].as_str().eq("|") {
            return Some(i - 1);
        }
        i -= 1;
    }
    None
}

/// Splits a pipeline at its rightmost pipe separator and resolves its stages.
/// Every pipe separator must have a stage on both of its sides.
pub fn parse_pipe(command_parts: &Vec<String>, env: &Environment) -> (command: Option<Command>)
    requires
        stages_complete(command_parts.deep_view()),
    ensures
        option_tree(command) == split_pipes(command_parts.deep_view(), env@),
        command is None <==> command_parts.len() == 0,
    decreases command_parts.len(),
{
    match find_last_pipe(command_parts) {
        Some(i) => {
            proof {
                lemma_stages_of_left(command_parts.deep_view(), i as int);
            }
            let left = sub_tokens(command_parts, 0, i);
            let right = sub_tokens(command_parts, i + 1, command_parts.len());
            let left_command = parse_pipe(&left, env);
            let right_command = parse_command(&right, env);
            match (left_command, right_command) {
                (Some(l), Some(r)) => Some(Command::Pipe(Box::new(l), Box::new(r))),
                _ => None,
            }
        },
        None => parse_command(command_parts, env),
    }
}

/// Why a token sequence is not a command line.
#[derive(Clone, Copy, Debug, PartialEq, Eq)]
pub enum ParseError {
    /// The last token is a redirection operator, which has no target.
    MissingRedirectTarget,
    /// A pipe separator has no stage on one of its sides, or a redirection
    /// has no pipeline to bind to.
    MissingCommand,
}

/// Whether either stream is sent to a file.
pub open spec fn redirected(s: Scan) -> bool {
    !(s.out is Unset) || !(s.err is Unset)
}

/// What is wrong with a token sequence, if anything.
pub open spec fn parse_error(tokens: Seq<Seq<char>>) -> Option<ParseError> {
    let s = scan(tokens);
    if s.pending is Some {
        Some(ParseError::MissingRedirectTarget)
    } else if !stages_complete(s.kept) || (s.kept.len() == 0 && redirected(s)) {
        Some(ParseError::MissingCommand)
    } else {
        None
    }
}

/// The tree of a token sequence: the pipeline of the tokens that are left
/// once the redirections are taken out, under one redirect node at the root
/// when a stream is sent to a file.
pub open spec fn parse_tokens(tokens: Seq<Seq<char>>, env: EnvironmentView) -> Option<CommandTree> {
    let s = scan(tokens);
    match split_pipes(s.kept, env) {
        Some(inner) => if redirected(s) {
            Some(CommandTree::Redirect(s.out, s.err, Box::new(inner)))
        } else {
            Some(inner)
        },
        None => None,
    }
}

/// Whether every pipe separator among the tokens has a stage on both sides.
pub fn check_stages(tokens: &Vec<String>) -> (complete: bool)
    ensures
        complete == stages_complete(tokens.deep_view()),
{
    let ghost all = tokens.deep_view();
    let mut after_pipe = true;
    let mut i: usize = 0;
    while i < tokens.len()
        invariant
            i <= tokens.len(),
            all == tokens.deep_view(),
            after_pipe == (i == 0 || is_pipe(all[i - 1])),
            forall|k: int| 0 <= k < i ==> !#[trigger] empty_stage_at(all, k),
        decreases tokens.len() - i,
    {
        assert(all[i as int] == tokens[i as int]@);
        let pipe = tokens[i].as_str().eq("|");
        if pipe && (after_pipe || i == tokens.len() - 1) {
            assert(empty_stage_at(all, i as int));
            return false;
        }
        after_pipe = pipe;
        i += 1;
    }
    true
}

/// Says what is wrong with a token sequence, if anything.
pub fn check_tokens(tokens: &Vec<String>) -> (error: Option<ParseError>)
    ensures
        error == parse_error(tokens.deep_view()),
{
    let found = extract_redirects(tokens);
    if found.pending.is_some() {
        Some(ParseError::MissingRedirectTarget)
    } else if !check_stages(&found.kept) || (found.kept.len() == 0 && (found.out.is_some()
        || found.err.is_some())) {
        Some(ParseError::MissingCommand)
    } else {
        None
    }
}

/// Takes the redirections out of the tokens, leaving the others in place, and
/// parses what is left as a pipeline, bound to the redirections if there are
/// any. The tokens must be a command line.
pub fn parse_redirect(command_parts: &mut Vec<String>, env: &Environment) -> (command: Option<Command>)
    requires
        parse_error(old(command_parts).deep_view()) is None,
    ensures
        final(command_parts).deep_view() == scan(old(command_parts).deep_view()).kept,
        option_tree(command) == parse_tokens(old(command_parts).deep_view(), env@),
        command is None <==> final(command_parts).len() == 0,
{
    let found = extract_redirects(command_parts);
    *command_parts = found.kept;
    let command = parse_pipe(command_parts, env);
    if found.out.is_some() || found.err.is_some() {
        match command {
            Some(inner) => Some(Command::Redirect(found.out, found.err, Box::new(inner))),
            None => None,
        }
    } else {
        command
    }
}

/// Parses one input line against `env`. The line must be a command line:
/// see [`try_parse_input`] for lines that may not be.
pub fn parse_input(input: &str, env: &Environment) -> (command: Option<Command>)
    requires
        parse_error(tokens(trimmed(input@), env.home@)) is None,
    ensures
        option_tree(command) == parse_tokens(tokens(trimmed(input@), env.home@), env@),
{
    let mut command_parts = transform_input(input, env.home.as_str());
    parse_redirect(&mut command_parts, env)
}

/// Parses one input line against `env`, or says why it is not a command line.
pub fn try_parse_input(input: &str, env: &Environment) -> (parsed: Result<Option<Command>, ParseError>)
    ensures
        match parsed {
            Ok(command) => parse_error(tokens(trimmed(input@), env.home@)) is None && option_tree(command)
                == parse_tokens(tokens(trimmed(input@), env.home@), env@),
            Err(error) => parse_error(tokens(trimmed(input@), env.home@)) == Some(error),
        },
{
    let command_parts = transform_input(input, env.home.as_str());
    match check_tokens(&command_parts) {
        Some(error) => Err(error),
        None => Ok(parse_input(input, env)),
    }
}

} // verus!
