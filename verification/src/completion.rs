//! Completion of command names: which of the known names a partly typed
//! line can become.

use vstd::prelude::*;
use vstd::string::{StrSliceExecFns, StringExecFns};
use crate::commands::is_builtin;
use crate::parser::{bare_stage, EnvironmentView};

verus! {

/// The names of the builtins.
pub open spec fn builtins() -> Seq<Seq<char>> {
    seq!["echo"@, "exit"@, "type"@, "pwd"@, "cd"@]
}

/// The names of the builtins, for the list of names to complete to.
pub fn builtin_names() -> (names: Vec<String>)
    ensures
        names.deep_view() == builtins(),
{
    let names = vec![
        String::from_str("echo"),
        String::from_str("exit"),
        String::from_str("type"),
        String::from_str("pwd"),
        String::from_str("cd"),
    ];
    assert(names.deep_view() =~= builtins());
    names
}

/// The names offered for completion as builtins are the names that resolve
/// to a builtin, whatever is on the search path.
pub proof fn lemma_builtins_resolve_to_builtins(name: Seq<char>, env: EnvironmentView)
    ensures
        builtins().contains(name) <==> is_builtin(bare_stage(name, env)),
{
    let names = builtins();
    if is_builtin(bare_stage(name, env)) {
        if name == "echo"@ {
            assert(names[0] == name);
        } else if name == "exit"@ {
            assert(names[1] == name);
        } else if name == "type"@ {
            assert(names[2] == name);
        } else if name == "pwd"@ {
            assert(names[3] == name);
        } else {
            assert(names[4] == name);
        }
    }
}

/// Whether `word` begins with `prefix`.
pub fn has_prefix(word: &str, prefix: &str) -> (begins: bool)
    ensures
        begins == prefix@.is_prefix_of(word@),
{
    let n = prefix.unicode_len();
    if n > word.unicode_len() {
        return false;
    }
    let mut i: usize = 0;
    while i < n
        invariant
            i <= n == prefix@.len() <= word@.len(),
            prefix@.subrange(0, i as int) == word@.subrange(0, i as int),
        decreases n - i,
    {
        if word.get_char(i) != prefix.get_char(i) {
            assert(prefix@[i as int] != word@.subrange(0, n as int)[i as int]);
            return false;
        }
        assert(prefix@.subrange(0, i + 1) =~= prefix@.subrange(0, i as int).push(prefix@[i as int]));
        assert(word@.subrange(0, i + 1) =~= word@.subrange(0, i as int).push(word@[i as int]));
        i += 1;
    }
    assert(prefix@.subrange(0, n as int) =~= prefix@);
    true
}

/// The options that begin with `line`, in the order of the options.
pub open spec fn candidates(options: Seq<Seq<char>>, line: Seq<char>) -> Seq<Seq<char>> {
    options.filter(|option: Seq<char>| line.is_prefix_of(option))
}

/// What a line can be completed to: the candidates, where a lone candidate
/// is followed by a space, so that the next word can begin.
pub open spec fn completions(options: Seq<Seq<char>>, line: Seq<char>) -> Seq<Seq<char>> {
    let found = candidates(options, line);
    if found.len() == 1 {
        seq![found[0].push(' ')]
    } else {
        found
    }
}

/// The completions of `line` among `options`, in the order of the options.
pub fn complete(options: &Vec<String>, line: &str) -> (found: Vec<String>)
    ensures
        found.deep_view() == completions(options.deep_view(), line@),
{
    let ghost all = options.deep_view();
    let ghost begins = |option: Seq<char>| line@.is_prefix_of(option);
    let mut found: Vec<String> = Vec::new();
    let mut i: usize = 0;
    proof {
        reveal(Seq::filter);
        assert(all.subrange(0, 0) =~= Seq::<Seq<char>>::empty());
        assert(found.deep_view() =~= all.subrange(0, 0).filter(begins));
    }
    while i < options.len()
        invariant
            i <= options.len(),
            all == options.deep_view(),
            begins == |option: Seq<char>| line@.is_prefix_of(option),
            found.deep_view() == all.subrange(0, i as int).filter(begins),
        decreases options.len() - i,
    {
        let ghost so_far = found.deep_view();
        proof {
            reveal(Seq::filter);
            assert(all.subrange(0, i + 1).drop_last() =~= all.subrange(0, i as int));
            assert(all.subrange(0, i + 1).last() == options[i as int]@);
        }
        if has_prefix(options[i].as_str(), line) {
            found.push(options[i].clone());
            assert(found.deep_view() =~= so_far.push(options[i as int]@));
        }
        i += 1;
    }
    assert(all.subrange(0, options.len() as int) =~= all);
    if found.len() == 1 {
        let ghost only = found.deep_view()[0];
        assert(only == found[0]@);
        let mut lone = found.remove(0);
        lone.push(' ');
        found.push(lone);
        assert(found.deep_view() =~= seq![only.push(' ')]);
    }
    found
}

} // verus!
