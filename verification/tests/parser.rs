use minishell::commands::Command;
use minishell::parser::{
    check_tokens, extract_redirects, join_path, parse_command, parse_input, parse_pipe,
    parse_redirect, try_parse_input, Environment, Operator, ParseError, RedirectType,
};

fn words(items: &[&str]) -> Vec<String> {
    items.iter().map(|s| s.to_string()).collect()
}

fn env() -> Environment {
    Environment {
        home: "/home/u".to_string(),
        search_path: words(&["/usr/local/bin", "/usr/bin", "/bin"]),
        files: words(&["/usr/bin/ls", "/bin/ls", "/bin/cat", "/usr/bin/wc", "/usr/bin/printf"]),
    }
}

fn program(path: &str, args: &[&str]) -> Command {
    Command::Executable(path.to_string(), words(args))
}

fn invalid(name: &str) -> Command {
    Command::InvalidCommand(name.to_string())
}

fn pipe(left: Command, right: Command) -> Command {
    Command::Pipe(Box::new(left), Box::new(right))
}

#[test]
fn empty_line_is_no_command() {
    assert_eq!(parse_input("", &env()), None);
    assert_eq!(parse_input("   \t ", &env()), None);
    assert_eq!(try_parse_input("", &env()), Ok(None));
}

#[test]
fn builtins_resolve_by_name() {
    assert_eq!(parse_input("exit", &env()), Some(Command::Exit));
    assert_eq!(parse_input("exit 3", &env()), Some(Command::Exit));
    assert_eq!(parse_input("echo a  b", &env()), Some(Command::Echo(words(&["a", "b"]))));
    assert_eq!(parse_input("echo", &env()), Some(Command::Echo(words(&[]))));
    assert_eq!(parse_input("pwd", &env()), Some(Command::PWD));
    assert_eq!(parse_input("pwd x", &env()), Some(Command::PWD));
    assert_eq!(parse_input("cd", &env()), Some(Command::CD(words(&[]))));
    assert_eq!(parse_input("cd /tmp", &env()), Some(Command::CD(words(&["/tmp"]))));
    assert_eq!(parse_input("cd a b", &env()), Some(Command::CD(words(&["a", "b"]))));
}

#[test]
fn names_match_exactly() {
    assert_eq!(parse_input("Echo a", &env()), Some(invalid("Echo")));
    assert_eq!(parse_input("ech", &env()), Some(invalid("ech")));
    assert_eq!(parse_input("l", &env()), Some(invalid("l")));
    assert_eq!(parse_input("ls.exe", &env()), Some(invalid("ls.exe")));
    assert_eq!(parse_input("LS", &env()), Some(invalid("LS")));
}

#[test]
fn first_directory_on_the_search_path_wins() {
    assert_eq!(parse_input("ls -l /", &env()), Some(program("/usr/bin/ls", &["-l", "/"])));
    assert_eq!(parse_input("cat", &env()), Some(program("/bin/cat", &[])));
    let mut reversed = env();
    reversed.search_path.reverse();
    assert_eq!(parse_input("ls", &reversed), Some(program("/bin/ls", &[])));
}

#[test]
fn unknown_name_is_an_invalid_command() {
    assert_eq!(parse_input("nonexistentcmd123 a", &env()), Some(invalid("nonexistentcmd123")));
    let mut bare = env();
    bare.search_path = words(&[]);
    assert_eq!(parse_input("ls", &bare), Some(invalid("ls")));
}

#[test]
fn paths_are_joined_with_one_separator() {
    assert_eq!(join_path("/usr/bin", "ls"), "/usr/bin/ls");
    assert_eq!(join_path("/usr/bin/", "ls"), "/usr/bin/ls");
    assert_eq!(join_path("", "ls"), "ls");
    assert_eq!(join_path("/", "ls"), "/ls");
    assert_eq!(join_path("/usr/bin", "/bin/cat"), "/bin/cat");
    assert_eq!(join_path("bin", "sub/tool"), "bin/sub/tool");
    assert_eq!(join_path("/usr/bin", ""), "/usr/bin/");
}

#[test]
fn joined_paths_agree_with_std() {
    for dir in ["/usr/bin", "/usr/bin/", "", "/", "rel", "a/b/"] {
        for name in ["ls", "/bin/cat", "sub/tool", "x"] {
            let expected = std::path::Path::new(dir).join(name);
            assert_eq!(join_path(dir, name), expected.to_str().unwrap());
        }
    }
}

#[test]
fn absolute_name_is_looked_up_as_it_is() {
    assert_eq!(parse_input("/bin/cat x", &env()), Some(program("/bin/cat", &["x"])));
    assert_eq!(parse_input("/bin/nothing", &env()), Some(invalid("/bin/nothing")));
}

#[test]
fn type_resolves_each_target_alone() {
    let parsed = parse_input("type echo exit type pwd cd ls nonexistentcmd123", &env());
    assert_eq!(
        parsed,
        Some(Command::Type(vec![
            Command::Echo(words(&[])),
            Command::Exit,
            Command::Type(vec![]),
            Command::PWD,
            Command::CD(words(&[])),
            program("/usr/bin/ls", &[]),
            invalid("nonexistentcmd123"),
        ]))
    );
    assert_eq!(parse_input("type", &env()), Some(Command::Type(vec![])));
}

#[test]
fn line_without_operators_has_no_pipe_or_redirect() {
    for line in ["ls -l", "echo a b c", "type ls echo", "cd", "nope 'a | b' \"> c\""] {
        let parsed = parse_input(line, &env()).unwrap();
        assert!(!matches!(parsed, Command::Pipe(..) | Command::Redirect(..)));
        if let Command::Type(targets) = &parsed {
            for target in targets {
                assert!(!matches!(target, Command::Pipe(..) | Command::Redirect(..)));
            }
        }
        let tokens = minishell::tokenizer::transform_input(line, "/home/u");
        assert_eq!(Some(parsed), parse_command(&tokens, &env()));
    }
}

#[test]
fn quoted_operators_are_words() {
    assert_eq!(parse_input("echo 'a' '|' b", &env()), Some(pipe(Command::Echo(words(&["a"])), invalid("b"))));
    assert_eq!(parse_input("echo a\\|b", &env()), Some(Command::Echo(words(&["a|b"]))));
}

#[test]
fn pipes_nest_to_the_left() {
    assert_eq!(
        parse_input("a | b | c", &env()),
        Some(pipe(pipe(invalid("a"), invalid("b")), invalid("c")))
    );
    assert_eq!(
        parse_input("ls | cat | wc -c | echo", &env()),
        Some(pipe(
            pipe(pipe(program("/usr/bin/ls", &[]), program("/bin/cat", &[])), program("/usr/bin/wc", &["-c"])),
            Command::Echo(words(&[]))
        ))
    );
}

#[test]
fn two_stages_make_one_pipe() {
    assert_eq!(
        parse_input("printf '%s' hello | wc -c", &env()),
        Some(pipe(program("/usr/bin/printf", &["%s", "hello"]), program("/usr/bin/wc", &["-c"])))
    );
}

#[test]
fn redirects_bind_both_streams() {
    assert_eq!(
        parse_input("cmd > out.txt 2> err.txt", &env()),
        Some(Command::Redirect(
            RedirectType::Truncate("out.txt".to_string()),
            RedirectType::Truncate("err.txt".to_string()),
            Box::new(invalid("cmd"))
        ))
    );
    assert_eq!(
        parse_input("cmd >> out.txt", &env()),
        Some(Command::Redirect(
            RedirectType::Append("out.txt".to_string()),
            RedirectType::Unset,
            Box::new(invalid("cmd"))
        ))
    );
}

#[test]
fn every_operator_spelling() {
    let cases = [
        (">", RedirectType::Truncate("f".to_string()), RedirectType::Unset),
        ("1>", RedirectType::Truncate("f".to_string()), RedirectType::Unset),
        (">>", RedirectType::Append("f".to_string()), RedirectType::Unset),
        ("1>>", RedirectType::Append("f".to_string()), RedirectType::Unset),
        ("2>", RedirectType::Unset, RedirectType::Truncate("f".to_string())),
        ("2>>", RedirectType::Unset, RedirectType::Append("f".to_string())),
    ];
    for (op, out, err) in cases {
        let line = format!("echo a {} f b", op);
        assert_eq!(
            parse_input(&line, &env()),
            Some(Command::Redirect(out, err, Box::new(Command::Echo(words(&["a", "b"])))))
        );
    }
    assert_eq!(parse_input("echo 3> f", &env()), Some(Command::Echo(words(&["3>", "f"]))));
    assert_eq!(parse_input("echo a>f", &env()), Some(Command::Echo(words(&["a>f"]))));
}

#[test]
fn last_redirect_of_a_stream_wins() {
    assert_eq!(
        parse_input("cmd > a.txt > b.txt", &env()),
        Some(Command::Redirect(
            RedirectType::Truncate("b.txt".to_string()),
            RedirectType::Unset,
            Box::new(invalid("cmd"))
        ))
    );
    assert_eq!(
        parse_input("cmd >> a.txt 2> e1 1> b.txt 2>> e2", &env()),
        Some(Command::Redirect(
            RedirectType::Truncate("b.txt".to_string()),
            RedirectType::Append("e2".to_string()),
            Box::new(invalid("cmd"))
        ))
    );
}

#[test]
fn redirect_is_the_root_of_a_pipeline() {
    assert_eq!(
        parse_input("ls > out.txt | cat", &env()),
        Some(Command::Redirect(
            RedirectType::Truncate("out.txt".to_string()),
            RedirectType::Unset,
            Box::new(pipe(program("/usr/bin/ls", &[]), program("/bin/cat", &[])))
        ))
    );
    assert_eq!(
        parse_input("ls | cat 2>> log", &env()),
        Some(Command::Redirect(
            RedirectType::Unset,
            RedirectType::Append("log".to_string()),
            Box::new(pipe(program("/usr/bin/ls", &[]), program("/bin/cat", &[])))
        ))
    );
}

#[test]
fn token_after_an_operator_is_its_target() {
    assert_eq!(
        parse_input("echo a > | b", &env()),
        Some(Command::Redirect(
            RedirectType::Truncate("|".to_string()),
            RedirectType::Unset,
            Box::new(Command::Echo(words(&["a", "b"])))
        ))
    );
    assert_eq!(
        parse_input("echo > > a", &env()),
        Some(Command::Redirect(
            RedirectType::Truncate(">".to_string()),
            RedirectType::Unset,
            Box::new(Command::Echo(words(&["a"])))
        ))
    );
}

#[test]
fn extractor_strips_operators_and_targets() {
    let found = extract_redirects(&words(&["a", ">", "x", "b", "2>>", "y", "c"]));
    assert_eq!(found.kept, words(&["a", "b", "c"]));
    assert_eq!(found.out, RedirectType::Truncate("x".to_string()));
    assert_eq!(found.err, RedirectType::Append("y".to_string()));
    assert_eq!(found.pending, None);
    let open = extract_redirects(&words(&["a", "1>>"]));
    assert_eq!(open.kept, words(&["a"]));
    assert_eq!(open.out, RedirectType::Unset);
    assert_eq!(open.pending, Some(Operator::OutAppend));
}

#[test]
fn parse_redirect_leaves_the_stripped_tokens() {
    let mut tokens = words(&["echo", "a", ">", "f", "b"]);
    let parsed = parse_redirect(&mut tokens, &env());
    assert_eq!(tokens, words(&["echo", "a", "b"]));
    assert_eq!(
        parsed,
        Some(Command::Redirect(
            RedirectType::Truncate("f".to_string()),
            RedirectType::Unset,
            Box::new(Command::Echo(words(&["a", "b"])))
        ))
    );
    let mut plain = words(&["echo", "a"]);
    assert_eq!(parse_redirect(&mut plain, &env()), Some(Command::Echo(words(&["a"]))));
    assert_eq!(plain, words(&["echo", "a"]));
}

#[test]
fn parse_pipe_splits_at_the_rightmost_separator() {
    let tokens = words(&["a", "x", "|", "b", "|", "c", "y"]);
    assert_eq!(
        parse_pipe(&tokens, &env()),
        Some(pipe(pipe(invalid("a"), invalid("b")), invalid("c")))
    );
    assert_eq!(parse_pipe(&words(&[]), &env()), None);
    assert_eq!(parse_command(&words(&[]), &env()), None);
    assert_eq!(parse_command(&words(&["echo", "|", "x"]), &env()), Some(Command::Echo(words(&["|", "x"]))));
}

#[test]
fn is_some_tells_a_bound_stream() {
    assert!(!RedirectType::Unset.is_some());
    assert!(RedirectType::Truncate("a".to_string()).is_some());
    assert!(RedirectType::Append("a".to_string()).is_some());
}

#[test]
fn operator_without_target_is_an_error() {
    assert_eq!(try_parse_input("echo a >", &env()), Err(ParseError::MissingRedirectTarget));
    assert_eq!(try_parse_input("echo a 2>>", &env()), Err(ParseError::MissingRedirectTarget));
    assert_eq!(try_parse_input(">", &env()), Err(ParseError::MissingRedirectTarget));
    assert_eq!(check_tokens(&words(&["a", "|", ">"])), Some(ParseError::MissingRedirectTarget));
}

#[test]
fn pipe_without_a_stage_is_an_error() {
    for line in ["| a", "a |", "a | | b", "|", "a | b |", "| a | b", "a | > f"] {
        assert_eq!(try_parse_input(line, &env()), Err(ParseError::MissingCommand));
    }
}

#[test]
fn redirect_without_a_command_is_an_error() {
    assert_eq!(try_parse_input("> f", &env()), Err(ParseError::MissingCommand));
    assert_eq!(try_parse_input("2>> f > g", &env()), Err(ParseError::MissingCommand));
}

#[test]
fn checked_parse_agrees_with_the_plain_one() {
    for line in ["ls", "a | b | c", "cmd > out.txt 2> err.txt", "type ls x", "", "echo ~ '~'"] {
        assert_eq!(try_parse_input(line, &env()), Ok(parse_input(line, &env())));
        let tokens = minishell::tokenizer::transform_input(line, "/home/u");
        assert_eq!(check_tokens(&tokens), None);
    }
}

#[test]
fn parsing_twice_gives_the_same_tree() {
    for line in ["ls -l | cat > out 2>> err", "type echo ls nope", "cd ~", "a | b | c | d", ""] {
        let first = parse_input(line, &env());
        let second = parse_input(line, &env());
        assert_eq!(first, second);
        assert_eq!(format!("{:?}", first), format!("{:?}", second));
    }
}

#[test]
fn home_comes_from_the_environment() {
    assert_eq!(parse_input("cd ~/x", &env()), Some(Command::CD(words(&["/home/u/x"]))));
    let mut other = env();
    other.home = "/root".to_string();
    assert_eq!(parse_input("echo ~", &other), Some(Command::Echo(words(&["/root"]))));
}

#[test]
fn is_file_knows_the_listed_paths_only() {
    assert!(env().is_file("/bin/cat"));
    assert!(!env().is_file("/bin/ca"));
    assert!(!env().is_file("/bin/cat "));
    assert_eq!(env().find_executable("wc"), Some("/usr/bin/wc".to_string()));
    assert_eq!(env().find_executable("zz"), None);
}
