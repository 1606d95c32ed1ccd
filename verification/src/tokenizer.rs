//! The tokenizer: a raw line becomes an ordered sequence of non-empty words,
//! under shell-style quoting and escaping.

use vstd::prelude::*;
use vstd::string::StringExecFns;
use crate::text::{ascii_whitespace, is_ascii_whitespace, trim, trimmed};

verus! {

/// Which quotes the tokenizer is inside of.
#[derive(Clone, Copy, Debug, PartialEq, Eq)]
pub enum QuoteState {
    Unquoted,
    SingleQuoted,
    DoubleQuoted,
}

/// The tokenizer's state after some prefix of the line.
pub struct Lexer {
    /// The words completed so far.
    pub done: Seq<Seq<char>>,
    /// The word under construction.
    pub word: Seq<char>,
    pub quote: QuoteState,
    /// Whether the previous character was an escaping backslash.
    pub escaped: bool,
}

pub open spec fn lexer_start() -> Lexer {
    Lexer { done: Seq::empty(), word: Seq::empty(), quote: QuoteState::Unquoted, escaped: false }
}

/// Outside quotes: an escaped character is taken literally, white space ends
/// the word, quotes open, `~` becomes the home directory, `\` escapes.
pub open spec fn step_unquoted(st: Lexer, c: char, home: Seq<char>) -> Lexer {
    if st.escaped {
        Lexer { word: st.word.push(c), escaped: false, ..st }
    } else if is_ascii_whitespace(c) {
        if st.word.len() > 0 {
            Lexer { done: st.done.push(st.word), word: Seq::empty(), ..st }
        } else {
            st
        }
    } else if c == '\'' {
        Lexer { quote: QuoteState::SingleQuoted, ..st }
    } else if c == '"' {
        Lexer { quote: QuoteState::DoubleQuoted, ..st }
    } else if c == '~' {
        Lexer { word: st.word + home, ..st }
    } else if c == '\\' {
        Lexer { escaped: true, ..st }
    } else {
        Lexer { word: st.word.push(c), ..st }
    }
}

/// Inside single quotes every character but the closing quote is literal.
pub open spec fn step_single(st: Lexer, c: char) -> Lexer {
    if c == '\'' {
        Lexer { quote: QuoteState::Unquoted, ..st }
    } else {
        Lexer { word: st.word.push(c), ..st }
    }
}

/// Inside double quotes a backslash escapes only `"` and `\`; before any
/// other character it stays in the word.
pub open spec fn step_double(st: Lexer, c: char) -> Lexer {
    if st.escaped {
        if c == '"' || c == '\\' {
            Lexer { word: st.word.push(c), escaped: false, ..st }
        } else {
            Lexer { word: st.word.push('\\').push(c), escaped: false, ..st }
        }
    } else if c == '"' {
        Lexer { quote: QuoteState::Unquoted, ..st }
    } else if c == '\\' {
        Lexer { escaped: true, ..st }
    } else {
        Lexer { word: st.word.push(c), ..st }
    }
}

pub open spec fn step(st: Lexer, c: char, home: Seq<char>) -> Lexer {
    match st.quote {
        QuoteState::Unquoted => step_unquoted(st, c, home),
        QuoteState::SingleQuoted => step_single(st, c),
        QuoteState::DoubleQuoted => step_double(st, c),
    }
}

/// The state after reading all of `line`, one character at a time.
pub open spec fn lex(line: Seq<char>, home: Seq<char>) -> Lexer
    decreases line.len(),
{
    if line.len() == 0 {
        lexer_start()
    } else {
        step(lex(line.drop_last(), home), line.last(), home)
    }
}

/// The words of `line`: those completed, then the pending one if it is not
/// empty. An open quote or a trailing backslash at the end is let pass.
pub open spec fn tokens(line: Seq<char>, home: Seq<char>) -> Seq<Seq<char>> {
    let st = lex(line, home);
    if st.word.len() > 0 {
        st.done.push(st.word)
    } else {
        st.done
    }
}

/// No completed word of the tokenizer is empty.
pub proof fn lemma_lex_words_nonempty(line: Seq<char>, home: Seq<char>)
    ensures
        forall|i: int| 0 <= i < lex(line, home).done.len() ==> (#[trigger] lex(line, home).done[i]).len() > 0,
    decreases line.len(),
{
    if line.len() > 0 {
        lemma_lex_words_nonempty(line.drop_last(), home);
    }
}

/// Every token is a non-empty word.
pub proof fn lemma_tokens_nonempty(line: Seq<char>, home: Seq<char>)
    ensures
        forall|i: int| 0 <= i < tokens(line, home).len() ==> (#[trigger] tokens(line, home)[i]).len() > 0,
{
    lemma_lex_words_nonempty(line, home);
}

/// Splits `line` into words. `home` stands in for every unquoted, unescaped `~`.
pub fn tokenize(line: &str, home: &str) -> (out: Vec<String>)
    ensures
        out.deep_view() == tokens(line@, home@),
        forall|i: int| 0 <= i < out.len() ==> (#[trigger] out[i])@.len() > 0,
{
    let mut output: Vec<String> = Vec::new();
    let mut current = String::new();
    let mut quote = QuoteState::Unquoted;
    let mut escaped = false;
    assert(line@.subrange(0, 0) =~= Seq::<char>::empty());
    assert(output.deep_view() =~= Seq::<Seq<char>>::empty());
    for c in it: line.chars()
        invariant
            it.seq() == line@,
            lex(line@.subrange(0, it.index() as int), home@) == (Lexer {
                done: output.deep_view(),
                word: current@,
                quote,
                escaped,
            }),
    {
        let ghost before = line@.subrange(0, it.index() as int);
        let ghost after = line@.subrange(0, it.index() + 1);
        let ghost old_done = output.deep_view();
        proof {
            assert(after.drop_last() =~= before);
            assert(after.last() == c);
        }
        match quote {
            QuoteState::Unquoted => {
                if escaped {
                    current.push(c);
                    escaped = false;
                } else if ascii_whitespace(c) {
                    if !current.as_str().is_empty() {
                        output.push(current);
                        current = String::new();
                        assert(output.deep_view() =~= old_done.push(lex(before, home@).word));
                    }
                } else if c == '\'' {
                    quote = QuoteState::SingleQuoted;
                } else if c == '"' {
                    quote = QuoteState::DoubleQuoted;
                } else if c == '~' {
                    current.append(home);
                } else if c == '\\' {
                    escaped = true;
                } else {
                    current.push(c);
                }
            },
            QuoteState::SingleQuoted => {
                if c == '\'' {
                    quote = QuoteState::Unquoted;
                } else {
                    current.push(c);
                }
            },
            QuoteState::DoubleQuoted => {
                if escaped {
                    if !(c == '"' || c == '\\') {
                        current.push('\\');
                    }
                    current.push(c);
                    escaped = false;
                } else if c == '"' {
                    quote = QuoteState::Unquoted;
                } else if c == '\\' {
                    escaped = true;
                } else {
                    current.push(c);
                }
            },
        }
    }
    proof {
        assert(line@.subrange(0, line@.len() as int) =~= line@);
        lemma_tokens_nonempty(line@, home@);
    }
    let ghost old_done = output.deep_view();
    if !current.as_str().is_empty() {
        output.push(current);
        assert(output.deep_view() =~= old_done.push(lex(line@, home@).word));
    }
    assert forall|i: int| 0 <= i < output.len() implies (#[trigger] output[i])@.len() > 0 by {
        assert(output.deep_view()[i] == output[i]@);
        assert(tokens(line@, home@)[i].len() > 0);
    }
    output
}

/// Tokenizes a raw input line: the line is trimmed of surrounding white
/// space, then split into words.
pub fn transform_input(input: &str, home: &str) -> (out: Vec<String>)
    ensures
        out.deep_view() == tokens(trimmed(input@), home@),
        forall|i: int| 0 <= i < out.len() ==> (#[trigger] out[i])@.len() > 0,
{
    tokenize(trim(input), home)
}

} // verus!
