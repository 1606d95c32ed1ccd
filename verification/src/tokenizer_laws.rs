//! What holds of every tokenization.

use vstd::prelude::*;
use crate::text::is_ascii_whitespace;
use crate::tokenizer::{lex, lexer_start, step, tokens, Lexer, QuoteState};

verus! {

/// The state after reading `rest`, one character at a time, from the state
/// `st`.
pub open spec fn lex_from(st: Lexer, rest: Seq<char>, home: Seq<char>) -> Lexer
    decreases rest.len(),
{
    if rest.len() == 0 {
        st
    } else {
        step(lex_from(st, rest.drop_last(), home), rest.last(), home)
    }
}

/// Reading a line is reading its front, then its back from where the front
/// left off.
pub proof fn lemma_lex_continues(front: Seq<char>, back: Seq<char>, home: Seq<char>)
    ensures
        lex(front + back, home) == lex_from(lex(front, home), back, home),
    decreases back.len(),
{
    if back.len() == 0 {
        assert(front + back =~= front);
    } else {
        lemma_lex_continues(front, back.drop_last(), home);
        assert((front + back).drop_last() =~= front + back.drop_last());
        assert((front + back).last() == back.last());
    }
}

/// A character that means nothing but itself outside quotes: no white
/// space, quote, tilde or backslash.
pub open spec fn is_plain(c: char) -> bool {
    !is_ascii_whitespace(c) && c != '\'' && c != '"' && c != '~' && c != '\\'
}

/// Inside single quotes, characters other than the single quote are added to
/// the word as they are: backslashes, double quotes, tildes and white space
/// too.
pub proof fn lemma_single_quoted_is_literal(st: Lexer, text: Seq<char>, home: Seq<char>)
    requires
        st.quote is SingleQuoted,
        forall|i: int| 0 <= i < text.len() ==> #[trigger] text[i] != '\'',
    ensures
        lex_from(st, text, home) == (Lexer { word: st.word + text, ..st }),
    decreases text.len(),
{
    if text.len() == 0 {
        assert(st.word + text =~= st.word);
    } else {
        let shorter = text.drop_last();
        assert forall|i: int| 0 <= i < shorter.len() implies #[trigger] shorter[i] != '\'' by {
            assert(shorter[i] == text[i]);
        }
        lemma_single_quoted_is_literal(st, shorter, home);
        assert(text[text.len() - 1] != '\'');
        assert((st.word + shorter).push(text.last()) =~= st.word + text);
    }
}

/// Outside quotes, plain characters are added to the word as they are.
pub proof fn lemma_plain_is_literal(st: Lexer, text: Seq<char>, home: Seq<char>)
    requires
        st.quote is Unquoted,
        !st.escaped,
        forall|i: int| 0 <= i < text.len() ==> is_plain(#[trigger] text[i]),
    ensures
        lex_from(st, text, home) == (Lexer { word: st.word + text, ..st }),
    decreases text.len(),
{
    if text.len() == 0 {
        assert(st.word + text =~= st.word);
    } else {
        let shorter = text.drop_last();
        assert forall|i: int| 0 <= i < shorter.len() implies is_plain(#[trigger] shorter[i]) by {
            assert(shorter[i] == text[i]);
        }
        lemma_plain_is_literal(st, shorter, home);
        assert(is_plain(text[text.len() - 1]));
        assert((st.word + shorter).push(text.last()) =~= st.word + text);
    }
}

/// Inside double quotes, characters other than the double quote and the
/// backslash are added to the word as they are.
pub proof fn lemma_double_quoted_is_literal(st: Lexer, text: Seq<char>, home: Seq<char>)
    requires
        st.quote is DoubleQuoted,
        !st.escaped,
        forall|i: int| 0 <= i < text.len() ==> #[trigger] text[i] != '"' && text[i] != '\\',
    ensures
        lex_from(st, text, home) == (Lexer { word: st.word + text, ..st }),
    decreases text.len(),
{
    if text.len() == 0 {
        assert(st.word + text =~= st.word);
    } else {
        let shorter = text.drop_last();
        assert forall|i: int| 0 <= i < shorter.len() implies #[trigger] shorter[i] != '"' && shorter[i]
            != '\\' by {
            assert(shorter[i] == text[i]);
        }
        lemma_double_quoted_is_literal(st, shorter, home);
        assert(text[text.len() - 1] != '"');
        assert((st.word + shorter).push(text.last()) =~= st.word + text);
    }
}

/// Inside double quotes a backslash escapes the double quote and the
/// backslash, and nothing else: before any other character it stays.
pub proof fn lemma_double_quoted_escape(st: Lexer, c: char, home: Seq<char>)
    requires
        st.quote is DoubleQuoted,
        !st.escaped,
    ensures
        lex_from(st, seq!['\\', c], home) == (Lexer {
            word: if c == '"' || c == '\\' {
                st.word.push(c)
            } else {
                st.word.push('\\').push(c)
            },
            ..st
        }),
{
    let pair = seq!['\\', c];
    let first = pair.drop_last();
    assert(first =~= seq!['\\']);
    assert(first.drop_last() =~= Seq::<char>::empty());
    assert(lex_from(st, first.drop_last(), home) == st);
    assert(first.last() == '\\');
    assert(lex_from(st, first, home) == Lexer { escaped: true, ..st });
    assert(pair.last() == c);
}

/// Outside quotes a backslash escapes any character: the character is added
/// to the word as it is.
pub proof fn lemma_unquoted_escape(st: Lexer, c: char, home: Seq<char>)
    requires
        st.quote is Unquoted,
        !st.escaped,
    ensures
        lex_from(st, seq!['\\', c], home) == (Lexer { word: st.word.push(c), ..st }),
{
    let pair = seq!['\\', c];
    let first = pair.drop_last();
    assert(first =~= seq!['\\']);
    assert(first.drop_last() =~= Seq::<char>::empty());
    assert(lex_from(st, first.drop_last(), home) == st);
    assert(first.last() == '\\');
    assert(lex_from(st, first, home) == Lexer { escaped: true, ..st });
    assert(pair.last() == c);
}

/// A line of plain characters is one token, itself.
pub proof fn lemma_plain_word_is_one_token(word: Seq<char>, home: Seq<char>)
    requires
        word.len() > 0,
        forall|i: int| 0 <= i < word.len() ==> is_plain(#[trigger] word[i]),
    ensures
        tokens(word, home) == seq![word],
{
    let none = Seq::<char>::empty();
    lemma_lex_continues(none, word, home);
    assert(none + word =~= word);
    lemma_plain_is_literal(lexer_start(), word, home);
    assert(lexer_start().word + word =~= word);
    assert(lexer_start().done.push(word) =~= seq![word]);
}

/// Single quotes suppress all escaping and splitting: a non-empty stretch
/// without a single quote, put in single quotes, is one token, the stretch
/// as it stands.
pub proof fn lemma_single_quoted_is_one_token(text: Seq<char>, home: Seq<char>)
    requires
        text.len() > 0,
        forall|i: int| 0 <= i < text.len() ==> #[trigger] text[i] != '\'',
    ensures
        tokens(seq!['\''] + text + seq!['\''], home) == seq![text],
{
    let open = seq!['\''];
    let line = open + text + open;
    let none = Seq::<char>::empty();
    assert(open.drop_last() =~= none);
    assert(lex(none, home) == lexer_start());
    assert(open.last() == '\'');
    let opened = lex(open, home);
    assert(opened == Lexer { quote: QuoteState::SingleQuoted, ..lexer_start() });
    lemma_lex_continues(open, text, home);
    lemma_single_quoted_is_literal(opened, text, home);
    let inside = lex(open + text, home);
    assert(inside.word =~= text);
    assert(line.drop_last() =~= open + text);
    assert(line.last() == '\'');
    assert(lex(line, home).done.push(text) =~= seq![text]);
}

/// White space between two plain words makes two tokens of them.
pub proof fn lemma_whitespace_separates(first: Seq<char>, gap: char, second: Seq<char>, home: Seq<char>)
    requires
        first.len() > 0,
        second.len() > 0,
        is_ascii_whitespace(gap),
        forall|i: int| 0 <= i < first.len() ==> is_plain(#[trigger] first[i]),
        forall|i: int| 0 <= i < second.len() ==> is_plain(#[trigger] second[i]),
    ensures
        tokens(first.push(gap) + second, home) == seq![first, second],
{
    let none = Seq::<char>::empty();
    lemma_lex_continues(none, first, home);
    assert(none + first =~= first);
    lemma_plain_is_literal(lexer_start(), first, home);
    assert(lexer_start().word + first =~= first);
    let after_first = lex(first, home);
    assert(first.push(gap).drop_last() =~= first);
    let after_gap = lex(first.push(gap), home);
    assert(after_gap == Lexer { done: after_first.done.push(first), word: none, ..after_first });
    lemma_lex_continues(first.push(gap), second, home);
    lemma_plain_is_literal(after_gap, second, home);
    assert(none + second =~= second);
    assert(after_first.done.push(first).push(second) =~= seq![first, second]);
}

/// Outside quotes, a tilde that is not escaped becomes the home directory,
/// in the middle of a word too.
pub proof fn lemma_tilde_is_home(before: Seq<char>, after: Seq<char>, home: Seq<char>)
    requires
        before.len() + home.len() + after.len() > 0,
        forall|i: int| 0 <= i < before.len() ==> is_plain(#[trigger] before[i]),
        forall|i: int| 0 <= i < after.len() ==> is_plain(#[trigger] after[i]),
    ensures
        tokens(before.push('~') + after, home) == seq![before + home + after],
{
    let none = Seq::<char>::empty();
    lemma_lex_continues(none, before, home);
    assert(none + before =~= before);
    lemma_plain_is_literal(lexer_start(), before, home);
    assert(lexer_start().word + before =~= before);
    assert(before.push('~').drop_last() =~= before);
    let at_tilde = lex(before.push('~'), home);
    assert(at_tilde == Lexer { word: before + home, ..lexer_start() });
    lemma_lex_continues(before.push('~'), after, home);
    lemma_plain_is_literal(at_tilde, after, home);
    assert(Seq::<Seq<char>>::empty().push(before + home + after) =~= seq![before + home + after]);
}

} // verus!
