//! Lexical analysis: a command line becomes a sequence of tokens.
//!
//! A word is an operator (`|`, `>`, `>>`) or plain text; plain text is a
//! command name at the start of the line and after a pipe, a file name
//! right after a redirect operator, and an argument everywhere else.

use crate::words::{
    is_append_word, is_pipe_word, is_truncate_word, split_words, word_is_append, word_is_pipe,
    word_is_truncate, words_of,
};
use vstd::prelude::*;

verus! {

/// One lexical token of a command line.
#[derive(Debug, PartialEq)]
pub enum Token {
    Command(String),
    Arg(String),
    RedirectOutput,
    AppendOutput,
    Pipe,
    File(String),
}

/// Mathematical image of a `Token`: its text as a character sequence.
#[verifier::ext_equal]
pub enum TokenV {
    Command(Seq<char>),
    Arg(Seq<char>),
    RedirectOutput,
    AppendOutput,
    Pipe,
    File(Seq<char>),
}

impl View for Token {
    type V = TokenV;

    open spec fn view(&self) -> TokenV {
        match self {
            Token::Command(s) => TokenV::Command(s@),
            Token::Arg(s) => TokenV::Arg(s@),
            Token::RedirectOutput => TokenV::RedirectOutput,
            Token::AppendOutput => TokenV::AppendOutput,
            Token::Pipe => TokenV::Pipe,
            Token::File(s) => TokenV::File(s@),
        }
    }
}

impl DeepView for Token {
    type V = TokenV;

    open spec fn deep_view(&self) -> TokenV {
        self.view()
    }
}

/// The token that word `w` becomes when the tokens so far are `acc`.
pub open spec fn classify(acc: Seq<TokenV>, w: Seq<char>) -> TokenV {
    if is_truncate_word(w) {
        TokenV::RedirectOutput
    } else if is_append_word(w) {
        TokenV::AppendOutput
    } else if is_pipe_word(w) {
        TokenV::Pipe
    } else if acc.len() > 0 && (acc.last() is RedirectOutput || acc.last() is AppendOutput) {
        TokenV::File(w)
    } else if acc.len() == 0 || acc.last() is Pipe {
        TokenV::Command(w)
    } else {
        TokenV::Arg(w)
    }
}

/// The tokens of the word sequence `ws`, appended to those already in `acc`.
pub open spec fn lex_words(ws: Seq<Seq<char>>, acc: Seq<TokenV>) -> Seq<TokenV>
    decreases ws.len(),
{
    if ws.len() == 0 {
        acc
    } else {
        lex_words(ws.drop_first(), acc.push(classify(acc, ws[0])))
    }
}

/// The tokens of line `s`.
pub open spec fn lex_spec(s: Seq<char>) -> Seq<TokenV> {
    lex_words(words_of(s), Seq::empty())
}

/// Splits a line into tokens: words become operators, command names,
/// arguments and file names, depending on their position.
pub fn lex(input: &str) -> (tokens: Vec<Token>)
    ensures
        tokens.deep_view() == lex_spec(input@),
{
    let ws = split_words(input);
    let mut tokens: Vec<Token> = Vec::new();
    proof {
        assert(tokens.deep_view() =~= Seq::<TokenV>::empty());
        assert(ws.deep_view().subrange(0, ws.deep_view().len() as int) =~= ws.deep_view());
    }
    let mut j: usize = 0;
    while j < ws.len()
        invariant
            j <= ws.len(),
            ws.deep_view() == words_of(input@),
            ws.deep_view().len() == ws.len(),
            lex_words(
                ws.deep_view().subrange(j as int, ws.deep_view().len() as int),
                tokens.deep_view(),
            ) == lex_spec(input@),
        decreases ws.len() - j,
    {
        let ghost rest = ws.deep_view().subrange(j as int, ws.deep_view().len() as int);
        let ghost acc = tokens.deep_view();
        proof {
            assert(rest[0] == ws.deep_view()[j as int]);
            assert(rest.drop_first() =~= ws.deep_view().subrange(
                j + 1,
                ws.deep_view().len() as int,
            ));
            assert(lex_words(rest, acc) == lex_words(rest.drop_first(), acc.push(classify(acc, rest[0]))));
        }
        let w = &ws[j];
        let t: Token;
        if word_is_truncate(w.as_str()) {
            t = Token::RedirectOutput;
        } else if word_is_append(w.as_str()) {
            t = Token::AppendOutput;
        } else if word_is_pipe(w.as_str()) {
            t = Token::Pipe;
        } else if tokens.len() > 0 {
            let text = w.clone();
            match &tokens[tokens.len() - 1] {
                Token::RedirectOutput => {
                    t = Token::File(text);
                },
                Token::AppendOutput => {
                    t = Token::File(text);
                },
                Token::Pipe => {
                    t = Token::Command(text);
                },
                _ => {
                    t = Token::Arg(text);
                },
            }
            proof {
                assert(acc.last() == tokens@[tokens.len() - 1]@);
            }
        } else {
            t = Token::Command(w.clone());
        }
        proof {
            assert(t@ == classify(acc, rest[0]));
        }
        tokens.push(t);
        proof {
            assert(tokens.deep_view() =~= acc.push(t@));
        }
        j += 1;
    }
    proof {
        assert(ws.deep_view().subrange(j as int, ws.deep_view().len() as int)
            =~= Seq::<Seq<char>>::empty());
    }
    tokens
}

} // verus!
