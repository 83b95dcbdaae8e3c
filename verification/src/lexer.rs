//! The tokens of definition files: words and punctuation, separated by
//! optional white space.

use vstd::prelude::*;
use vstd::string::*;

verus! {

/// The model of a token.
pub ghost enum TokenModel {
    Word(Seq<char>),
    LeftBrace,
    RightBrace,
    LeftParen,
    RightParen,
    LeftBracket,
    RightBracket,
    Colon,
    Comma,
    Question,
    Semicolon,
    Arrow,
}

/// A token. A word borrows its text from the input.
#[derive(Debug, Clone, Copy)]
pub enum Token<'input> {
    Word(&'input str),
    LeftBrace,
    RightBrace,
    LeftParen,
    RightParen,
    LeftBracket,
    RightBracket,
    Colon,
    Comma,
    Question,
    Semicolon,
    Arrow,
}

impl<'input> View for Token<'input> {
    type V = TokenModel;

    open spec fn view(&self) -> TokenModel {
        match self {
            Token::Word(text) => TokenModel::Word(text@),
            Token::LeftBrace => TokenModel::LeftBrace,
            Token::RightBrace => TokenModel::RightBrace,
            Token::LeftParen => TokenModel::LeftParen,
            Token::RightParen => TokenModel::RightParen,
            Token::LeftBracket => TokenModel::LeftBracket,
            Token::RightBracket => TokenModel::RightBracket,
            Token::Colon => TokenModel::Colon,
            Token::Comma => TokenModel::Comma,
            Token::Question => TokenModel::Question,
            Token::Semicolon => TokenModel::Semicolon,
            Token::Arrow => TokenModel::Arrow,
        }
    }
}

pub open spec fn tokens_view<'input>(tokens: Seq<Token<'input>>) -> Seq<TokenModel> {
    Seq::new(tokens.len(), |i: int| tokens[i]@)
}

/// White space separates tokens and means nothing else.
pub open spec fn is_space(c: char) -> bool {
    c == ' ' || c == '\t' || c == '\n' || c == '\r'
}

/// A word starts with an ASCII letter or an underscore.
pub open spec fn is_word_start(c: char) -> bool {
    ('a' <= c && c <= 'z') || ('A' <= c && c <= 'Z') || c == '_'
}

/// A word goes on with ASCII letters, digits, underscores and hyphens.
pub open spec fn is_word_part(c: char) -> bool {
    is_word_start(c) || ('0' <= c && c <= '9') || c == '-'
}

/// The token that a single character stands for.
pub open spec fn punctuation(c: char) -> Option<TokenModel> {
    if c == '{' {
        Some(TokenModel::LeftBrace)
    } else if c == '}' {
        Some(TokenModel::RightBrace)
    } else if c == '(' {
        Some(TokenModel::LeftParen)
    } else if c == ')' {
        Some(TokenModel::RightParen)
    } else if c == '[' {
        Some(TokenModel::LeftBracket)
    } else if c == ']' {
        Some(TokenModel::RightBracket)
    } else if c == ':' {
        Some(TokenModel::Colon)
    } else if c == ',' {
        Some(TokenModel::Comma)
    } else if c == '?' {
        Some(TokenModel::Question)
    } else if c == ';' {
        Some(TokenModel::Semicolon)
    } else {
        None
    }
}

/// Where the longest run of word characters that starts at `at` ends.
pub open spec fn word_end(text: Seq<char>, at: int) -> int
    decreases text.len() - at,
{
    if 0 <= at < text.len() && is_word_part(text[at]) {
        word_end(text, at + 1)
    } else {
        at
    }
}

/// The tokens of `text` from `at` on, behind those in `before`. A word is
/// the longest run of word characters; `->` is one token; a character that
/// starts no token makes the whole text invalid.
pub open spec fn lex_from(text: Seq<char>, at: int, before: Seq<TokenModel>) -> Option<
    Seq<TokenModel>,
>
    decreases text.len() - at,
{
    if at < 0 {
        None
    } else if at >= text.len() {
        Some(before)
    } else if is_space(text[at]) {
        lex_from(text, at + 1, before)
    } else if is_word_start(text[at]) {
        let end = word_end(text, at + 1);
        if at < end <= text.len() {
            lex_from(text, end, before.push(TokenModel::Word(text.subrange(at, end))))
        } else {
            None
        }
    } else if text[at] == '-' {
        if at + 1 < text.len() && text[at + 1] == '>' {
            lex_from(text, at + 2, before.push(TokenModel::Arrow))
        } else {
            None
        }
    } else {
        match punctuation(text[at]) {
            Some(token) => lex_from(text, at + 1, before.push(token)),
            None => None,
        }
    }
}

/// The tokens of a text, or `None` where a character starts no token.
pub open spec fn lex(text: Seq<char>) -> Option<Seq<TokenModel>> {
    lex_from(text, 0, Seq::empty())
}

fn space(c: char) -> (yes: bool)
    ensures
        yes == is_space(c),
{
    c == ' ' || c == '\t' || c == '\n' || c == '\r'
}

fn word_start(c: char) -> (yes: bool)
    ensures
        yes == is_word_start(c),
{
    ('a' <= c && c <= 'z') || ('A' <= c && c <= 'Z') || c == '_'
}

fn word_part(c: char) -> (yes: bool)
    ensures
        yes == is_word_part(c),
{
    word_start(c) || ('0' <= c && c <= '9') || c == '-'
}

fn punctuation_token<'input>(c: char) -> (token: Option<Token<'input>>)
    ensures
        match token {
            Some(t) => punctuation(c) == Some(t@),
            None => punctuation(c) is None,
        },
{
    if c == '{' {
        Some(Token::LeftBrace)
    } else if c == '}' {
        Some(Token::RightBrace)
    } else if c == '(' {
        Some(Token::LeftParen)
    } else if c == ')' {
        Some(Token::RightParen)
    } else if c == '[' {
        Some(Token::LeftBracket)
    } else if c == ']' {
        Some(Token::RightBracket)
    } else if c == ':' {
        Some(Token::Colon)
    } else if c == ',' {
        Some(Token::Comma)
    } else if c == '?' {
        Some(Token::Question)
    } else if c == ';' {
        Some(Token::Semicolon)
    } else {
        None
    }
}

/// The characters of a string, in order.
pub fn characters(text: &str) -> (chars: Vec<char>)
    ensures
        chars@ == text@,
{
    let length = text.unicode_len();
    let mut chars: Vec<char> = Vec::new();
    let mut i: usize = 0;
    while i < length
        invariant
            i <= length,
            length == text@.len(),
            chars@ == text@.take(i as int),
        decreases length - i,
    {
        chars.push(text.get_char(i));
        assert(text@.take(i + 1) =~= text@.take(i as int).push(text@[i as int]));
        i += 1;
    }
    assert(text@.take(length as int) =~= text@);
    chars
}

/// Splits `input` into tokens. `None` where a character starts no token.
pub fn tokenize<'input>(input: &'input str) -> (tokens: Option<Vec<Token<'input>>>)
    ensures
        match tokens {
            Some(found) => lex(input@) == Some(tokens_view(found@)),
            None => lex(input@) is None,
        },
{
    let chars = characters(input);
    let mut tokens: Vec<Token<'input>> = Vec::new();
    let mut at: usize = 0;
    assert(tokens_view(tokens@) =~= Seq::<TokenModel>::empty());
    while at < chars.len()
        invariant
            at <= chars.len(),
            chars@ == input@,
            lex(input@) == lex_from(input@, at as int, tokens_view(tokens@)),
        decreases chars.len() - at,
    {
        let c = chars[at];
        let ghost before = tokens_view(tokens@);
        if space(c) {
            at += 1;
        } else if word_start(c) {
            let mut end: usize = at + 1;
            while end < chars.len() && word_part(chars[end])
                invariant
                    at < end <= chars.len(),
                    chars@ == input@,
                    word_end(input@, at + 1) == word_end(input@, end as int),
                decreases chars.len() - end,
            {
                end += 1;
            }
            tokens.push(Token::Word(input.substring_char(at, end)));
            assert(tokens_view(tokens@) =~= before.push(
                TokenModel::Word(input@.subrange(at as int, end as int)),
            ));
            at = end;
        } else if c == '-' {
            if at + 1 < chars.len() && chars[at + 1] == '>' {
                tokens.push(Token::Arrow);
                assert(tokens_view(tokens@) =~= before.push(TokenModel::Arrow));
                at += 2;
            } else {
                return None;
            }
        } else {
            match punctuation_token(c) {
                Some(token) => {
                    tokens.push(token);
                    assert(tokens_view(tokens@) =~= before.push(token@));
                    at += 1;
                },
                None => {
                    return None;
                },
            }
        }
    }
    Some(tokens)
}

} // verus!
