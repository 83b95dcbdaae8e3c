//! The grammar of event definition files.
//!
//! ```text
//! file       := metadata? definition*
//! metadata   := "metadata" "{" fields "}"
//! definition := ("struct" | "message") Ident "{" fields "}"
//! fields     := (field ("," field)* ","?)?
//! field      := Ident ":" Ident
//! ```
//!
//! An identifier is a word that is no keyword.

use vstd::prelude::*;
use vstd::string::*;
use crate::event_compiler::parsing::{
    DefinitionModel, DefinitionRaw, FieldModel, FieldRaw, FileModel, FileRaw, IdentifierRaw,
    MetadataRaw, definitions_view, fields_view, metadata_option_view,
};
use crate::lexer::{Token, TokenModel, lex, tokenize, tokens_view};
use crate::text::str_eq;

verus! {

/// The words that the grammar reserves.
pub open spec fn is_keyword(word: Seq<char>) -> bool {
    word == "struct"@ || word == "message"@ || word == "metadata"@
}

/// Whether the token at `at` is `token`.
pub open spec fn is_token(tokens: Seq<TokenModel>, at: int, token: TokenModel) -> bool {
    0 <= at < tokens.len() && tokens[at] == token
}

/// Whether the token at `at` is the word `word`.
pub open spec fn is_word(tokens: Seq<TokenModel>, at: int, word: Seq<char>) -> bool {
    is_token(tokens, at, TokenModel::Word(word))
}

/// The identifier at `at`: a word that is no keyword.
pub open spec fn identifier_at(tokens: Seq<TokenModel>, at: int) -> Option<Seq<char>> {
    if 0 <= at < tokens.len() {
        match tokens[at] {
            TokenModel::Word(word) => if is_keyword(word) {
                None
            } else {
                Some(word)
            },
            _ => None,
        }
    } else {
        None
    }
}

/// `field := Ident ":" Ident`.
pub open spec fn parse_field(tokens: Seq<TokenModel>, at: int) -> Option<(FieldModel, int)> {
    match identifier_at(tokens, at) {
        None => None,
        Some(name) => if is_token(tokens, at + 1, TokenModel::Colon) {
            match identifier_at(tokens, at + 2) {
                Some(field_type) => Some((FieldModel { name, field_type }, at + 3)),
                None => None,
            }
        } else {
            None
        },
    }
}

/// `fields "}"`, behind the fields in `before`: fields separated by commas,
/// the last one optionally followed by a comma, up to the closing brace.
pub open spec fn parse_fields(tokens: Seq<TokenModel>, at: int, before: Seq<FieldModel>) -> Option<
    (Seq<FieldModel>, int),
>
    decreases tokens.len() - at,
{
    if is_token(tokens, at, TokenModel::RightBrace) {
        Some((before, at + 1))
    } else {
        match parse_field(tokens, at) {
            None => None,
            Some((field, next)) => if is_token(tokens, next, TokenModel::Comma) && at <= next {
                parse_fields(tokens, next + 1, before.push(field))
            } else if is_token(tokens, next, TokenModel::RightBrace) {
                Some((before.push(field), next + 1))
            } else {
                None
            },
        }
    }
}

/// `"{" fields "}"`.
pub open spec fn parse_fields_block(tokens: Seq<TokenModel>, at: int) -> Option<
    (Seq<FieldModel>, int),
> {
    if is_token(tokens, at, TokenModel::LeftBrace) {
        parse_fields(tokens, at + 1, Seq::empty())
    } else {
        None
    }
}

/// `Ident "{" fields "}"`: a definition behind its keyword.
pub open spec fn parse_definition(tokens: Seq<TokenModel>, at: int, is_message: bool) -> Option<
    (DefinitionModel, int),
> {
    match identifier_at(tokens, at) {
        None => None,
        Some(name) => match parse_fields_block(tokens, at + 1) {
            Some((fields, next)) => Some((DefinitionModel { is_message, name, fields }, next)),
            None => None,
        },
    }
}

/// `definition*` up to the end of the tokens, behind the definitions in
/// `before`.
pub open spec fn parse_definitions(
    tokens: Seq<TokenModel>,
    at: int,
    before: Seq<DefinitionModel>,
) -> Option<Seq<DefinitionModel>>
    decreases tokens.len() - at,
{
    if at < 0 {
        None
    } else if at >= tokens.len() {
        Some(before)
    } else if is_word(tokens, at, "struct"@) || is_word(tokens, at, "message"@) {
        match parse_definition(tokens, at + 1, is_word(tokens, at, "message"@)) {
            Some((definition, next)) => if at < next <= tokens.len() {
                parse_definitions(tokens, next, before.push(definition))
            } else {
                None
            },
            None => None,
        }
    } else {
        None
    }
}

/// `file := metadata? definition*`.
pub open spec fn parse_file(tokens: Seq<TokenModel>) -> Option<FileModel> {
    if is_word(tokens, 0, "metadata"@) {
        match parse_fields_block(tokens, 1) {
            Some((fields, next)) => match parse_definitions(tokens, next, Seq::empty()) {
                Some(definitions) => Some(FileModel { metadata: Some(fields), definitions }),
                None => None,
            },
            None => None,
        }
    } else {
        match parse_definitions(tokens, 0, Seq::empty()) {
            Some(definitions) => Some(FileModel { metadata: None, definitions }),
            None => None,
        }
    }
}

/// The file that a text denotes, if it is one.
pub open spec fn parse_text(text: Seq<char>) -> Option<FileModel> {
    match lex(text) {
        Some(tokens) => parse_file(tokens),
        None => None,
    }
}

/// Why a text is no file.
#[derive(Debug, Clone, Copy, PartialEq, Eq)]
pub enum ParseError {
    /// A character of the text starts no token.
    InvalidToken,
    /// The tokens of the text do not follow the grammar.
    UnrecognizedSyntax,
}

fn colon_at(tokens: &Vec<Token>, at: usize) -> (yes: bool)
    ensures
        yes == is_token(tokens_view(tokens@), at as int, TokenModel::Colon),
{
    if at >= tokens.len() {
        return false;
    }
    match tokens[at] {
        Token::Colon => true,
        _ => false,
    }
}

fn comma_at(tokens: &Vec<Token>, at: usize) -> (yes: bool)
    ensures
        yes == is_token(tokens_view(tokens@), at as int, TokenModel::Comma),
{
    if at >= tokens.len() {
        return false;
    }
    match tokens[at] {
        Token::Comma => true,
        _ => false,
    }
}

fn left_brace_at(tokens: &Vec<Token>, at: usize) -> (yes: bool)
    ensures
        yes == is_token(tokens_view(tokens@), at as int, TokenModel::LeftBrace),
{
    if at >= tokens.len() {
        return false;
    }
    match tokens[at] {
        Token::LeftBrace => true,
        _ => false,
    }
}

fn right_brace_at(tokens: &Vec<Token>, at: usize) -> (yes: bool)
    ensures
        yes == is_token(tokens_view(tokens@), at as int, TokenModel::RightBrace),
{
    if at >= tokens.len() {
        return false;
    }
    match tokens[at] {
        Token::RightBrace => true,
        _ => false,
    }
}

fn word_at(tokens: &Vec<Token>, at: usize, word: &str) -> (yes: bool)
    ensures
        yes == is_word(tokens_view(tokens@), at as int, word@),
{
    if at >= tokens.len() {
        return false;
    }
    match tokens[at] {
        Token::Word(text) => str_eq(text, word),
        _ => false,
    }
}

fn identifier<'input>(tokens: &Vec<Token<'input>>, at: usize) -> (found: Option<&'input str>)
    ensures
        match found {
            Some(word) => at < tokens.len() && identifier_at(tokens_view(tokens@), at as int)
                == Some(word@),
            None => identifier_at(tokens_view(tokens@), at as int) is None,
        },
{
    if at >= tokens.len() {
        return None;
    }
    match tokens[at] {
        Token::Word(text) => if str_eq(text, "struct") || str_eq(text, "message") || str_eq(
            text,
            "metadata",
        ) {
            None
        } else {
            Some(text)
        },
        _ => None,
    }
}

fn field_at<'input>(tokens: &Vec<Token<'input>>, at: usize) -> (parsed: Option<
    (FieldRaw<'input>, usize),
>)
    requires
        at <= tokens.len(),
    ensures
        match parsed {
            Some((field, next)) => at < next <= tokens.len() && parse_field(
                tokens_view(tokens@),
                at as int,
            ) == Some((field@, next as int)),
            None => parse_field(tokens_view(tokens@), at as int) is None,
        },
{
    let name = match identifier(tokens, at) {
        Some(name) => name,
        None => {
            return None;
        },
    };
    if !colon_at(tokens, at + 1) {
        return None;
    }
    match identifier(tokens, at + 2) {
        Some(field_type) => Some((FieldRaw(IdentifierRaw(name), IdentifierRaw(field_type)), at + 3)),
        None => None,
    }
}

fn fields_block_at<'input>(tokens: &Vec<Token<'input>>, at: usize) -> (parsed: Option<
    (Vec<FieldRaw<'input>>, usize),
>)
    requires
        at <= tokens.len(),
    ensures
        match parsed {
            Some((fields, next)) => at < next <= tokens.len() && parse_fields_block(
                tokens_view(tokens@),
                at as int,
            ) == Some((fields_view(fields@), next as int)),
            None => parse_fields_block(tokens_view(tokens@), at as int) is None,
        },
{
    if !left_brace_at(tokens, at) {
        return None;
    }
    let ghost models = tokens_view(tokens@);
    let ghost wanted = parse_fields_block(models, at as int);
    let mut fields: Vec<FieldRaw<'input>> = Vec::new();
    let mut cursor: usize = at + 1;
    assert(fields_view(fields@) =~= Seq::<FieldModel>::empty());
    loop
        invariant
            at < cursor <= tokens.len(),
            models == tokens_view(tokens@),
            wanted == parse_fields_block(models, at as int),
            wanted == parse_fields(models, cursor as int, fields_view(fields@)),
        decreases tokens.len() - cursor,
    {
        if right_brace_at(tokens, cursor) {
            return Some((fields, cursor + 1));
        }
        let (field, next) = match field_at(tokens, cursor) {
            Some(found) => found,
            None => {
                return None;
            },
        };
        let ghost before = fields_view(fields@);
        let ghost model = field@;
        fields.push(field);
        assert(fields_view(fields@) =~= before.push(model));
        if comma_at(tokens, next) {
            cursor = next + 1;
        } else if right_brace_at(tokens, next) {
            return Some((fields, next + 1));
        } else {
            return None;
        }
    }
}

/// The parser of event definition files.
pub struct RFileParser {}

impl RFileParser {
    pub fn new() -> Self {
        RFileParser {  }
    }

    /// Parses a text. The file comes back where the text has tokens that
    /// follow the grammar, and only then.
    pub fn parse<'input>(&self, input: &'input str) -> (parsed: Result<FileRaw<'input>, ParseError>)
        ensures
            match parsed {
                Ok(file) => parse_text(input@) == Some(file@),
                Err(ParseError::InvalidToken) => lex(input@) is None,
                Err(ParseError::UnrecognizedSyntax) => lex(input@) is Some && parse_file(
                    lex(input@).unwrap(),
                ) is None,
            },
    {
        let tokens = match tokenize(input) {
            Some(tokens) => tokens,
            None => {
                return Err(ParseError::InvalidToken);
            },
        };
        let ghost models = tokens_view(tokens@);
        let mut metadata: Option<MetadataRaw<'input>> = None;
        let mut cursor: usize = 0;
        if word_at(&tokens, 0, "metadata") {
            match fields_block_at(&tokens, 1) {
                Some((fields, next)) => {
                    metadata = Some(MetadataRaw::new(fields));
                    cursor = next;
                },
                None => {
                    return Err(ParseError::UnrecognizedSyntax);
                },
            }
        }
        let mut definitions: Vec<DefinitionRaw<'input>> = Vec::new();
        assert(definitions_view(definitions@) =~= Seq::<DefinitionModel>::empty());
        while cursor < tokens.len()
            invariant
                cursor <= tokens.len(),
                models == tokens_view(tokens@),
                lex(input@) == Some(models),
                parse_file(models) == match parse_definitions(
                    models,
                    cursor as int,
                    definitions_view(definitions@),
                ) {
                    Some(found) => Some(
                        FileModel {
                            metadata: metadata_option_view(metadata),
                            definitions: found,
                        },
                    ),
                    None => None,
                },
            decreases tokens.len() - cursor,
        {
            let is_message = word_at(&tokens, cursor, "message");
            if !is_message && !word_at(&tokens, cursor, "struct") {
                return Err(ParseError::UnrecognizedSyntax);
            }
            let name = match identifier(&tokens, cursor + 1) {
                Some(name) => name,
                None => {
                    return Err(ParseError::UnrecognizedSyntax);
                },
            };
            let (fields, next) = match fields_block_at(&tokens, cursor + 2) {
                Some(found) => found,
                None => {
                    return Err(ParseError::UnrecognizedSyntax);
                },
            };
            let definition = if is_message {
                DefinitionRaw::Message(IdentifierRaw(name), fields)
            } else {
                DefinitionRaw::Struct(IdentifierRaw(name), fields)
            };
            let ghost before = definitions_view(definitions@);
            let ghost model = definition@;
            definitions.push(definition);
            assert(definitions_view(definitions@) =~= before.push(model));
            cursor = next;
        }
        Ok(FileRaw::new(metadata, definitions))
    }
}

} // verus!
