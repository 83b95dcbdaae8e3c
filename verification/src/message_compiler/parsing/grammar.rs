//! The grammar of interface definition files.
//!
//! ```text
//! file     := metadata? item*
//! metadata := "metadata" "{" fields "}"
//! item     := struct | enum | rpc | reverse_rpc
//! struct   := "struct" Ident "{" fields "}"
//! enum     := "enum" Ident "{" variants "}"
//! variants := (variant ("," variant)* ","?)?
//! variant  := Ident "(" fields ")"
//! fields   := (field ("," field)* ","?)?
//! field    := Ident ":" type
//! type     := Ident | Ident "?" | "[" type "]"
//! rpc      := "rpc" "{" call* "}"
//! reverse_rpc := "reverse_rpc" "{" call* "}"
//! call     := Ident "(" type ")" "->" "stream"? type ";"
//! ```
//!
//! An identifier is a word that is no keyword. A file has at most one block
//! of calls for each direction.

use vstd::prelude::*;
use vstd::string::*;
use crate::lexer::{Token, TokenModel, lex, tokenize, tokens_view};
use crate::message_compiler::parsing::{
    EnumDefinitionRaw, EnumModel, EnumVariantRaw, FieldModel, FieldRaw, FileModel, FileRaw,
    IdentifierRaw, MetadataRaw, RpcDefinitionModel, RpcDefinitionRaw, RpcRaw, StructDefinitionRaw,
    StructModel, TypeModel, TypeRaw, VariantModel, enums_view, fields_view, metadata_option_view,
    rpc_definitions_view, rpc_option_view, structs_view, variants_view,
};
use crate::text::str_eq;

verus! {

/// The words that the grammar reserves.
pub open spec fn is_keyword(word: Seq<char>) -> bool {
    word == "struct"@ || word == "enum"@ || word == "rpc"@ || word == "reverse_rpc"@ || word
        == "metadata"@ || word == "stream"@
}

/// Whether the token at `at` is `token`.
pub open spec fn is_token(tokens: Seq<TokenModel>, at: int, token: TokenModel) -> bool {
    0 <= at < tokens.len() && tokens[at] == token
}

/// Whether the token at `at` is the word `word`.
pub open spec fn is_word(tokens: Seq<TokenModel>, at: int, word: Seq<char>) -> bool {
    is_token(tokens, at, TokenModel::Word(word))
}

/// The identifier at `at`: a word that is no keyword.
pub open spec fn identifier_at(tokens: Seq<TokenModel>, at: int) -> Option<Seq<char>> {
    if 0 <= at < tokens.len() {
        match tokens[at] {
            TokenModel::Word(word) => if is_keyword(word) {
                None
            } else {
                Some(word)
            },
            _ => None,
        }
    } else {
        None
    }
}

/// How many opening brackets stand in a row from `at` on.
pub open spec fn open_brackets(tokens: Seq<TokenModel>, at: int) -> nat
    decreases tokens.len() - at,
{
    if is_token(tokens, at, TokenModel::LeftBracket) {
        1 + open_brackets(tokens, at + 1)
    } else {
        0
    }
}

/// Whether `depth` closing brackets stand in a row from `at` on.
pub open spec fn closes(tokens: Seq<TokenModel>, at: int, depth: nat) -> bool {
    forall|k: int| 0 <= k < depth ==> is_token(tokens, #[trigger] (at + k), TokenModel::RightBracket)
}

/// `type := Ident | Ident "?" | "[" type "]"`: the type at `at` and where
/// the tokens after it start.
pub open spec fn parse_type(tokens: Seq<TokenModel>, at: int) -> Option<(TypeModel, int)> {
    let depth = open_brackets(tokens, at);
    match identifier_at(tokens, at + depth) {
        None => None,
        Some(name) => {
            let optional = is_token(tokens, at + depth + 1, TokenModel::Question);
            let close_at = at + depth + 1 + if optional {
                1int
            } else {
                0int
            };
            if closes(tokens, close_at, depth) {
                Some((TypeModel { name, optional, array_depth: depth }, close_at + depth))
            } else {
                None
            }
        },
    }
}

/// `field := Ident ":" type`.
pub open spec fn parse_field(tokens: Seq<TokenModel>, at: int) -> Option<(FieldModel, int)> {
    match identifier_at(tokens, at) {
        None => None,
        Some(name) => if is_token(tokens, at + 1, TokenModel::Colon) {
            match parse_type(tokens, at + 2) {
                Some((field_type, next)) => Some((FieldModel { name, field_type }, next)),
                None => None,
            }
        } else {
            None
        },
    }
}

/// `fields closer`, behind the fields in `before`: fields separated by
/// commas, the last one optionally followed by a comma, up to the closing
/// token.
pub open spec fn parse_fields(
    tokens: Seq<TokenModel>,
    at: int,
    closer: TokenModel,
    before: Seq<FieldModel>,
) -> Option<(Seq<FieldModel>, int)>
    decreases tokens.len() - at,
{
    if is_token(tokens, at, closer) {
        Some((before, at + 1))
    } else {
        match parse_field(tokens, at) {
            None => None,
            Some((field, next)) => if is_token(tokens, next, TokenModel::Comma) && at <= next {
                parse_fields(tokens, next + 1, closer, before.push(field))
            } else if is_token(tokens, next, closer) {
                Some((before.push(field), next + 1))
            } else {
                None
            },
        }
    }
}

/// `variant := Ident "(" fields ")"`.
pub open spec fn parse_variant(tokens: Seq<TokenModel>, at: int) -> Option<(VariantModel, int)> {
    match identifier_at(tokens, at) {
        None => None,
        Some(name) => if is_token(tokens, at + 1, TokenModel::LeftParen) {
            match parse_fields(tokens, at + 2, TokenModel::RightParen, Seq::empty()) {
                Some((fields, next)) => Some((VariantModel { name, fields }, next)),
                None => None,
            }
        } else {
            None
        },
    }
}

/// `variants "}"`, behind the variants in `before`.
pub open spec fn parse_variants(tokens: Seq<TokenModel>, at: int, before: Seq<VariantModel>) -> Option<
    (Seq<VariantModel>, int),
>
    decreases tokens.len() - at,
{
    if is_token(tokens, at, TokenModel::RightBrace) {
        Some((before, at + 1))
    } else {
        match parse_variant(tokens, at) {
            None => None,
            Some((variant, next)) => if is_token(tokens, next, TokenModel::Comma) && at <= next {
                parse_variants(tokens, next + 1, before.push(variant))
            } else if is_token(tokens, next, TokenModel::RightBrace) {
                Some((before.push(variant), next + 1))
            } else {
                None
            },
        }
    }
}

/// `Ident "{" fields "}"`: a struct definition behind its keyword.
pub open spec fn parse_struct(tokens: Seq<TokenModel>, at: int) -> Option<(StructModel, int)> {
    match identifier_at(tokens, at) {
        None => None,
        Some(name) => if is_token(tokens, at + 1, TokenModel::LeftBrace) {
            match parse_fields(tokens, at + 2, TokenModel::RightBrace, Seq::empty()) {
                Some((fields, next)) => Some((StructModel { name, fields }, next)),
                None => None,
            }
        } else {
            None
        },
    }
}

/// `Ident "{" variants "}"`: an enum definition behind its keyword.
pub open spec fn parse_enum(tokens: Seq<TokenModel>, at: int) -> Option<(EnumModel, int)> {
    match identifier_at(tokens, at) {
        None => None,
        Some(name) => if is_token(tokens, at + 1, TokenModel::LeftBrace) {
            match parse_variants(tokens, at + 2, Seq::empty()) {
                Some((variants, next)) => Some((EnumModel { name, variants }, next)),
                None => None,
            }
        } else {
            None
        },
    }
}

/// `call := Ident "(" type ")" "->" "stream"? type ";"`.
pub open spec fn parse_call(tokens: Seq<TokenModel>, at: int) -> Option<(RpcDefinitionModel, int)> {
    match identifier_at(tokens, at) {
        None => None,
        Some(name) => if is_token(tokens, at + 1, TokenModel::LeftParen) {
            match parse_type(tokens, at + 2) {
                None => None,
                Some((request, next)) => if is_token(tokens, next, TokenModel::RightParen)
                    && is_token(tokens, next + 1, TokenModel::Arrow) {
                    let is_stream = is_word(tokens, next + 2, "stream"@);
                    let response_at = next + 2 + if is_stream {
                        1int
                    } else {
                        0int
                    };
                    match parse_type(tokens, response_at) {
                        None => None,
                        Some((response, end)) => if is_token(tokens, end, TokenModel::Semicolon) {
                            Some((RpcDefinitionModel { name, request, response, is_stream }, end + 1))
                        } else {
                            None
                        },
                    }
                } else {
                    None
                },
            }
        } else {
            None
        },
    }
}

/// `call* "}"`, behind the calls in `before`.
pub open spec fn parse_calls(tokens: Seq<TokenModel>, at: int, before: Seq<RpcDefinitionModel>) -> Option<
    (Seq<RpcDefinitionModel>, int),
>
    decreases tokens.len() - at,
{
    if is_token(tokens, at, TokenModel::RightBrace) {
        Some((before, at + 1))
    } else {
        match parse_call(tokens, at) {
            None => None,
            Some((call, next)) => if at < next {
                parse_calls(tokens, next, before.push(call))
            } else {
                None
            },
        }
    }
}

/// `"{" fields "}"`.
pub open spec fn parse_fields_block(tokens: Seq<TokenModel>, at: int) -> Option<
    (Seq<FieldModel>, int),
> {
    if is_token(tokens, at, TokenModel::LeftBrace) {
        parse_fields(tokens, at + 1, TokenModel::RightBrace, Seq::empty())
    } else {
        None
    }
}

/// `"{" call* "}"`.
pub open spec fn parse_calls_block(tokens: Seq<TokenModel>, at: int) -> Option<
    (Seq<RpcDefinitionModel>, int),
> {
    if is_token(tokens, at, TokenModel::LeftBrace) {
        parse_calls(tokens, at + 1, Seq::empty())
    } else {
        None
    }
}

/// `item*` up to the end of the tokens, added to what `file` holds.
pub open spec fn parse_items(tokens: Seq<TokenModel>, at: int, file: FileModel) -> Option<FileModel>
    decreases tokens.len() - at,
{
    if at < 0 {
        None
    } else if at >= tokens.len() {
        Some(file)
    } else if is_word(tokens, at, "struct"@) {
        match parse_struct(tokens, at + 1) {
            Some((definition, next)) => if at < next <= tokens.len() {
                parse_items(tokens, next, FileModel { structs: file.structs.push(definition), ..file })
            } else {
                None
            },
            None => None,
        }
    } else if is_word(tokens, at, "enum"@) {
        match parse_enum(tokens, at + 1) {
            Some((definition, next)) => if at < next <= tokens.len() {
                parse_items(tokens, next, FileModel { enums: file.enums.push(definition), ..file })
            } else {
                None
            },
            None => None,
        }
    } else if is_word(tokens, at, "rpc"@) {
        match parse_calls_block(tokens, at + 1) {
            Some((calls, next)) => if at < next <= tokens.len() && file.rpc is None {
                parse_items(tokens, next, FileModel { rpc: Some(calls), ..file })
            } else {
                None
            },
            None => None,
        }
    } else if is_word(tokens, at, "reverse_rpc"@) {
        match parse_calls_block(tokens, at + 1) {
            Some((calls, next)) => if at < next <= tokens.len() && file.reverse_rpc is None {
                parse_items(tokens, next, FileModel { reverse_rpc: Some(calls), ..file })
            } else {
                None
            },
            None => None,
        }
    } else {
        None
    }
}

/// The file without definitions that holds `metadata`.
pub open spec fn empty_file(metadata: Option<Seq<FieldModel>>) -> FileModel {
    FileModel {
        metadata,
        structs: Seq::empty(),
        enums: Seq::empty(),
        rpc: None,
        reverse_rpc: None,
    }
}

/// `file := metadata? item*`.
pub open spec fn parse_file(tokens: Seq<TokenModel>) -> Option<FileModel> {
    if is_word(tokens, 0, "metadata"@) {
        match parse_fields_block(tokens, 1) {
            Some((fields, next)) => parse_items(tokens, next, empty_file(Some(fields))),
            None => None,
        }
    } else {
        parse_items(tokens, 0, empty_file(None))
    }
}

/// The file that a text denotes, if it is one.
pub open spec fn parse_text(text: Seq<char>) -> Option<FileModel> {
    match lex(text) {
        Some(tokens) => parse_file(tokens),
        None => None,
    }
}

/// Why a text is no file.
#[derive(Debug, Clone, Copy, PartialEq, Eq)]
pub enum ParseError {
    /// A character of the text starts no token.
    InvalidToken,
    /// The tokens of the text do not follow the grammar.
    UnrecognizedSyntax,
}

/// The punctuation marks that the grammar tests for.
#[derive(Clone, Copy)]
enum Mark {
    LeftBrace,
    RightBrace,
    LeftParen,
    RightParen,
    LeftBracket,
    RightBracket,
    Colon,
    Comma,
    Question,
    Semicolon,
    Arrow,
}

impl Mark {
    spec fn token(self) -> TokenModel {
        match self {
            Mark::LeftBrace => TokenModel::LeftBrace,
            Mark::RightBrace => TokenModel::RightBrace,
            Mark::LeftParen => TokenModel::LeftParen,
            Mark::RightParen => TokenModel::RightParen,
            Mark::LeftBracket => TokenModel::LeftBracket,
            Mark::RightBracket => TokenModel::RightBracket,
            Mark::Colon => TokenModel::Colon,
            Mark::Comma => TokenModel::Comma,
            Mark::Question => TokenModel::Question,
            Mark::Semicolon => TokenModel::Semicolon,
            Mark::Arrow => TokenModel::Arrow,
        }
    }
}

fn mark_at(tokens: &Vec<Token>, at: usize, mark: Mark) -> (yes: bool)
    ensures
        yes == is_token(tokens_view(tokens@), at as int, mark.token()),
{
    if at >= tokens.len() {
        return false;
    }
    match (tokens[at], mark) {
        (Token::LeftBrace, Mark::LeftBrace) => true,
        (Token::RightBrace, Mark::RightBrace) => true,
        (Token::LeftParen, Mark::LeftParen) => true,
        (Token::RightParen, Mark::RightParen) => true,
        (Token::LeftBracket, Mark::LeftBracket) => true,
        (Token::RightBracket, Mark::RightBracket) => true,
        (Token::Colon, Mark::Colon) => true,
        (Token::Comma, Mark::Comma) => true,
        (Token::Question, Mark::Question) => true,
        (Token::Semicolon, Mark::Semicolon) => true,
        (Token::Arrow, Mark::Arrow) => true,
        _ => false,
    }
}

fn word_at(tokens: &Vec<Token>, at: usize, word: &str) -> (yes: bool)
    ensures
        yes == is_word(tokens_view(tokens@), at as int, word@),
{
    if at >= tokens.len() {
        return false;
    }
    match tokens[at] {
        Token::Word(text) => str_eq(text, word),
        _ => false,
    }
}

fn keyword(word: &str) -> (yes: bool)
    ensures
        yes == is_keyword(word@),
{
    str_eq(word, "struct") || str_eq(word, "enum") || str_eq(word, "rpc") || str_eq(
        word,
        "reverse_rpc",
    ) || str_eq(word, "metadata") || str_eq(word, "stream")
}

fn identifier<'input>(tokens: &Vec<Token<'input>>, at: usize) -> (found: Option<&'input str>)
    ensures
        match found {
            Some(word) => at < tokens.len() && identifier_at(tokens_view(tokens@), at as int)
                == Some(word@),
            None => identifier_at(tokens_view(tokens@), at as int) is None,
        },
{
    if at >= tokens.len() {
        return None;
    }
    match tokens[at] {
        Token::Word(text) => if keyword(text) {
            None
        } else {
            Some(text)
        },
        _ => None,
    }
}

fn type_at<'input>(tokens: &Vec<Token<'input>>, at: usize) -> (parsed: Option<
    (TypeRaw<'input>, usize),
>)
    requires
        at <= tokens.len(),
    ensures
        match parsed {
            Some((ty, next)) => at < next <= tokens.len() && parse_type(
                tokens_view(tokens@),
                at as int,
            ) == Some((ty@, next as int)),
            None => parse_type(tokens_view(tokens@), at as int) is None,
        },
{
    let ghost models = tokens_view(tokens@);
    let mut depth: usize = 0;
    let mut cursor: usize = at;
    while mark_at(tokens, cursor, Mark::LeftBracket)
        invariant
            at <= cursor <= tokens.len(),
            cursor == at + depth,
            models == tokens_view(tokens@),
            open_brackets(models, at as int) == depth + open_brackets(models, cursor as int),
        decreases tokens.len() - cursor,
    {
        cursor += 1;
        depth += 1;
    }
    assert(open_brackets(models, cursor as int) == 0);
    let name = match identifier(tokens, cursor) {
        Some(name) => name,
        None => {
            return None;
        },
    };
    let mut next: usize = cursor + 1;
    let optional = mark_at(tokens, next, Mark::Question);
    if optional {
        next += 1;
    }
    let ghost close_at = next as int;
    let mut closed: usize = 0;
    while closed < depth
        invariant
            closed <= depth,
            next == close_at + closed,
            next <= tokens.len(),
            models == tokens_view(tokens@),
            open_brackets(models, at as int) == depth,
            identifier_at(models, at + depth) == Some(name@),
            optional == is_token(models, at + depth + 1, TokenModel::Question),
            close_at == at + depth + 1 + if optional {
                1int
            } else {
                0int
            },
            forall|k: int|
                0 <= k < closed ==> is_token(models, #[trigger] (close_at + k), TokenModel::RightBracket),
        decreases depth - closed,
    {
        if !mark_at(tokens, next, Mark::RightBracket) {
            assert(!is_token(models, close_at + closed, TokenModel::RightBracket));
            return None;
        }
        next += 1;
        closed += 1;
    }
    Some((TypeRaw { name: IdentifierRaw(name), optional, array_depth: depth }, next))
}

fn field_at<'input>(tokens: &Vec<Token<'input>>, at: usize) -> (parsed: Option<
    (FieldRaw<'input>, usize),
>)
    requires
        at <= tokens.len(),
    ensures
        match parsed {
            Some((field, next)) => at < next <= tokens.len() && parse_field(
                tokens_view(tokens@),
                at as int,
            ) == Some((field@, next as int)),
            None => parse_field(tokens_view(tokens@), at as int) is None,
        },
{
    let name = match identifier(tokens, at) {
        Some(name) => name,
        None => {
            return None;
        },
    };
    if !mark_at(tokens, at + 1, Mark::Colon) {
        return None;
    }
    match type_at(tokens, at + 2) {
        Some((field_type, next)) => Some((FieldRaw { name: IdentifierRaw(name), field_type }, next)),
        None => None,
    }
}

fn fields_until<'input>(tokens: &Vec<Token<'input>>, at: usize, closer: Mark) -> (parsed: Option<
    (Vec<FieldRaw<'input>>, usize),
>)
    requires
        at <= tokens.len(),
    ensures
        match parsed {
            Some((fields, next)) => at < next <= tokens.len() && parse_fields(
                tokens_view(tokens@),
                at as int,
                closer.token(),
                Seq::empty(),
            ) == Some((fields_view(fields@), next as int)),
            None => parse_fields(
                tokens_view(tokens@),
                at as int,
                closer.token(),
                Seq::empty(),
            ) is None,
        },
{
    let ghost models = tokens_view(tokens@);
    let ghost wanted = parse_fields(models, at as int, closer.token(), Seq::empty());
    let mut fields: Vec<FieldRaw<'input>> = Vec::new();
    let mut cursor: usize = at;
    assert(fields_view(fields@) =~= Seq::<FieldModel>::empty());
    loop
        invariant
            at <= cursor <= tokens.len(),
            models == tokens_view(tokens@),
            wanted == parse_fields(models, at as int, closer.token(), Seq::empty()),
            wanted == parse_fields(models, cursor as int, closer.token(), fields_view(fields@)),
        decreases tokens.len() - cursor,
    {
        if mark_at(tokens, cursor, closer) {
            return Some((fields, cursor + 1));
        }
        let (field, next) = match field_at(tokens, cursor) {
            Some(found) => found,
            None => {
                return None;
            },
        };
        let ghost before = fields_view(fields@);
        let ghost model = field@;
        fields.push(field);
        assert(fields_view(fields@) =~= before.push(model));
        if mark_at(tokens, next, Mark::Comma) {
            cursor = next + 1;
        } else if mark_at(tokens, next, closer) {
            return Some((fields, next + 1));
        } else {
            return None;
        }
    }
}

fn variant_at<'input>(tokens: &Vec<Token<'input>>, at: usize) -> (parsed: Option<
    (EnumVariantRaw<'input>, usize),
>)
    requires
        at <= tokens.len(),
    ensures
        match parsed {
            Some((variant, next)) => at < next <= tokens.len() && parse_variant(
                tokens_view(tokens@),
                at as int,
            ) == Some((variant@, next as int)),
            None => parse_variant(tokens_view(tokens@), at as int) is None,
        },
{
    let name = match identifier(tokens, at) {
        Some(name) => name,
        None => {
            return None;
        },
    };
    if !mark_at(tokens, at + 1, Mark::LeftParen) {
        return None;
    }
    match fields_until(tokens, at + 2, Mark::RightParen) {
        Some((fields, next)) => Some((EnumVariantRaw { name: IdentifierRaw(name), fields }, next)),
        None => None,
    }
}

fn variants_until<'input>(tokens: &Vec<Token<'input>>, at: usize) -> (parsed: Option<
    (Vec<EnumVariantRaw<'input>>, usize),
>)
    requires
        at <= tokens.len(),
    ensures
        match parsed {
            Some((variants, next)) => at < next <= tokens.len() && parse_variants(
                tokens_view(tokens@),
                at as int,
                Seq::empty(),
            ) == Some((variants_view(variants@), next as int)),
            None => parse_variants(tokens_view(tokens@), at as int, Seq::empty()) is None,
        },
{
    let ghost models = tokens_view(tokens@);
    let ghost wanted = parse_variants(models, at as int, Seq::empty());
    let mut variants: Vec<EnumVariantRaw<'input>> = Vec::new();
    let mut cursor: usize = at;
    assert(variants_view(variants@) =~= Seq::<VariantModel>::empty());
    loop
        invariant
            at <= cursor <= tokens.len(),
            models == tokens_view(tokens@),
            wanted == parse_variants(models, at as int, Seq::empty()),
            wanted == parse_variants(models, cursor as int, variants_view(variants@)),
        decreases tokens.len() - cursor,
    {
        if mark_at(tokens, cursor, Mark::RightBrace) {
            return Some((variants, cursor + 1));
        }
        let (variant, next) = match variant_at(tokens, cursor) {
            Some(found) => found,
            None => {
                return None;
            },
        };
        let ghost before = variants_view(variants@);
        let ghost model = variant@;
        variants.push(variant);
        assert(variants_view(variants@) =~= before.push(model));
        if mark_at(tokens, next, Mark::Comma) {
            cursor = next + 1;
        } else if mark_at(tokens, next, Mark::RightBrace) {
            return Some((variants, next + 1));
        } else {
            return None;
        }
    }
}

fn struct_at<'input>(tokens: &Vec<Token<'input>>, at: usize) -> (parsed: Option<
    (StructDefinitionRaw<'input>, usize),
>)
    requires
        at <= tokens.len(),
    ensures
        match parsed {
            Some((definition, next)) => at < next <= tokens.len() && parse_struct(
                tokens_view(tokens@),
                at as int,
            ) == Some((definition@, next as int)),
            None => parse_struct(tokens_view(tokens@), at as int) is None,
        },
{
    let name = match identifier(tokens, at) {
        Some(name) => name,
        None => {
            return None;
        },
    };
    if !mark_at(tokens, at + 1, Mark::LeftBrace) {
        return None;
    }
    match fields_until(tokens, at + 2, Mark::RightBrace) {
        Some((fields, next)) => Some((StructDefinitionRaw(IdentifierRaw(name), fields), next)),
        None => None,
    }
}

fn enum_at<'input>(tokens: &Vec<Token<'input>>, at: usize) -> (parsed: Option<
    (EnumDefinitionRaw<'input>, usize),
>)
    requires
        at <= tokens.len(),
    ensures
        match parsed {
            Some((definition, next)) => at < next <= tokens.len() && parse_enum(
                tokens_view(tokens@),
                at as int,
            ) == Some((definition@, next as int)),
            None => parse_enum(tokens_view(tokens@), at as int) is None,
        },
{
    let name = match identifier(tokens, at) {
        Some(name) => name,
        None => {
            return None;
        },
    };
    if !mark_at(tokens, at + 1, Mark::LeftBrace) {
        return None;
    }
    match variants_until(tokens, at + 2) {
        Some((variants, next)) => Some(
            (EnumDefinitionRaw { name: IdentifierRaw(name), variants }, next),
        ),
        None => None,
    }
}

fn call_at<'input>(tokens: &Vec<Token<'input>>, at: usize) -> (parsed: Option<
    (RpcDefinitionRaw<'input>, usize),
>)
    requires
        at <= tokens.len(),
    ensures
        match parsed {
            Some((call, next)) => at < next <= tokens.len() && parse_call(
                tokens_view(tokens@),
                at as int,
            ) == Some((call@, next as int)),
            None => parse_call(tokens_view(tokens@), at as int) is None,
        },
{
    let name = match identifier(tokens, at) {
        Some(name) => name,
        None => {
            return None;
        },
    };
    if !mark_at(tokens, at + 1, Mark::LeftParen) {
        return None;
    }
    let (request, next) = match type_at(tokens, at + 2) {
        Some(found) => found,
        None => {
            return None;
        },
    };
    if !mark_at(tokens, next, Mark::RightParen) {
        return None;
    }
    if !mark_at(tokens, next + 1, Mark::Arrow) {
        return None;
    }
    let is_stream = word_at(tokens, next + 2, "stream");
    let response_at: usize = if is_stream {
        next + 3
    } else {
        next + 2
    };
    let (response, end) = match type_at(tokens, response_at) {
        Some(found) => found,
        None => {
            return None;
        },
    };
    if !mark_at(tokens, end, Mark::Semicolon) {
        return None;
    }
    Some((RpcDefinitionRaw { name: IdentifierRaw(name), request, response, is_stream }, end + 1))
}

fn calls_block_at<'input>(tokens: &Vec<Token<'input>>, at: usize) -> (parsed: Option<
    (RpcRaw<'input>, usize),
>)
    requires
        at <= tokens.len(),
    ensures
        match parsed {
            Some((rpc, next)) => at < next <= tokens.len() && parse_calls_block(
                tokens_view(tokens@),
                at as int,
            ) == Some((rpc@, next as int)),
            None => parse_calls_block(tokens_view(tokens@), at as int) is None,
        },
{
    if !mark_at(tokens, at, Mark::LeftBrace) {
        return None;
    }
    let ghost models = tokens_view(tokens@);
    let ghost wanted = parse_calls(models, at + 1, Seq::empty());
    let mut calls: Vec<RpcDefinitionRaw<'input>> = Vec::new();
    let mut cursor: usize = at + 1;
    assert(rpc_definitions_view(calls@) =~= Seq::<RpcDefinitionModel>::empty());
    loop
        invariant
            at < cursor <= tokens.len(),
            models == tokens_view(tokens@),
            wanted == parse_calls(models, at + 1, Seq::empty()),
            wanted == parse_calls(models, cursor as int, rpc_definitions_view(calls@)),
            parse_calls_block(models, at as int) == wanted,
        decreases tokens.len() - cursor,
    {
        if mark_at(tokens, cursor, Mark::RightBrace) {
            return Some((RpcRaw { definitions: calls }, cursor + 1));
        }
        let (call, next) = match call_at(tokens, cursor) {
            Some(found) => found,
            None => {
                return None;
            },
        };
        let ghost before = rpc_definitions_view(calls@);
        let ghost model = call@;
        calls.push(call);
        assert(rpc_definitions_view(calls@) =~= before.push(model));
        cursor = next;
    }
}

/// The parser of interface definition files.
pub struct RFileParser {}

impl RFileParser {
    #[must_use]
    pub fn new() -> Self {
        RFileParser {  }
    }

    /// Parses a text. The file comes back where the text has tokens that
    /// follow the grammar, and only then.
    pub fn parse<'input>(&self, input: &'input str) -> (parsed: Result<FileRaw<'input>, ParseError>)
        ensures
            match parsed {
                Ok(file) => parse_text(input@) == Some(file@),
                Err(ParseError::InvalidToken) => lex(input@) is None,
                Err(ParseError::UnrecognizedSyntax) => lex(input@) is Some && parse_file(
                    lex(input@).unwrap(),
                ) is None,
            },
    {
        let tokens = match tokenize(input) {
            Some(tokens) => tokens,
            None => {
                return Err(ParseError::InvalidToken);
            },
        };
        let ghost models = tokens_view(tokens@);
        let mut metadata: Option<MetadataRaw<'input>> = None;
        let mut cursor: usize = 0;
        if word_at(&tokens, 0, "metadata") {
            if !mark_at(&tokens, 1, Mark::LeftBrace) {
                return Err(ParseError::UnrecognizedSyntax);
            }
            match fields_until(&tokens, 2, Mark::RightBrace) {
                Some((fields, next)) => {
                    metadata = Some(MetadataRaw::new(fields));
                    cursor = next;
                },
                None => {
                    return Err(ParseError::UnrecognizedSyntax);
                },
            }
        }
        let mut structs: Vec<StructDefinitionRaw<'input>> = Vec::new();
        let mut enums: Vec<EnumDefinitionRaw<'input>> = Vec::new();
        let mut rpc: Option<RpcRaw<'input>> = None;
        let mut reverse_rpc: Option<RpcRaw<'input>> = None;
        assert(structs_view(structs@) =~= Seq::<StructModel>::empty());
        assert(enums_view(enums@) =~= Seq::<EnumModel>::empty());
        while cursor < tokens.len()
            invariant
                cursor <= tokens.len(),
                models == tokens_view(tokens@),
                lex(input@) == Some(models),
                parse_file(models) == parse_items(
                    models,
                    cursor as int,
                    FileModel {
                        metadata: metadata_option_view(metadata),
                        structs: structs_view(structs@),
                        enums: enums_view(enums@),
                        rpc: rpc_option_view(rpc),
                        reverse_rpc: rpc_option_view(reverse_rpc),
                    },
                ),
            decreases tokens.len() - cursor,
        {
            if word_at(&tokens, cursor, "struct") {
                match struct_at(&tokens, cursor + 1) {
                    Some((definition, next)) => {
                        let ghost before = structs_view(structs@);
                        let ghost model = definition@;
                        structs.push(definition);
                        assert(structs_view(structs@) =~= before.push(model));
                        cursor = next;
                    },
                    None => {
                        return Err(ParseError::UnrecognizedSyntax);
                    },
                }
            } else if word_at(&tokens, cursor, "enum") {
                match enum_at(&tokens, cursor + 1) {
                    Some((definition, next)) => {
                        let ghost before = enums_view(enums@);
                        let ghost model = definition@;
                        enums.push(definition);
                        assert(enums_view(enums@) =~= before.push(model));
                        cursor = next;
                    },
                    None => {
                        return Err(ParseError::UnrecognizedSyntax);
                    },
                }
            } else if word_at(&tokens, cursor, "rpc") {
                match calls_block_at(&tokens, cursor + 1) {
                    Some((calls, next)) => {
                        if rpc.is_some() {
                            return Err(ParseError::UnrecognizedSyntax);
                        }
                        rpc = Some(calls);
                        cursor = next;
                    },
                    None => {
                        return Err(ParseError::UnrecognizedSyntax);
                    },
                }
            } else if word_at(&tokens, cursor, "reverse_rpc") {
                match calls_block_at(&tokens, cursor + 1) {
                    Some((calls, next)) => {
                        if reverse_rpc.is_some() {
                            return Err(ParseError::UnrecognizedSyntax);
                        }
                        reverse_rpc = Some(calls);
                        cursor = next;
                    },
                    None => {
                        return Err(ParseError::UnrecognizedSyntax);
                    },
                }
            } else {
                return Err(ParseError::UnrecognizedSyntax);
            }
        }
        Ok(FileRaw::new(metadata, structs, enums, rpc).with_reverse_rpc(reverse_rpc))
    }
}

} // verus!
