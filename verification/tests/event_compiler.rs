use rpc_fabric::event_compiler::compiler_rust::{compile, render_fields, to_rust_type};
use rpc_fabric::event_compiler::parsing::grammar::{ParseError, RFileParser};
use rpc_fabric::event_compiler::parsing::{
    DefinitionRaw, FieldRaw, FileRaw, IdentifierRaw, MetadataRaw,
};
use rpc_fabric::event_compiler::type_checking::{TypeCheckError, TypeChecker, TypedFieldType};

#[test]
pub fn can_parse_empty_struct() {
    let input = "struct A {}";
    let r = RFileParser::new().parse(input);

    assert_eq!(
        Ok(FileRaw::new(
            None,
            vec![DefinitionRaw::Struct(IdentifierRaw::new("A"), vec![])]
        )),
        r
    )
}

#[test]
pub fn can_parse_some_structs() {
    let input = "struct A { f1: u32, f2: u64} struct B { fx-1: A, fx-2: instant } struct CoolStruct29 {fx-1: B, fx-3:u8,}";
    let r = RFileParser::new().parse(input);

    assert_eq!(
        Ok(FileRaw::new(
            None,
            vec![
                DefinitionRaw::Struct(
                    IdentifierRaw::new("A"),
                    vec![
                        FieldRaw::new(IdentifierRaw::new("f1"), IdentifierRaw::new("u32")),
                        FieldRaw::new(IdentifierRaw::new("f2"), IdentifierRaw::new("u64")),
                    ]
                ),
                DefinitionRaw::Struct(
                    IdentifierRaw::new("B"),
                    vec![
                        FieldRaw::new(IdentifierRaw::new("fx-1"), IdentifierRaw::new("A")),
                        FieldRaw::new(
                            IdentifierRaw::new("fx-2"),
                            IdentifierRaw::new("instant")
                        ),
                    ]
                ),
                DefinitionRaw::Struct(
                    IdentifierRaw::new("CoolStruct29"),
                    vec![
                        FieldRaw::new(IdentifierRaw::new("fx-1"), IdentifierRaw::new("B")),
                        FieldRaw::new(IdentifierRaw::new("fx-3"), IdentifierRaw::new("u8")),
                    ]
                ),
            ]
        )),
        r
    );
}

#[test]
pub fn parses_metadata_and_messages() {
    let input = "metadata { f0: u16, } message A1 { f0:u8} struct A { f0:u8 }";
    assert_eq!(
        RFileParser::new().parse(input),
        Ok(FileRaw::new(
            Some(MetadataRaw::new(vec![FieldRaw::new(
                IdentifierRaw::new("f0"),
                IdentifierRaw::new("u16")
            )])),
            vec![
                DefinitionRaw::Message(
                    IdentifierRaw::new("A1"),
                    vec![FieldRaw::new(IdentifierRaw::new("f0"), IdentifierRaw::new("u8"))]
                ),
                DefinitionRaw::Struct(
                    IdentifierRaw::new("A"),
                    vec![FieldRaw::new(IdentifierRaw::new("f0"), IdentifierRaw::new("u8"))]
                ),
            ]
        ))
    );
    let parser = RFileParser::new();
    assert_eq!(parser.parse("struct A { f: u8 } %"), Err(ParseError::InvalidToken));
    assert_eq!(parser.parse("struct A { f: u8? }"), Err(ParseError::UnrecognizedSyntax));
    assert_eq!(parser.parse("enum A { }"), Err(ParseError::UnrecognizedSyntax));
    assert_eq!(parser.parse("struct message { }"), Err(ParseError::UnrecognizedSyntax));
    assert_eq!(parser.parse("struct A { } metadata { }"), Err(ParseError::UnrecognizedSyntax));
    assert_eq!(parser.parse("  "), Ok(FileRaw::new(None, vec![])));
}

fn check(input: &str) -> Result<String, TypeCheckError> {
    let file = RFileParser::new().parse(input).unwrap();
    TypeChecker::new().check(file).map(compile)
}

#[test]
pub fn compiles_the_sample_file() {
    let source = check(
        "metadata { f0: u16, } message A1 { f0:u8} struct A { f0:u8 } struct B { f1:u16, f2:A } message A2 {f1:B, at: instant}",
    )
    .unwrap();
    let expected = "use serde::{Deserialize, Serialize};\n\
#[derive(Serialize, Deserialize, Debug)]\n\
pub struct Metadata {\n\
\x20   pub f0: u16,\n\
}\n\
#[derive(Serialize, Deserialize, Debug)]\n\
pub struct A {\n\
\x20   pub f0: u8,\n\
}\n\
#[derive(Serialize, Deserialize, Debug)]\n\
pub struct B {\n\
\x20   pub f1: u16,\n\
\x20   pub f2: A,\n\
}\n\
\n\
#[derive(Serialize, Deserialize, Debug)]\n\
#[serde(tag = \"type\")]\n\
pub enum MessagePayload {\n\
\x20   A1 {\n\
\x20       f0: u8,\n\
\x20   },\n\
\x20   A2 {\n\
\x20       f1: B,\n\
\x20       #[serde(with = \"crate::system_time_serializer\")]\n\
\x20       at: std::time::SystemTime,\n\
\x20   },\n\
}\n\
#[derive(Serialize, Deserialize, Debug)]\n\
pub struct Message {\n\
\x20   pub metadata: Metadata,\n\
\x20   pub payload: MessagePayload,\n\
}\n";
    assert_eq!(source, expected);
}

#[test]
pub fn structs_are_written_after_the_structs_they_hold() {
    let file = RFileParser::new()
        .parse("struct C { b: B } message M { c: C } struct B { a: A } struct A { n: guid }")
        .unwrap();
    let typed = TypeChecker::new().check(file).unwrap();
    let names: Vec<&str> = typed.structs.iter().map(|s| s.name()).collect();
    assert_eq!(names, vec!["A", "B", "C"]);
    assert_eq!(typed.messages.len(), 1);
    assert_eq!(typed.messages[0].name(), "M");
    assert_eq!(typed.messages[0].fields()[0].name(), "c");
    assert!(matches!(
        typed.messages[0].fields()[0].field_type(),
        TypedFieldType::OtherStruct(name) if name == "C"
    ));
    assert_eq!(to_rust_type(typed.structs[0].fields()[0].field_type()), "::uuid::Uuid");
    assert_eq!(render_fields(typed.structs[1].fields(), false, 0), "a: A,\n");
    assert!(typed.meta.fields().is_empty());
}

fn error_of(input: &str) -> String {
    check(input).unwrap_err().to_string()
}

#[test]
pub fn event_files_are_rejected_with_the_first_error() {
    assert_eq!(
        error_of("struct A {} message A {}"),
        "The type with name \"A\" already exists"
    );
    assert_eq!(
        error_of("message A { f: u8, g: u8, f: u8 }"),
        "A field with name \"f\" already exists in struct \"A\""
    );
    assert_eq!(
        error_of("metadata { f: u8, f: u8 }"),
        "A field with name \"f\" already exists in struct \"metadata\""
    );
    assert_eq!(
        error_of("struct A { f: Nowhere }"),
        "A struct with name \"Nowhere\" does not exist"
    );
    assert_eq!(
        error_of("message M {} struct A { f: M }"),
        "A struct with name \"M\" does not exist, but a message does. Did you mean for it to be a struct?"
    );
    assert_eq!(
        error_of("struct A { f: A }"),
        "The struct with name \"A\" depends on itself"
    );
    assert_eq!(
        error_of("struct A { f: Nowhere } struct A {}"),
        "The type with name \"A\" already exists"
    );
}

#[test]
pub fn definitions_are_typed_at_the_places_that_are_asked_for() {
    let file = RFileParser::new()
        .parse("message M { a: A } struct A { n: u8 } struct B { a: A }")
        .unwrap();
    let mut checker = TypeChecker::new();
    let (structs, messages) = checker.register(file.definitions()).unwrap();
    assert_eq!(structs, vec![1, 2]);
    assert_eq!(messages, vec![0]);
    let typed = checker
        .type_structs_at(file.definitions(), &vec![2, 1])
        .unwrap();
    let names: Vec<&str> = typed.iter().map(|s| s.name()).collect();
    assert_eq!(names, vec!["B", "A"]);
    let typed = checker.type_messages_at(file.definitions(), &messages).unwrap();
    assert_eq!(typed[0].name(), "M");
}
