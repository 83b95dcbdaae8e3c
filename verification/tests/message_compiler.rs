use rpc_fabric::message_compiler::compiler_rust::to_rust_type_name;
use rpc_fabric::message_compiler::parsing::grammar::{ParseError, RFileParser};
use rpc_fabric::message_compiler::parsing::{
    EnumDefinitionRaw, EnumVariantRaw, FieldRaw, FileRaw, IdentifierRaw, MetadataRaw,
    RpcDefinitionRaw, RpcRaw, StructDefinitionRaw, TypeRaw,
};
use rpc_fabric::message_compiler::type_checking::{
    TypeCheckError, TypeChecker, TypedFieldType, TypedRpcCall,
};

#[test]
pub fn parsing_can_parse_empty_struct() {
    let input = "struct A {}";
    let r = RFileParser::new().parse(input);

    assert_eq!(
        Ok(FileRaw::new(
            None,
            vec![StructDefinitionRaw(IdentifierRaw::new("A"), vec![])],
            vec![],
            None
        )),
        r
    )
}

#[test]
pub fn parsing_can_parse_some_structs() {
    let input = "struct A { f1: u32, f2: u64} struct B { fx-1: A, fx-2: instant } struct CoolStruct29 {fx-1: B, fx-3:u8,}";
    let r = RFileParser::new().parse(input);

    assert_eq!(
        Ok(FileRaw::new(
            None,
            vec![
                StructDefinitionRaw(
                    IdentifierRaw::new("A"),
                    vec![
                        FieldRaw::new(
                            IdentifierRaw::new("f1"),
                            TypeRaw::new(IdentifierRaw::new("u32"), false)
                        ),
                        FieldRaw::new(
                            IdentifierRaw::new("f2"),
                            TypeRaw::new(IdentifierRaw::new("u64"), false)
                        ),
                    ]
                ),
                StructDefinitionRaw(
                    IdentifierRaw::new("B"),
                    vec![
                        FieldRaw::new(
                            IdentifierRaw::new("fx-1"),
                            TypeRaw::new(IdentifierRaw::new("A"), false)
                        ),
                        FieldRaw::new(
                            IdentifierRaw::new("fx-2"),
                            TypeRaw::new(IdentifierRaw::new("instant"), false)
                        ),
                    ]
                ),
                StructDefinitionRaw(
                    IdentifierRaw::new("CoolStruct29"),
                    vec![
                        FieldRaw::new(
                            IdentifierRaw::new("fx-1"),
                            TypeRaw::new(IdentifierRaw::new("B"), false)
                        ),
                        FieldRaw::new(
                            IdentifierRaw::new("fx-3"),
                            TypeRaw::new(IdentifierRaw::new("u8"), false)
                        ),
                    ]
                ),
            ],
            vec![],
            None
        )),
        r
    );
}

#[test]
pub fn can_parse_rpc_defintiion() {
    let input = "struct request { f1: u32 } struct response { f2: u64 } rpc { call(request) -> response; }";
    let r = RFileParser::new().parse(input);

    assert_eq!(
        Ok(FileRaw::new(
            None,
            vec![
                StructDefinitionRaw(
                    IdentifierRaw::new("request"),
                    vec![FieldRaw::new(
                        IdentifierRaw::new("f1"),
                        TypeRaw::new(IdentifierRaw::new("u32"), false)
                    ),]
                ),
                StructDefinitionRaw(
                    IdentifierRaw::new("response"),
                    vec![FieldRaw::new(
                        IdentifierRaw::new("f2"),
                        TypeRaw::new(IdentifierRaw::new("u64"), false)
                    ),]
                ),
            ],
            vec![],
            Some(RpcRaw::new(vec![RpcDefinitionRaw::new(
                IdentifierRaw::new("call"),
                TypeRaw::new(IdentifierRaw::new("request"), false),
                TypeRaw::new(IdentifierRaw::new("response"), false),
                false
            )]))
        )),
        r
    );
}

#[test]
pub fn can_parse_rpc_stream_defintiion() {
    let input = "struct request { f1: u32 } struct response { f2: u64 } rpc { call(request) -> stream response; }";
    let r = RFileParser::new().parse(input);

    assert_eq!(
        Ok(FileRaw::new(
            None,
            vec![
                StructDefinitionRaw(
                    IdentifierRaw::new("request"),
                    vec![FieldRaw::new(
                        IdentifierRaw::new("f1"),
                        TypeRaw::new(IdentifierRaw::new("u32"), false)
                    ),]
                ),
                StructDefinitionRaw(
                    IdentifierRaw::new("response"),
                    vec![FieldRaw::new(
                        IdentifierRaw::new("f2"),
                        TypeRaw::new(IdentifierRaw::new("u64"), false)
                    ),]
                ),
            ],
            vec![],
            Some(RpcRaw::new(vec![RpcDefinitionRaw::new(
                IdentifierRaw::new("call"),
                TypeRaw::new(IdentifierRaw::new("request"), false),
                TypeRaw::new(IdentifierRaw::new("response"), false),
                true
            )]))
        )),
        r
    );
}

#[test]
pub fn to_rust_type_tests() {
    assert_eq!(to_rust_type_name(&TypedFieldType::U8), "u8");
    assert_eq!(to_rust_type_name(&TypedFieldType::U16), "u16");
    assert_eq!(to_rust_type_name(&TypedFieldType::U32), "u32");
    assert_eq!(to_rust_type_name(&TypedFieldType::U64), "u64");
    assert_eq!(to_rust_type_name(&TypedFieldType::S8), "s8");
    assert_eq!(to_rust_type_name(&TypedFieldType::S16), "s16");
    assert_eq!(to_rust_type_name(&TypedFieldType::S32), "s32");
    assert_eq!(to_rust_type_name(&TypedFieldType::S64), "s64");
    assert_eq!(
        to_rust_type_name(&TypedFieldType::Instant),
        "std::time::SystemTime"
    );
    assert_eq!(to_rust_type_name(&TypedFieldType::Guid), "uuid::Uuid");
    assert_eq!(to_rust_type_name(&TypedFieldType::String), "String");
    assert_eq!(to_rust_type_name(&TypedFieldType::Void), "()");
    assert_eq!(to_rust_type_name(&TypedFieldType::Binary), "Vec<u8>");
    assert_eq!(
        to_rust_type_name(&TypedFieldType::OtherStruct("Foo".to_string())),
        "Foo"
    );
    assert_eq!(
        to_rust_type_name(&TypedFieldType::Enum("Foo".to_string())),
        "Foo"
    );
    assert_eq!(
        to_rust_type_name(&TypedFieldType::Optional(Box::new(TypedFieldType::U8))),
        "Option<u8>"
    );
    assert_eq!(
        to_rust_type_name(&TypedFieldType::Array(Box::new(TypedFieldType::U8))),
        "Vec<u8>"
    );
}

#[test]
pub fn type_check_error_display_tests() {
    let error = TypeCheckError::RepeatedName("test".to_string());

    assert_eq!(
        error.to_string(),
        "The type with name \"test\" already exists"
    );

    let error = TypeCheckError::RepeatedFieldName {
        field_name: "test1".to_string(),
        struct_name: "test2".to_string(),
    };

    assert_eq!(
        error.to_string(),
        "A field with name \"test1\" already exists in struct \"test2\""
    );
}

#[test]
pub fn type_check_error_messages_for_missing_and_cyclic_structs() {
    assert_eq!(
        TypeCheckError::StructNotFound("Gone".to_string()).to_string(),
        "A struct with name \"Gone\" does not exist"
    );
    assert_eq!(
        TypeCheckError::CyclicDependency("Loop".to_string()).to_string(),
        "The struct with name \"Loop\" depends on itself"
    );
}

fn check_text(input: &str) -> Result<Vec<String>, String> {
    let file = RFileParser::new().parse(input).unwrap();
    match TypeChecker::new().check(&file) {
        Ok(typed) => Ok(typed.structs.iter().map(|s| s.name().to_string()).collect()),
        Err(e) => Err(format!("{:?}", e)),
    }
}

#[test]
pub fn parses_metadata_enums_and_both_directions() {
    let input = "metadata { f0: u16, } struct A { f0:u8 } enum Food { Carrot(length:u8), Apple(length:u8, roundness: u64), } rpc { method(A?) -> B?; } reverse_rpc { read(string) -> stream [binary]; } struct B { f1:u16, f2:A }";
    let file = RFileParser::new().parse(input).unwrap();
    let expected = FileRaw::new(
        Some(MetadataRaw::new(vec![FieldRaw::new(
            IdentifierRaw::new("f0"),
            TypeRaw::new(IdentifierRaw::new("u16"), false),
        )])),
        vec![
            StructDefinitionRaw(
                IdentifierRaw::new("A"),
                vec![FieldRaw::new(
                    IdentifierRaw::new("f0"),
                    TypeRaw::new(IdentifierRaw::new("u8"), false),
                )],
            ),
            StructDefinitionRaw(
                IdentifierRaw::new("B"),
                vec![
                    FieldRaw::new(
                        IdentifierRaw::new("f1"),
                        TypeRaw::new(IdentifierRaw::new("u16"), false),
                    ),
                    FieldRaw::new(
                        IdentifierRaw::new("f2"),
                        TypeRaw::new(IdentifierRaw::new("A"), false),
                    ),
                ],
            ),
        ],
        vec![EnumDefinitionRaw::new(
            IdentifierRaw::new("Food"),
            vec![
                EnumVariantRaw::new(
                    IdentifierRaw::new("Carrot"),
                    vec![FieldRaw::new(
                        IdentifierRaw::new("length"),
                        TypeRaw::new(IdentifierRaw::new("u8"), false),
                    )],
                ),
                EnumVariantRaw::new(
                    IdentifierRaw::new("Apple"),
                    vec![
                        FieldRaw::new(
                            IdentifierRaw::new("length"),
                            TypeRaw::new(IdentifierRaw::new("u8"), false),
                        ),
                        FieldRaw::new(
                            IdentifierRaw::new("roundness"),
                            TypeRaw::new(IdentifierRaw::new("u64"), false),
                        ),
                    ],
                ),
            ],
        )],
        Some(RpcRaw::new(vec![RpcDefinitionRaw::new(
            IdentifierRaw::new("method"),
            TypeRaw::new(IdentifierRaw::new("A"), true),
            TypeRaw::new(IdentifierRaw::new("B"), true),
            false,
        )])),
    )
    .with_reverse_rpc(Some(RpcRaw::new(vec![RpcDefinitionRaw::new(
        IdentifierRaw::new("read"),
        TypeRaw::new(IdentifierRaw::new("string"), false),
        TypeRaw::array_of(TypeRaw::new(IdentifierRaw::new("binary"), false)).unwrap(),
        true,
    )])));
    assert_eq!(expected, file);
}

#[test]
pub fn rejects_text_outside_the_grammar() {
    let parser = RFileParser::new();
    assert_eq!(parser.parse("struct A { f1: u32 } #"), Err(ParseError::InvalidToken));
    assert_eq!(parser.parse("struct A - {}"), Err(ParseError::InvalidToken));
    assert_eq!(parser.parse("struct A { f1 u32 }"), Err(ParseError::UnrecognizedSyntax));
    assert_eq!(parser.parse("struct struct {}"), Err(ParseError::UnrecognizedSyntax));
    assert_eq!(parser.parse("struct A {} metadata {}"), Err(ParseError::UnrecognizedSyntax));
    assert_eq!(parser.parse("rpc {} rpc {}"), Err(ParseError::UnrecognizedSyntax));
    assert_eq!(parser.parse("struct A { f: [u8 }"), Err(ParseError::UnrecognizedSyntax));
    assert_eq!(parser.parse("struct A { , }"), Err(ParseError::UnrecognizedSyntax));
    assert_eq!(parser.parse(""), Ok(FileRaw::new(None, vec![], vec![], None)));
}

#[test]
pub fn check_orders_structs_after_what_they_hold() {
    let names = check_text("struct C { b: B } struct B { a: A, again: A } struct A { n: u8 }").unwrap();
    let position = |name: &str| names.iter().position(|n| n == name).unwrap();
    assert_eq!(names.len(), 3);
    assert!(position("A") < position("B"));
    assert!(position("B") < position("C"));
}

#[test]
pub fn check_resolves_every_kind_of_type() {
    let input = "struct A { n: u8 } enum E { V(x: A) } struct B { a: A?, l: [[E?]], t: instant } rpc { one(A) -> B; many(void) -> stream E; }";
    let file = RFileParser::new().parse(input).unwrap();
    let typed = TypeChecker::new().check(&file).unwrap();
    let b = typed.structs.iter().find(|s| s.name() == "B").unwrap();
    assert_eq!(to_rust_type_name(b.fields()[0].field_type()), "Option<A>");
    assert_eq!(to_rust_type_name(b.fields()[1].field_type()), "Vec<Vec<Option<E>>>");
    assert_eq!(to_rust_type_name(b.fields()[2].field_type()), "std::time::SystemTime");
    assert!(matches!(b.fields()[0].field_type(), TypedFieldType::Optional(inner) if matches!(**inner, TypedFieldType::OtherStruct(_))));
    assert_eq!(typed.enums.len(), 1);
    assert_eq!(typed.enums[0].variants()[0].fields()[0].name(), "x");
    assert_eq!(typed.rpc.calls().len(), 2);
    assert!(matches!(&typed.rpc.calls()[0], TypedRpcCall::Unary { name, .. } if name == "one"));
    assert!(matches!(&typed.rpc.calls()[1], TypedRpcCall::Stream { name, response: TypedFieldType::Enum(e), .. } if name == "many" && e == "E"));
    assert!(typed.reverse_rpc.calls().is_empty());
    assert!(typed.meta.fields().is_empty());
}

#[test]
pub fn check_reports_the_first_error() {
    assert_eq!(
        check_text("struct A {} struct A {}"),
        Err("RepeatedName(\"A\")".to_string())
    );
    assert_eq!(
        check_text("struct A {} enum A {}"),
        Err("RepeatedName(\"A\")".to_string())
    );
    assert_eq!(
        check_text("struct A { x: u8, y: u8, x: u16 }"),
        Err("RepeatedFieldName { field_name: \"x\", struct_name: \"A\" }".to_string())
    );
    assert_eq!(
        check_text("enum E { V(a: u8, a: u8) }"),
        Err("RepeatedFieldName { field_name: \"a\", struct_name: \"E\" }".to_string())
    );
    assert_eq!(
        check_text("metadata { a: u8, a: u8 }"),
        Err("RepeatedFieldName { field_name: \"a\", struct_name: \"metadata\" }".to_string())
    );
    assert_eq!(
        check_text("struct A { x: Missing }"),
        Err("StructNotFound(\"Missing\")".to_string())
    );
    assert_eq!(
        check_text("rpc { call(u8) -> [Nowhere?]; }"),
        Err("StructNotFound(\"Nowhere\")".to_string())
    );
    assert_eq!(
        check_text("struct A { x: Missing } struct A {}"),
        Err("RepeatedName(\"A\")".to_string())
    );
}

#[test]
pub fn check_rejects_structs_that_hold_themselves() {
    assert_eq!(
        check_text("struct A { again: A }"),
        Err("CyclicDependency(\"A\")".to_string())
    );
    let through = check_text("struct A { b: B } struct B { a: A } struct C { n: u8 }").unwrap_err();
    assert!(through == "CyclicDependency(\"A\")" || through == "CyclicDependency(\"B\")");
    assert_eq!(
        check_text("struct A { next: A?, all: [A] }"),
        Ok(vec!["A".to_string()])
    );
}

#[test]
pub fn structs_are_typed_in_the_order_that_is_asked_for() {
    let file = RFileParser::new()
        .parse("struct A { n: u8 } struct B { a: A } enum E { V(b: B) } struct C { e: E? }")
        .unwrap();
    let mut checker = TypeChecker::new();
    assert!(checker.register_structs(file.structs()).is_ok());
    assert!(checker.register_enums(file.enums()).is_ok());
    let typed = checker
        .type_structs_in_order(file.structs(), &vec![2, 0, 1])
        .unwrap();
    let names: Vec<&str> = typed.iter().map(|s| s.name()).collect();
    assert_eq!(names, vec!["C", "A", "B"]);
    assert_eq!(to_rust_type_name(typed[0].fields()[0].field_type()), "Option<E>");
    assert!(checker.type_structs_in_order(file.structs(), &vec![]).unwrap().is_empty());
    assert!(checker
        .check_duplicate(&IdentifierRaw::new("E"))
        .is_err());
    assert!(checker
        .check_duplicate(&IdentifierRaw::new("F"))
        .is_ok());
    assert!(TypeChecker::map_fields(file.structs()[0].1.as_slice(), "A").is_ok());
    assert!(checker
        .resolve_type(&TypeRaw::new(IdentifierRaw::new("Missing"), true))
        .is_err());
}
