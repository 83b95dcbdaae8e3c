//! How the types of a checked file are written in generated Rust.

use vstd::prelude::*;
use vstd::string::*;
use crate::message_compiler::type_checking::{TypeIdModel, TypedFieldType};

verus! {

/// The Rust spelling of a resolved type. The signed integers keep the names
/// that the definition language gives them.
pub open spec fn rust_type_name(ty: TypeIdModel) -> Seq<char>
    decreases ty,
{
    match ty {
        TypeIdModel::U8 => "u8"@,
        TypeIdModel::U16 => "u16"@,
        TypeIdModel::U32 => "u32"@,
        TypeIdModel::U64 => "u64"@,
        TypeIdModel::S8 => "s8"@,
        TypeIdModel::S16 => "s16"@,
        TypeIdModel::S32 => "s32"@,
        TypeIdModel::S64 => "s64"@,
        TypeIdModel::Instant => "std::time::SystemTime"@,
        TypeIdModel::Guid => "uuid::Uuid"@,
        TypeIdModel::String => "String"@,
        TypeIdModel::Void => "()"@,
        TypeIdModel::Binary => "Vec<u8>"@,
        TypeIdModel::OtherStruct(name) => name,
        TypeIdModel::Enum(name) => name,
        TypeIdModel::Optional(inner) => "Option<"@ + rust_type_name(*inner) + ">"@,
        TypeIdModel::Array(inner) => "Vec<"@ + rust_type_name(*inner) + ">"@,
    }
}

/// Writes a resolved type as Rust source.
pub fn to_rust_type_name(type_: &TypedFieldType) -> (name: String)
    ensures
        name@ == rust_type_name(type_@),
    decreases type_,
{
    match type_ {
        TypedFieldType::U8 => String::from_str("u8"),
        TypedFieldType::U16 => String::from_str("u16"),
        TypedFieldType::U32 => String::from_str("u32"),
        TypedFieldType::U64 => String::from_str("u64"),
        TypedFieldType::S8 => String::from_str("s8"),
        TypedFieldType::S16 => String::from_str("s16"),
        TypedFieldType::S32 => String::from_str("s32"),
        TypedFieldType::S64 => String::from_str("s64"),
        TypedFieldType::Instant => String::from_str("std::time::SystemTime"),
        TypedFieldType::Guid => String::from_str("uuid::Uuid"),
        TypedFieldType::String => String::from_str("String"),
        TypedFieldType::Void => String::from_str("()"),
        TypedFieldType::Binary => String::from_str("Vec<u8>"),
        TypedFieldType::OtherStruct(name) => name.clone(),
        TypedFieldType::Enum(name) => name.clone(),
        TypedFieldType::Optional(inner) => {
            let mut name = String::from_str("Option<");
            let element = to_rust_type_name(inner);
            name.append(element.as_str());
            name.append(">");
            name
        },
        TypedFieldType::Array(inner) => {
            let mut name = String::from_str("Vec<");
            let element = to_rust_type_name(inner);
            name.append(element.as_str());
            name.append(">");
            name
        },
    }
}

} // verus!
