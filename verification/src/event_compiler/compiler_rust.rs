//! The Rust source of a checked event file: one struct for the metadata,
//! one for each struct of the file, an enum with one variant for each
//! message, and the struct that holds the metadata and the payload of a
//! message.

use vstd::prelude::*;
use vstd::string::*;
use crate::event_compiler::type_checking::{
    TypeIdModel, TypedDefinitionModel, TypedField, TypedFieldModel, TypedFieldType, TypedFile,
    TypedFileModel, TypedMessage, TypedStruct, typed_fields_view, typed_messages_view,
    typed_structs_view,
};

verus! {

/// The Rust spelling of a resolved type. The signed integers keep the names
/// that the definition language gives them.
pub open spec fn rust_type(ty: TypeIdModel) -> Seq<char> {
    match ty {
        TypeIdModel::U8 => "u8"@,
        TypeIdModel::U16 => "u16"@,
        TypeIdModel::U32 => "u32"@,
        TypeIdModel::U64 => "u64"@,
        TypeIdModel::S8 => "s8"@,
        TypeIdModel::S16 => "s16"@,
        TypeIdModel::S32 => "s32"@,
        TypeIdModel::S64 => "s64"@,
        TypeIdModel::Instant => "std::time::SystemTime"@,
        TypeIdModel::Guid => "::uuid::Uuid"@,
        TypeIdModel::String => "String"@,
        TypeIdModel::OtherStruct(name) => name,
    }
}

/// Writes a resolved type as Rust source.
pub fn to_rust_type(type_: &TypedFieldType) -> (name: &str)
    ensures
        name@ == rust_type(type_@),
{
    match type_ {
        TypedFieldType::U8 => "u8",
        TypedFieldType::U16 => "u16",
        TypedFieldType::U32 => "u32",
        TypedFieldType::U64 => "u64",
        TypedFieldType::S8 => "s8",
        TypedFieldType::S16 => "s16",
        TypedFieldType::S32 => "s32",
        TypedFieldType::S64 => "s64",
        TypedFieldType::Instant => "std::time::SystemTime",
        TypedFieldType::Guid => "::uuid::Uuid",
        TypedFieldType::String => "String",
        TypedFieldType::OtherStruct(name) => name.as_str(),
    }
}

/// Four spaces for each level of depth.
pub open spec fn indentation(depth: nat) -> Seq<char>
    decreases depth,
{
    if depth == 0 {
        Seq::empty()
    } else {
        indentation((depth - 1) as nat) + "    "@
    }
}

/// The line of a field, after the attribute that a point in time needs.
pub open spec fn field_text(field: TypedFieldModel, public: bool, depth: nat) -> Seq<char> {
    let attribute = if field.type_id is Instant {
        indentation(depth) + "#[serde(with = \"crate::system_time_serializer\")]\n"@
    } else {
        Seq::empty()
    };
    attribute + indentation(depth) + (if public {
        "pub "@
    } else {
        ""@
    }) + field.name + ": "@ + rust_type(field.type_id) + ",\n"@
}

/// The lines of the fields, in order.
pub open spec fn fields_text(fields: Seq<TypedFieldModel>, public: bool, depth: nat) -> Seq<char>
    decreases fields.len(),
{
    if fields.len() == 0 {
        Seq::empty()
    } else {
        fields_text(fields.drop_last(), public, depth) + field_text(fields.last(), public, depth)
    }
}

fn indent(depth: usize) -> (text: String)
    ensures
        text@ == indentation(depth as nat),
{
    let mut text = String::new();
    let mut level: usize = 0;
    while level < depth
        invariant
            level <= depth,
            text@ == indentation(level as nat),
        decreases depth - level,
    {
        text.append("    ");
        level += 1;
    }
    text
}

/// Writes the fields of a struct or of a variant, one line each.
pub fn render_fields(fields: &[TypedField], public: bool, depth: usize) -> (text: String)
    ensures
        text@ == fields_text(typed_fields_view(fields@), public, depth as nat),
{
    let ghost models = typed_fields_view(fields@);
    let mut result = String::new();
    let indent = indent(depth);
    let mut i: usize = 0;
    assert(models.take(0) =~= Seq::<TypedFieldModel>::empty());
    while i < fields.len()
        invariant
            i <= fields.len(),
            models == typed_fields_view(fields@),
            indent@ == indentation(depth as nat),
            result@ == fields_text(models.take(i as int), public, depth as nat),
        decreases fields.len() - i,
    {
        let f = &fields[i];
        let ghost before = result@;
        let ghost model = models[i as int];
        proof {
            assert(model == f@);
            assert(models.take(i + 1).drop_last() =~= models.take(i as int));
            assert(models.take(i + 1).last() == model);
        }
        let mut line = String::new();
        if let TypedFieldType::Instant = f.field_type() {
            line.append(indent.as_str());
            line.append("#[serde(with = \"crate::system_time_serializer\")]\n");
        }
        proof {
            assert(Seq::<char>::empty() + indentation(depth as nat) =~= indentation(depth as nat));
        }
        line.append(indent.as_str());
        line.append(
            if public {
                "pub "
            } else {
                ""
            },
        );
        line.append(f.name());
        line.append(": ");
        line.append(to_rust_type(f.field_type()));
        line.append(",\n");
        assert(line@ =~= field_text(model, public, depth as nat));
        result.append(line.as_str());
        i += 1;
    }
    assert(models.take(fields.len() as int) =~= models);
    result
}

/// The struct that is written for a struct of the file.
pub open spec fn struct_text(definition: TypedDefinitionModel) -> Seq<char> {
    "#[derive(Serialize, Deserialize, Debug)]\n"@ + "pub struct "@ + definition.name + " {\n"@
        + fields_text(definition.fields, true, 1) + "}\n"@
}

pub open spec fn structs_text(structs: Seq<TypedDefinitionModel>) -> Seq<char>
    decreases structs.len(),
{
    if structs.len() == 0 {
        Seq::empty()
    } else {
        structs_text(structs.drop_last()) + struct_text(structs.last())
    }
}

/// The variant that is written for a message.
pub open spec fn message_text(message: TypedDefinitionModel) -> Seq<char> {
    "    "@ + message.name + " {\n"@ + fields_text(message.fields, false, 2) + "    },\n"@
}

pub open spec fn messages_text(messages: Seq<TypedDefinitionModel>) -> Seq<char>
    decreases messages.len(),
{
    if messages.len() == 0 {
        Seq::empty()
    } else {
        messages_text(messages.drop_last()) + message_text(messages.last())
    }
}

/// The source that is written for a checked file.
pub open spec fn compiled(file: TypedFileModel) -> Seq<char> {
    "use serde::{Deserialize, Serialize};\n"@ + "#[derive(Serialize, Deserialize, Debug)]\n"@
        + "pub struct Metadata {\n"@ + fields_text(file.meta, true, 1) + "}\n"@ + structs_text(
        file.structs,
    ) + "\n"@ + "#[derive(Serialize, Deserialize, Debug)]\n"@ + "#[serde(tag = \"type\")]\n"@
        + "pub enum MessagePayload {\n"@ + messages_text(file.messages) + "}\n"@
        + "#[derive(Serialize, Deserialize, Debug)]\n"@ + "pub struct Message {\n"@
        + "    pub metadata: Metadata,\n"@ + "    pub payload: MessagePayload,\n"@ + "}\n"@
}

fn render_structs(structs: &Vec<TypedStruct>) -> (text: String)
    ensures
        text@ == structs_text(typed_structs_view(structs@)),
{
    let ghost models = typed_structs_view(structs@);
    let mut result = String::new();
    let mut i: usize = 0;
    assert(models.take(0) =~= Seq::<TypedDefinitionModel>::empty());
    while i < structs.len()
        invariant
            i <= structs.len(),
            models == typed_structs_view(structs@),
            result@ == structs_text(models.take(i as int)),
        decreases structs.len() - i,
    {
        let s = &structs[i];
        proof {
            assert(models[i as int] == s@);
            assert(models.take(i + 1).drop_last() =~= models.take(i as int));
            assert(models.take(i + 1).last() == s@);
        }
        let mut text = String::from_str("#[derive(Serialize, Deserialize, Debug)]\n");
        text.append("pub struct ");
        text.append(s.name());
        text.append(" {\n");
        let fields = render_fields(s.fields(), true, 1);
        text.append(fields.as_str());
        text.append("}\n");
        assert(text@ =~= struct_text(s@));
        result.append(text.as_str());
        i += 1;
    }
    assert(models.take(structs.len() as int) =~= models);
    result
}

fn render_messages(messages: &Vec<TypedMessage>) -> (text: String)
    ensures
        text@ == messages_text(typed_messages_view(messages@)),
{
    let ghost models = typed_messages_view(messages@);
    let mut result = String::new();
    let mut i: usize = 0;
    assert(models.take(0) =~= Seq::<TypedDefinitionModel>::empty());
    while i < messages.len()
        invariant
            i <= messages.len(),
            models == typed_messages_view(messages@),
            result@ == messages_text(models.take(i as int)),
        decreases messages.len() - i,
    {
        let m = &messages[i];
        proof {
            assert(models[i as int] == m@);
            assert(models.take(i + 1).drop_last() =~= models.take(i as int));
            assert(models.take(i + 1).last() == m@);
        }
        let mut text = String::from_str("    ");
        text.append(m.name());
        text.append(" {\n");
        let fields = render_fields(m.fields(), false, 2);
        text.append(fields.as_str());
        text.append("    },\n");
        assert(text@ =~= message_text(m@));
        result.append(text.as_str());
        i += 1;
    }
    assert(models.take(messages.len() as int) =~= models);
    result
}

/// Writes the Rust source of a checked file.
#[must_use]
pub fn compile(file: TypedFile) -> (source: String)
    ensures
        source@ == compiled(file@),
{
    let mut result = String::from_str("use serde::{Deserialize, Serialize};\n");
    result.append("#[derive(Serialize, Deserialize, Debug)]\n");
    result.append("pub struct Metadata {\n");
    let meta = render_fields(file.meta.fields(), true, 1);
    result.append(meta.as_str());
    result.append("}\n");
    let structs = render_structs(&file.structs);
    result.append(structs.as_str());
    result.append("\n");
    result.append("#[derive(Serialize, Deserialize, Debug)]\n");
    result.append("#[serde(tag = \"type\")]\n");
    result.append("pub enum MessagePayload {\n");
    let messages = render_messages(&file.messages);
    result.append(messages.as_str());
    result.append("}\n");
    result.append("#[derive(Serialize, Deserialize, Debug)]\n");
    result.append("pub struct Message {\n");
    result.append("    pub metadata: Metadata,\n");
    result.append("    pub payload: MessagePayload,\n");
    result.append("}\n");
    result
}

} // verus!
