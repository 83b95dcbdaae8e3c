//! The type checker of interface definition files.
//!
//! Checking resolves every type reference of a parsed file against the
//! primitive types and the structs and enums that the file defines, rejects
//! repeated names, and orders the structs so that each one comes after the
//! structs that its fields hold directly.

use vstd::prelude::*;
use vstd::string::*;
use crate::graph::{edge_relation, is_edge, is_topological_order, is_walk, on_cycle, toposort};
use crate::graph::{lemma_is_edge_push, lemma_ordered_graph_has_no_cycle, relates_nodes_only};
use crate::message_compiler::parsing::{
    EnumDefinitionRaw, EnumModel, EnumVariantRaw, FieldModel, FieldRaw, FileModel, FileRaw,
    IdentifierRaw, RpcDefinitionModel, RpcRaw, StructDefinitionRaw, StructModel, TypeModel,
    TypeRaw, VariantModel, enums_view, fields_view, rpc_definitions_view, structs_view,
    variants_view,
};
use crate::text::{contains_name, lemma_texts_push, position_of, str_eq, texts};

verus! {

/// The model of a type-check error: the names it reports, as text.
pub ghost enum TypeCheckErrorModel {
    RepeatedName(Seq<char>),
    RepeatedFieldName { field_name: Seq<char>, struct_name: Seq<char> },
    StructNotFound(Seq<char>),
    CyclicDependency(Seq<char>),
}

/// Why a file was rejected.
#[derive(Debug)]
pub enum TypeCheckError {
    /// A struct or enum has the name of an earlier one.
    RepeatedName(String),
    /// A struct, a variant or the metadata block has two fields of one name.
    RepeatedFieldName { field_name: String, struct_name: String },
    /// A type reference names neither a primitive nor a defined struct or enum.
    StructNotFound(String),
    /// The named struct holds itself, directly or through other structs.
    CyclicDependency(String),
}

impl View for TypeCheckError {
    type V = TypeCheckErrorModel;

    open spec fn view(&self) -> TypeCheckErrorModel {
        match self {
            TypeCheckError::RepeatedName(name) => TypeCheckErrorModel::RepeatedName(name@),
            TypeCheckError::RepeatedFieldName { field_name, struct_name } => {
                TypeCheckErrorModel::RepeatedFieldName {
                    field_name: field_name@,
                    struct_name: struct_name@,
                }
            },
            TypeCheckError::StructNotFound(name) => TypeCheckErrorModel::StructNotFound(name@),
            TypeCheckError::CyclicDependency(name) => TypeCheckErrorModel::CyclicDependency(name@),
        }
    }
}

/// The sentence that describes an error.
pub open spec fn error_message(error: TypeCheckErrorModel) -> Seq<char> {
    match error {
        TypeCheckErrorModel::RepeatedName(name) => "The type with name \""@ + name
            + "\" already exists"@,
        TypeCheckErrorModel::RepeatedFieldName { field_name, struct_name } => {
            "A field with name \""@ + field_name + "\" already exists in struct \""@ + struct_name
                + "\""@
        },
        TypeCheckErrorModel::StructNotFound(name) => "A struct with name \""@ + name
            + "\" does not exist"@,
        TypeCheckErrorModel::CyclicDependency(name) => "The struct with name \""@ + name
            + "\" depends on itself"@,
    }
}

impl TypeCheckError {
    /// The error as a sentence for the user.
    pub fn to_string(&self) -> (message: String)
        ensures
            message@ == error_message(self@),
    {
        match self {
            TypeCheckError::RepeatedName(name) => {
                let mut message = String::from_str("The type with name \"");
                message.append(name.as_str());
                message.append("\" already exists");
                message
            },
            TypeCheckError::RepeatedFieldName { field_name, struct_name } => {
                let mut message = String::from_str("A field with name \"");
                message.append(field_name.as_str());
                message.append("\" already exists in struct \"");
                message.append(struct_name.as_str());
                message.append("\"");
                message
            },
            TypeCheckError::StructNotFound(name) => {
                let mut message = String::from_str("A struct with name \"");
                message.append(name.as_str());
                message.append("\" does not exist");
                message
            },
            TypeCheckError::CyclicDependency(name) => {
                let mut message = String::from_str("The struct with name \"");
                message.append(name.as_str());
                message.append("\" depends on itself");
                message
            },
        }
    }
}

/// The model of a resolved type.
pub ghost enum TypeIdModel {
    U8,
    U16,
    U32,
    U64,
    S8,
    S16,
    S32,
    S64,
    Instant,
    Guid,
    String,
    Void,
    Binary,
    OtherStruct(Seq<char>),
    Enum(Seq<char>),
    Optional(Box<TypeIdModel>),
    Array(Box<TypeIdModel>),
}

/// A resolved type: a primitive, a struct or enum of the file, or an
/// optional or array of a resolved type.
#[derive(Debug)]
pub enum TypedFieldType {
    U8,
    U16,
    U32,
    U64,
    S8,
    S16,
    S32,
    S64,
    Instant,
    Guid,
    String,
    Void,
    Binary,
    OtherStruct(String),
    Enum(String),
    Optional(Box<TypedFieldType>),
    Array(Box<TypedFieldType>),
}

/// The model of a resolved type.
pub open spec fn type_id_model(ty: TypedFieldType) -> TypeIdModel
    decreases ty,
{
    match ty {
        TypedFieldType::U8 => TypeIdModel::U8,
        TypedFieldType::U16 => TypeIdModel::U16,
        TypedFieldType::U32 => TypeIdModel::U32,
        TypedFieldType::U64 => TypeIdModel::U64,
        TypedFieldType::S8 => TypeIdModel::S8,
        TypedFieldType::S16 => TypeIdModel::S16,
        TypedFieldType::S32 => TypeIdModel::S32,
        TypedFieldType::S64 => TypeIdModel::S64,
        TypedFieldType::Instant => TypeIdModel::Instant,
        TypedFieldType::Guid => TypeIdModel::Guid,
        TypedFieldType::String => TypeIdModel::String,
        TypedFieldType::Void => TypeIdModel::Void,
        TypedFieldType::Binary => TypeIdModel::Binary,
        TypedFieldType::OtherStruct(name) => TypeIdModel::OtherStruct(name@),
        TypedFieldType::Enum(name) => TypeIdModel::Enum(name@),
        TypedFieldType::Optional(inner) => TypeIdModel::Optional(Box::new(type_id_model(*inner))),
        TypedFieldType::Array(inner) => TypeIdModel::Array(Box::new(type_id_model(*inner))),
    }
}

impl View for TypedFieldType {
    type V = TypeIdModel;

    open spec fn view(&self) -> TypeIdModel {
        type_id_model(*self)
    }
}

pub ghost struct TypedFieldModel {
    pub name: Seq<char>,
    pub type_id: TypeIdModel,
}

/// A field with its resolved type.
#[derive(Debug)]
pub struct TypedField {
    pub name: String,
    pub type_id: TypedFieldType,
}

impl View for TypedField {
    type V = TypedFieldModel;

    open spec fn view(&self) -> TypedFieldModel {
        TypedFieldModel { name: self.name@, type_id: self.type_id@ }
    }
}

impl TypedField {
    #[must_use]
    pub fn name(&self) -> (name: &str)
        ensures
            name@ == self@.name,
    {
        self.name.as_str()
    }

    #[must_use]
    pub fn field_type(&self) -> (type_id: &TypedFieldType)
        ensures
            type_id@ == self@.type_id,
    {
        &self.type_id
    }
}

pub open spec fn typed_fields_view(fields: Seq<TypedField>) -> Seq<TypedFieldModel> {
    Seq::new(fields.len(), |i: int| fields[i]@)
}

pub ghost struct TypedStructModel {
    pub name: Seq<char>,
    pub fields: Seq<TypedFieldModel>,
}

/// A struct with the resolved types of its fields.
#[derive(Debug)]
pub struct TypedStruct {
    pub name: String,
    pub fields: Vec<TypedField>,
}

impl View for TypedStruct {
    type V = TypedStructModel;

    open spec fn view(&self) -> TypedStructModel {
        TypedStructModel { name: self.name@, fields: typed_fields_view(self.fields@) }
    }
}

impl TypedStruct {
    #[must_use]
    pub fn name(&self) -> (name: &str)
        ensures
            name@ == self@.name,
    {
        self.name.as_str()
    }

    #[must_use]
    pub fn fields(&self) -> (fields: &[TypedField])
        ensures
            typed_fields_view(fields@) == self@.fields,
    {
        self.fields.as_slice()
    }
}

pub open spec fn typed_structs_view(structs: Seq<TypedStruct>) -> Seq<TypedStructModel> {
    Seq::new(structs.len(), |i: int| structs[i]@)
}

pub ghost struct TypedVariantModel {
    pub name: Seq<char>,
    pub fields: Seq<TypedFieldModel>,
}

/// A variant of an enum with the resolved types of its fields.
#[derive(Debug)]
pub struct TypedEnumVariant {
    pub name: String,
    pub fields: Vec<TypedField>,
}

impl View for TypedEnumVariant {
    type V = TypedVariantModel;

    open spec fn view(&self) -> TypedVariantModel {
        TypedVariantModel { name: self.name@, fields: typed_fields_view(self.fields@) }
    }
}

impl TypedEnumVariant {
    #[must_use]
    pub fn name(&self) -> (name: &str)
        ensures
            name@ == self@.name,
    {
        self.name.as_str()
    }

    #[must_use]
    pub fn fields(&self) -> (fields: &[TypedField])
        ensures
            typed_fields_view(fields@) == self@.fields,
    {
        self.fields.as_slice()
    }
}

pub open spec fn typed_variants_view(variants: Seq<TypedEnumVariant>) -> Seq<TypedVariantModel> {
    Seq::new(variants.len(), |i: int| variants[i]@)
}

pub ghost struct TypedEnumModel {
    pub name: Seq<char>,
    pub variants: Seq<TypedVariantModel>,
}

/// An enum with its variants in the order written.
#[derive(Debug)]
pub struct TypedEnum {
    pub name: String,
    pub variants: Vec<TypedEnumVariant>,
}

impl View for TypedEnum {
    type V = TypedEnumModel;

    open spec fn view(&self) -> TypedEnumModel {
        TypedEnumModel { name: self.name@, variants: typed_variants_view(self.variants@) }
    }
}

impl TypedEnum {
    #[must_use]
    pub fn name(&self) -> (name: &str)
        ensures
            name@ == self@.name,
    {
        self.name.as_str()
    }

    #[must_use]
    pub fn variants(&self) -> (variants: &[TypedEnumVariant])
        ensures
            typed_variants_view(variants@) == self@.variants,
    {
        self.variants.as_slice()
    }
}

pub open spec fn typed_enums_view(enums: Seq<TypedEnum>) -> Seq<TypedEnumModel> {
    Seq::new(enums.len(), |i: int| enums[i]@)
}

/// The metadata block with the resolved types of its fields.
pub struct TypedMetadata {
    pub fields: Vec<TypedField>,
}

impl View for TypedMetadata {
    type V = Seq<TypedFieldModel>;

    open spec fn view(&self) -> Seq<TypedFieldModel> {
        typed_fields_view(self.fields@)
    }
}

impl TypedMetadata {
    #[must_use]
    pub fn fields(&self) -> (fields: &[TypedField])
        ensures
            typed_fields_view(fields@) == self@,
    {
        self.fields.as_slice()
    }
}

pub ghost enum TypedRpcCallModel {
    Stream { name: Seq<char>, request: TypeIdModel, response: TypeIdModel },
    Unary { name: Seq<char>, request: TypeIdModel, response: TypeIdModel },
}

/// A call with resolved request and response types. A stream call answers
/// with a sequence of responses, a unary call with one.
pub enum TypedRpcCall {
    Stream { name: String, request: TypedFieldType, response: TypedFieldType },
    Unary { name: String, request: TypedFieldType, response: TypedFieldType },
}

impl View for TypedRpcCall {
    type V = TypedRpcCallModel;

    open spec fn view(&self) -> TypedRpcCallModel {
        match self {
            TypedRpcCall::Stream { name, request, response } => TypedRpcCallModel::Stream {
                name: name@,
                request: request@,
                response: response@,
            },
            TypedRpcCall::Unary { name, request, response } => TypedRpcCallModel::Unary {
                name: name@,
                request: request@,
                response: response@,
            },
        }
    }
}

pub open spec fn typed_calls_view(calls: Seq<TypedRpcCall>) -> Seq<TypedRpcCallModel> {
    Seq::new(calls.len(), |i: int| calls[i]@)
}

/// The calls that the side that accepts a connection answers.
pub struct TypedRpc {
    pub calls: Vec<TypedRpcCall>,
}

impl View for TypedRpc {
    type V = Seq<TypedRpcCallModel>;

    open spec fn view(&self) -> Seq<TypedRpcCallModel> {
        typed_calls_view(self.calls@)
    }
}

impl TypedRpc {
    #[must_use]
    pub fn calls(&self) -> (calls: &[TypedRpcCall])
        ensures
            typed_calls_view(calls@) == self@,
    {
        self.calls.as_slice()
    }
}

/// The calls that the side that opens a connection answers.
pub struct TypedReverseRpc {
    pub calls: Vec<TypedRpcCall>,
}

impl View for TypedReverseRpc {
    type V = Seq<TypedRpcCallModel>;

    open spec fn view(&self) -> Seq<TypedRpcCallModel> {
        typed_calls_view(self.calls@)
    }
}

impl TypedReverseRpc {
    #[must_use]
    pub fn calls(&self) -> (calls: &[TypedRpcCall])
        ensures
            typed_calls_view(calls@) == self@,
    {
        self.calls.as_slice()
    }
}

pub ghost struct TypedFileModel {
    pub structs: Seq<TypedStructModel>,
    pub enums: Seq<TypedEnumModel>,
    pub meta: Seq<TypedFieldModel>,
    pub rpc: Seq<TypedRpcCallModel>,
    pub reverse_rpc: Seq<TypedRpcCallModel>,
}

/// A checked file. The structs stand in dependency order: each one after the
/// structs that its fields hold directly.
pub struct TypedFile {
    pub structs: Vec<TypedStruct>,
    pub enums: Vec<TypedEnum>,
    pub meta: TypedMetadata,
    pub rpc: TypedRpc,
    pub reverse_rpc: TypedReverseRpc,
}

impl View for TypedFile {
    type V = TypedFileModel;

    open spec fn view(&self) -> TypedFileModel {
        TypedFileModel {
            structs: typed_structs_view(self.structs@),
            enums: typed_enums_view(self.enums@),
            meta: self.meta@,
            rpc: self.rpc@,
            reverse_rpc: self.reverse_rpc@,
        }
    }
}

/// The primitive type that `name` denotes, if it denotes one.
pub open spec fn primitive_type(name: Seq<char>) -> Option<TypeIdModel> {
    if name == "u8"@ {
        Some(TypeIdModel::U8)
    } else if name == "u16"@ {
        Some(TypeIdModel::U16)
    } else if name == "u32"@ {
        Some(TypeIdModel::U32)
    } else if name == "u64"@ {
        Some(TypeIdModel::U64)
    } else if name == "s8"@ {
        Some(TypeIdModel::S8)
    } else if name == "s16"@ {
        Some(TypeIdModel::S16)
    } else if name == "s32"@ {
        Some(TypeIdModel::S32)
    } else if name == "s64"@ {
        Some(TypeIdModel::S64)
    } else if name == "instant"@ {
        Some(TypeIdModel::Instant)
    } else if name == "guid"@ {
        Some(TypeIdModel::Guid)
    } else if name == "string"@ {
        Some(TypeIdModel::String)
    } else if name == "void"@ {
        Some(TypeIdModel::Void)
    } else if name == "binary"@ {
        Some(TypeIdModel::Binary)
    } else {
        None
    }
}

/// What a bare name denotes among the primitives, the structs and the enums,
/// in that order of precedence.
pub open spec fn base_type(name: Seq<char>, structs: Seq<Seq<char>>, enums: Seq<Seq<char>>) -> Option<
    TypeIdModel,
> {
    match primitive_type(name) {
        Some(t) => Some(t),
        None => if structs.contains(name) {
            Some(TypeIdModel::OtherStruct(name))
        } else if enums.contains(name) {
            Some(TypeIdModel::Enum(name))
        } else {
            None
        },
    }
}

/// `element` inside `depth` arrays.
pub open spec fn array_of(element: TypeIdModel, depth: nat) -> TypeIdModel
    decreases depth,
{
    if depth == 0 {
        element
    } else {
        TypeIdModel::Array(Box::new(array_of(element, (depth - 1) as nat)))
    }
}

/// The resolved form of a type reference, where its name denotes a type.
pub open spec fn resolved_type(ty: TypeModel, structs: Seq<Seq<char>>, enums: Seq<Seq<char>>) -> Option<
    TypeIdModel,
> {
    match base_type(ty.name, structs, enums) {
        None => None,
        Some(base) => Some(
            array_of(
                if ty.optional {
                    TypeIdModel::Optional(Box::new(base))
                } else {
                    base
                },
                ty.array_depth,
            ),
        ),
    }
}

/// The error that a type reference gives: its name, where it denotes nothing.
pub open spec fn type_error(ty: TypeModel, structs: Seq<Seq<char>>, enums: Seq<Seq<char>>) -> Option<
    TypeCheckErrorModel,
> {
    if base_type(ty.name, structs, enums) is None {
        Some(TypeCheckErrorModel::StructNotFound(ty.name))
    } else {
        None
    }
}

/// The first entry of `items` that holds an error.
pub open spec fn first_error<A>(items: Seq<Option<A>>) -> Option<A>
    decreases items.len(),
{
    if items.len() == 0 {
        None
    } else if items[0] is Some {
        items[0]
    } else {
        first_error(items.drop_first())
    }
}

/// Where no entry before `i` holds an error and entry `i` does, it is the
/// first error.
pub proof fn lemma_first_error_at<A>(items: Seq<Option<A>>, i: int)
    requires
        0 <= i < items.len(),
        forall|j: int| 0 <= j < i ==> items[j] is None,
        items[i] is Some,
    ensures
        first_error(items) == items[i],
    decreases i,
{
    if i > 0 {
        lemma_first_error_at(items.drop_first(), i - 1);
    }
}

/// Where there is no first error, no entry holds one.
pub proof fn lemma_no_first_error<A>(items: Seq<Option<A>>, i: int)
    requires
        first_error(items) is None,
        0 <= i < items.len(),
    ensures
        items[i] is None,
    decreases i,
{
    if i > 0 {
        lemma_no_first_error(items.drop_first(), i - 1);
    }
}

/// Where no entry holds an error, there is no first error.
pub proof fn lemma_first_error_none<A>(items: Seq<Option<A>>)
    requires
        forall|j: int| 0 <= j < items.len() ==> items[j] is None,
    ensures
        first_error(items) is None,
    decreases items.len(),
{
    if items.len() > 0 {
        lemma_first_error_none(items.drop_first());
    }
}

/// The first unresolved type among the fields, in the order written.
pub open spec fn fields_resolution_error(
    fields: Seq<FieldModel>,
    structs: Seq<Seq<char>>,
    enums: Seq<Seq<char>>,
) -> Option<TypeCheckErrorModel> {
    first_error(Seq::new(fields.len(), |k: int| type_error(fields[k].field_type, structs, enums)))
}

/// The fields with their resolved types, in the order written.
pub open spec fn typed_fields(fields: Seq<FieldModel>, structs: Seq<Seq<char>>, enums: Seq<Seq<char>>) -> Seq<
    TypedFieldModel,
> {
    Seq::new(
        fields.len(),
        |k: int|
            TypedFieldModel {
                name: fields[k].name,
                type_id: resolved_type(fields[k].field_type, structs, enums).unwrap(),
            },
    )
}

/// The first of two results that holds an error.
pub open spec fn or_else<A>(first: Option<A>, second: Option<A>) -> Option<A> {
    if first is Some {
        first
    } else {
        second
    }
}

pub open spec fn field_names_of(fields: Seq<FieldModel>) -> Seq<Seq<char>> {
    Seq::new(fields.len(), |k: int| fields[k].name)
}

pub open spec fn struct_names_of(structs: Seq<StructModel>) -> Seq<Seq<char>> {
    Seq::new(structs.len(), |i: int| structs[i].name)
}

pub open spec fn enum_names_of(enums: Seq<EnumModel>) -> Seq<Seq<char>> {
    Seq::new(enums.len(), |i: int| enums[i].name)
}

/// The error of field `k`: its name stands on an earlier field of `fields`.
pub open spec fn field_name_error(fields: Seq<FieldModel>, k: int, owner: Seq<char>) -> Option<
    TypeCheckErrorModel,
> {
    if field_names_of(fields).take(k).contains(fields[k].name) {
        Some(TypeCheckErrorModel::RepeatedFieldName { field_name: fields[k].name, struct_name: owner })
    } else {
        None
    }
}

/// The first field that repeats the name of an earlier one, reported under
/// the name of the definition that owns the fields.
pub open spec fn fields_name_error(fields: Seq<FieldModel>, owner: Seq<char>) -> Option<
    TypeCheckErrorModel,
> {
    first_error(Seq::new(fields.len(), |k: int| field_name_error(fields, k, owner)))
}

/// The error of struct `i`: its name stands on an earlier struct, or else two
/// of its fields share a name.
pub open spec fn struct_error(structs: Seq<StructModel>, i: int) -> Option<TypeCheckErrorModel> {
    if struct_names_of(structs).take(i).contains(structs[i].name) {
        Some(TypeCheckErrorModel::RepeatedName(structs[i].name))
    } else {
        fields_name_error(structs[i].fields, structs[i].name)
    }
}

pub open spec fn structs_error(structs: Seq<StructModel>) -> Option<TypeCheckErrorModel> {
    first_error(Seq::new(structs.len(), |i: int| struct_error(structs, i)))
}

/// The first variant with two fields of one name, reported under the name of
/// the enum.
pub open spec fn variants_name_error(variants: Seq<VariantModel>, owner: Seq<char>) -> Option<
    TypeCheckErrorModel,
> {
    first_error(Seq::new(variants.len(), |v: int| fields_name_error(variants[v].fields, owner)))
}

/// The error of enum `i`: its name stands on a struct or on an earlier enum,
/// or else one of its variants has two fields of one name.
pub open spec fn enum_error(struct_names: Seq<Seq<char>>, enums: Seq<EnumModel>, i: int) -> Option<
    TypeCheckErrorModel,
> {
    if struct_names.contains(enums[i].name) || enum_names_of(enums).take(i).contains(enums[i].name) {
        Some(TypeCheckErrorModel::RepeatedName(enums[i].name))
    } else {
        variants_name_error(enums[i].variants, enums[i].name)
    }
}

pub open spec fn enums_error(struct_names: Seq<Seq<char>>, enums: Seq<EnumModel>) -> Option<
    TypeCheckErrorModel,
> {
    first_error(Seq::new(enums.len(), |i: int| enum_error(struct_names, enums, i)))
}

pub open spec fn metadata_name_error(metadata: Option<Seq<FieldModel>>) -> Option<
    TypeCheckErrorModel,
> {
    match metadata {
        Some(fields) => fields_name_error(fields, "metadata"@),
        None => None,
    }
}

pub open spec fn structs_resolution_error(
    structs: Seq<StructModel>,
    struct_names: Seq<Seq<char>>,
    enum_names: Seq<Seq<char>>,
) -> Option<TypeCheckErrorModel> {
    first_error(
        Seq::new(
            structs.len(),
            |i: int| fields_resolution_error(structs[i].fields, struct_names, enum_names),
        ),
    )
}

pub open spec fn variants_resolution_error(
    variants: Seq<VariantModel>,
    struct_names: Seq<Seq<char>>,
    enum_names: Seq<Seq<char>>,
) -> Option<TypeCheckErrorModel> {
    first_error(
        Seq::new(
            variants.len(),
            |v: int| fields_resolution_error(variants[v].fields, struct_names, enum_names),
        ),
    )
}

pub open spec fn enums_resolution_error(
    enums: Seq<EnumModel>,
    struct_names: Seq<Seq<char>>,
    enum_names: Seq<Seq<char>>,
) -> Option<TypeCheckErrorModel> {
    first_error(
        Seq::new(
            enums.len(),
            |i: int| variants_resolution_error(enums[i].variants, struct_names, enum_names),
        ),
    )
}

pub open spec fn metadata_resolution_error(
    metadata: Option<Seq<FieldModel>>,
    struct_names: Seq<Seq<char>>,
    enum_names: Seq<Seq<char>>,
) -> Option<TypeCheckErrorModel> {
    match metadata {
        Some(fields) => fields_resolution_error(fields, struct_names, enum_names),
        None => None,
    }
}

/// The error of a call: its request type is unresolved, or else its response
/// type is.
pub open spec fn call_error(
    call: RpcDefinitionModel,
    struct_names: Seq<Seq<char>>,
    enum_names: Seq<Seq<char>>,
) -> Option<TypeCheckErrorModel> {
    or_else(
        type_error(call.request, struct_names, enum_names),
        type_error(call.response, struct_names, enum_names),
    )
}

pub open spec fn calls_resolution_error(
    calls: Option<Seq<RpcDefinitionModel>>,
    struct_names: Seq<Seq<char>>,
    enum_names: Seq<Seq<char>>,
) -> Option<TypeCheckErrorModel> {
    match calls {
        Some(calls) => first_error(
            Seq::new(calls.len(), |k: int| call_error(calls[k], struct_names, enum_names)),
        ),
        None => None,
    }
}

/// The first error of a file, apart from cycles among its structs. Names are
/// checked first: the structs in the order written, then the enums, then the
/// metadata block. The type references are resolved after that, in the same
/// order, followed by the calls of the forward and of the reverse direction.
pub open spec fn validation_error(file: FileModel) -> Option<TypeCheckErrorModel> {
    let struct_names = struct_names_of(file.structs);
    let enum_names = enum_names_of(file.enums);
    or_else(
        structs_error(file.structs),
        or_else(
            enums_error(struct_names, file.enums),
            or_else(
                metadata_name_error(file.metadata),
                or_else(
                    structs_resolution_error(file.structs, struct_names, enum_names),
                    or_else(
                        enums_resolution_error(file.enums, struct_names, enum_names),
                        or_else(
                            metadata_resolution_error(file.metadata, struct_names, enum_names),
                            or_else(
                                calls_resolution_error(file.rpc, struct_names, enum_names),
                                calls_resolution_error(file.reverse_rpc, struct_names, enum_names),
                            ),
                        ),
                    ),
                ),
            ),
        ),
    )
}

pub open spec fn typed_struct(
    definition: StructModel,
    struct_names: Seq<Seq<char>>,
    enum_names: Seq<Seq<char>>,
) -> TypedStructModel {
    TypedStructModel {
        name: definition.name,
        fields: typed_fields(definition.fields, struct_names, enum_names),
    }
}

pub open spec fn typed_variants(
    variants: Seq<VariantModel>,
    struct_names: Seq<Seq<char>>,
    enum_names: Seq<Seq<char>>,
) -> Seq<TypedVariantModel> {
    Seq::new(
        variants.len(),
        |v: int|
            TypedVariantModel {
                name: variants[v].name,
                fields: typed_fields(variants[v].fields, struct_names, enum_names),
            },
    )
}

pub open spec fn typed_enums(
    enums: Seq<EnumModel>,
    struct_names: Seq<Seq<char>>,
    enum_names: Seq<Seq<char>>,
) -> Seq<TypedEnumModel> {
    Seq::new(
        enums.len(),
        |i: int|
            TypedEnumModel {
                name: enums[i].name,
                variants: typed_variants(enums[i].variants, struct_names, enum_names),
            },
    )
}

pub open spec fn typed_metadata(
    metadata: Option<Seq<FieldModel>>,
    struct_names: Seq<Seq<char>>,
    enum_names: Seq<Seq<char>>,
) -> Seq<TypedFieldModel> {
    match metadata {
        Some(fields) => typed_fields(fields, struct_names, enum_names),
        None => Seq::empty(),
    }
}

pub open spec fn typed_call(
    call: RpcDefinitionModel,
    struct_names: Seq<Seq<char>>,
    enum_names: Seq<Seq<char>>,
) -> TypedRpcCallModel {
    let request = resolved_type(call.request, struct_names, enum_names).unwrap();
    let response = resolved_type(call.response, struct_names, enum_names).unwrap();
    if call.is_stream {
        TypedRpcCallModel::Stream { name: call.name, request, response }
    } else {
        TypedRpcCallModel::Unary { name: call.name, request, response }
    }
}

/// The calls of one direction in the order written; none where the file has
/// no block for that direction.
pub open spec fn typed_calls(
    calls: Option<Seq<RpcDefinitionModel>>,
    struct_names: Seq<Seq<char>>,
    enum_names: Seq<Seq<char>>,
) -> Seq<TypedRpcCallModel> {
    match calls {
        Some(calls) => Seq::new(
            calls.len(),
            |k: int| typed_call(calls[k], struct_names, enum_names),
        ),
        None => Seq::empty(),
    }
}

/// The structs of a file in the given order, with resolved field types.
pub open spec fn typed_structs_in_order(
    structs: Seq<StructModel>,
    order: Seq<usize>,
    struct_names: Seq<Seq<char>>,
    enum_names: Seq<Seq<char>>,
) -> Seq<TypedStructModel> {
    Seq::new(
        order.len(),
        |k: int| typed_struct(structs[order[k] as int], struct_names, enum_names),
    )
}

/// The checked form of a valid file whose structs are emitted in `order`.
pub open spec fn typed_file(file: FileModel, order: Seq<usize>) -> TypedFileModel {
    let struct_names = struct_names_of(file.structs);
    let enum_names = enum_names_of(file.enums);
    TypedFileModel {
        structs: typed_structs_in_order(file.structs, order, struct_names, enum_names),
        enums: typed_enums(file.enums, struct_names, enum_names),
        meta: typed_metadata(file.metadata, struct_names, enum_names),
        rpc: typed_calls(file.rpc, struct_names, enum_names),
        reverse_rpc: typed_calls(file.reverse_rpc, struct_names, enum_names),
    }
}

/// Whether a field holds a struct directly: its type is a bare name, neither
/// optional nor an array, that no primitive has.
pub open spec fn is_direct_reference(ty: TypeModel) -> bool {
    !ty.optional && ty.array_depth == 0 && primitive_type(ty.name) is None
}

/// Whether field `k` of struct `user` directly holds struct `dependency`,
/// the first struct of that name.
pub open spec fn holds_directly(structs: Seq<StructModel>, user: int, k: int, dependency: int) -> bool {
    &&& 0 <= user < structs.len()
    &&& 0 <= k < structs[user].fields.len()
    &&& 0 <= dependency < structs.len()
    &&& is_direct_reference(structs[user].fields[k].field_type)
    &&& structs[user].fields[k].field_type.name == structs[dependency].name
    &&& !struct_names_of(structs).take(dependency).contains(structs[dependency].name)
}

/// Whether struct `user` has a field that directly holds struct `dependency`.
pub open spec fn depends_on(structs: Seq<StructModel>, user: int, dependency: int) -> bool {
    exists|k: int| holds_directly(structs, user, k, dependency)
}

/// The relation of a struct to each struct that holds it directly.
pub open spec fn dependency_relation(structs: Seq<StructModel>) -> spec_fn(int, int) -> bool {
    |dependency: int, user: int| depends_on(structs, user, dependency)
}

/// The names that a file has defined so far.
pub struct TypeChecker {
    structs: Vec<String>,
    enums: Vec<String>,
}

impl TypeChecker {
    /// The names of the structs registered so far.
    pub closed spec fn struct_names(&self) -> Seq<Seq<char>> {
        texts(self.structs@)
    }

    /// The names of the enums registered so far.
    pub closed spec fn enum_names(&self) -> Seq<Seq<char>> {
        texts(self.enums@)
    }

    /// A checker that knows no struct and no enum.
    #[must_use]
    pub fn new() -> (checker: Self)
        ensures
            checker.struct_names() == Seq::<Seq<char>>::empty(),
            checker.enum_names() == Seq::<Seq<char>>::empty(),
    {
        let checker = Self { structs: Vec::new(), enums: Vec::new() };
        assert(checker.struct_names() =~= Seq::<Seq<char>>::empty());
        assert(checker.enum_names() =~= Seq::<Seq<char>>::empty());
        checker
    }

    fn primitive(name: &str) -> (found: Option<TypedFieldType>)
        ensures
            match found {
                Some(t) => primitive_type(name@) == Some(t@),
                None => primitive_type(name@) is None,
            },
    {
        if str_eq(name, "u8") {
            Some(TypedFieldType::U8)
        } else if str_eq(name, "u16") {
            Some(TypedFieldType::U16)
        } else if str_eq(name, "u32") {
            Some(TypedFieldType::U32)
        } else if str_eq(name, "u64") {
            Some(TypedFieldType::U64)
        } else if str_eq(name, "s8") {
            Some(TypedFieldType::S8)
        } else if str_eq(name, "s16") {
            Some(TypedFieldType::S16)
        } else if str_eq(name, "s32") {
            Some(TypedFieldType::S32)
        } else if str_eq(name, "s64") {
            Some(TypedFieldType::S64)
        } else if str_eq(name, "instant") {
            Some(TypedFieldType::Instant)
        } else if str_eq(name, "guid") {
            Some(TypedFieldType::Guid)
        } else if str_eq(name, "string") {
            Some(TypedFieldType::String)
        } else if str_eq(name, "void") {
            Some(TypedFieldType::Void)
        } else if str_eq(name, "binary") {
            Some(TypedFieldType::Binary)
        } else {
            None
        }
    }

    /// Resolves one type reference against the names registered so far.
    pub fn resolve_type(&self, ty: &TypeRaw) -> (resolved: Result<TypedFieldType, TypeCheckError>)
        ensures
            match resolved {
                Ok(t) => resolved_type(ty@, self.struct_names(), self.enum_names()) == Some(t@),
                Err(e) => Some(e@) == type_error(ty@, self.struct_names(), self.enum_names()),
            },
    {
        let name = ty.name.0;
        let base = match Self::primitive(name) {
            Some(t) => t,
            None => {
                if contains_name(&self.structs, name) {
                    TypedFieldType::OtherStruct(name.to_owned())
                } else if contains_name(&self.enums, name) {
                    TypedFieldType::Enum(name.to_owned())
                } else {
                    return Err(TypeCheckError::StructNotFound(name.to_owned()));
                }
            },
        };
        let ghost base_model = base@;
        assert(base_type(ty@.name, self.struct_names(), self.enum_names()) == Some(base_model));
        let mut result = if ty.optional {
            TypedFieldType::Optional(Box::new(base))
        } else {
            base
        };
        let ghost element = result@;
        assert(element == if ty.optional {
            TypeIdModel::Optional(Box::new(base_model))
        } else {
            base_model
        });
        let mut depth: usize = 0;
        while depth < ty.array_depth
            invariant
                depth <= ty.array_depth,
                result@ == array_of(element, depth as nat),
            decreases ty.array_depth - depth,
        {
            result = TypedFieldType::Array(Box::new(result));
            depth += 1;
        }
        Ok(result)
    }

    /// Resolves the types of `fields`, in the order written.
    pub fn type_check_fields(&self, fields: &[FieldRaw]) -> (typed: Result<
        Vec<TypedField>,
        TypeCheckError,
    >)
        ensures
            match typed {
                Ok(v) => fields_resolution_error(
                    fields_view(fields@),
                    self.struct_names(),
                    self.enum_names(),
                ) is None && typed_fields_view(v@) == typed_fields(
                    fields_view(fields@),
                    self.struct_names(),
                    self.enum_names(),
                ),
                Err(e) => Some(e@) == fields_resolution_error(
                    fields_view(fields@),
                    self.struct_names(),
                    self.enum_names(),
                ),
            },
    {
        let ghost models = fields_view(fields@);
        let ghost errors = Seq::new(
            models.len(),
            |k: int| type_error(models[k].field_type, self.struct_names(), self.enum_names()),
        );
        let mut typed: Vec<TypedField> = Vec::new();
        let mut i: usize = 0;
        while i < fields.len()
            invariant
                i <= fields.len(),
                models == fields_view(fields@),
                errors == Seq::new(
                    models.len(),
                    |k: int| type_error(models[k].field_type, self.struct_names(), self.enum_names()),
                ),
                forall|j: int| 0 <= j < i ==> errors[j] is None,
                typed.len() == i,
                forall|j: int|
                    0 <= j < i ==> typed[j]@ == #[trigger] typed_fields(
                        models,
                        self.struct_names(),
                        self.enum_names(),
                    )[j],
            decreases fields.len() - i,
        {
            let field = &fields[i];
            assert(models[i as int] == field@);
            match self.resolve_type(&field.field_type) {
                Ok(type_id) => {
                    typed.push(TypedField { name: field.name.0.to_owned(), type_id });
                },
                Err(e) => {
                    proof {
                        lemma_first_error_at(errors, i as int);
                    }
                    return Err(e);
                },
            }
            i += 1;
        }
        proof {
            lemma_first_error_none(errors);
            assert(typed_fields_view(typed@) =~= typed_fields(
                models,
                self.struct_names(),
                self.enum_names(),
            ));
        }
        Ok(typed)
    }
}

impl TypeChecker {
    /// Rejects a name that a registered struct or enum has.
    pub fn check_duplicate(&self, name: &IdentifierRaw) -> (checked: Result<(), TypeCheckError>)
        ensures
            match checked {
                Ok(()) => !self.struct_names().contains(name@) && !self.enum_names().contains(
                    name@,
                ),
                Err(e) => (self.struct_names().contains(name@) || self.enum_names().contains(
                    name@,
                )) && e@ == TypeCheckErrorModel::RepeatedName(name@),
            },
    {
        if contains_name(&self.structs, name.0) || contains_name(&self.enums, name.0) {
            return Err(TypeCheckError::RepeatedName(name.0.to_owned()));
        }
        Ok(())
    }

    /// Rejects fields of which two share a name. The error names the first
    /// field that repeats an earlier one, and `struct_name` as its owner.
    pub fn map_fields(fields_raw: &[FieldRaw], struct_name: &str) -> (checked: Result<
        (),
        TypeCheckError,
    >)
        ensures
            match checked {
                Ok(()) => fields_name_error(fields_view(fields_raw@), struct_name@) is None,
                Err(e) => Some(e@) == fields_name_error(fields_view(fields_raw@), struct_name@),
            },
    {
        let ghost models = fields_view(fields_raw@);
        let ghost errors = Seq::new(
            models.len(),
            |k: int| field_name_error(models, k, struct_name@),
        );
        let mut seen: Vec<String> = Vec::new();
        let mut k: usize = 0;
        assert(texts(seen@) =~= field_names_of(models).take(0));
        while k < fields_raw.len()
            invariant
                k <= fields_raw.len(),
                models == fields_view(fields_raw@),
                errors == Seq::new(models.len(), |k: int| field_name_error(models, k, struct_name@)),
                texts(seen@) == field_names_of(models).take(k as int),
                forall|j: int| 0 <= j < k ==> errors[j] is None,
            decreases fields_raw.len() - k,
        {
            let field = &fields_raw[k];
            assert(models[k as int] == field@);
            if contains_name(&seen, field.name.0) {
                proof {
                    lemma_first_error_at(errors, k as int);
                }
                return Err(
                    TypeCheckError::RepeatedFieldName {
                        field_name: field.name.0.to_owned(),
                        struct_name: struct_name.to_owned(),
                    },
                );
            }
            let ghost before = seen@;
            let owned = field.name.0.to_owned();
            proof {
                lemma_texts_push(before, owned);
            }
            seen.push(owned);
            assert(field_names_of(models).take(k + 1) =~= field_names_of(models).take(
                k as int,
            ).push(models[k as int].name));
            k += 1;
        }
        proof {
            lemma_first_error_none(errors);
        }
        Ok(())
    }

    /// Rejects variants of which one has two fields of one name.
    pub fn map_enum_variants(variants: &[EnumVariantRaw], name: &str) -> (checked: Result<
        (),
        TypeCheckError,
    >)
        ensures
            match checked {
                Ok(()) => variants_name_error(variants_view(variants@), name@) is None,
                Err(e) => Some(e@) == variants_name_error(variants_view(variants@), name@),
            },
    {
        let ghost models = variants_view(variants@);
        let ghost errors = Seq::new(
            models.len(),
            |v: int| fields_name_error(models[v].fields, name@),
        );
        let mut v: usize = 0;
        while v < variants.len()
            invariant
                v <= variants.len(),
                models == variants_view(variants@),
                errors == Seq::new(models.len(), |v: int| fields_name_error(models[v].fields, name@)),
                forall|j: int| 0 <= j < v ==> errors[j] is None,
            decreases variants.len() - v,
        {
            let variant = &variants[v];
            assert(models[v as int] == variant@);
            match Self::map_fields(variant.fields.as_slice(), name) {
                Ok(()) => {},
                Err(e) => {
                    proof {
                        lemma_first_error_at(errors, v as int);
                    }
                    return Err(e);
                },
            }
            v += 1;
        }
        proof {
            lemma_first_error_none(errors);
        }
        Ok(())
    }

    /// Registers the names of the structs, in the order written, after
    /// checking each struct against those registered before it.
    pub fn register_structs(&mut self, structs: &[StructDefinitionRaw]) -> (checked: Result<
        (),
        TypeCheckError,
    >)
        requires
            old(self).struct_names().len() == 0,
            old(self).enum_names().len() == 0,
        ensures
            final(self).enum_names() == old(self).enum_names(),
            match checked {
                Ok(()) => {
                    &&& structs_error(structs_view(structs@)) is None
                    &&& final(self).struct_names() == struct_names_of(structs_view(structs@))
                },
                Err(e) => Some(e@) == structs_error(structs_view(structs@)),
            },
    {
        let ghost models = structs_view(structs@);
        let ghost errors = Seq::new(models.len(), |i: int| struct_error(models, i));
        let mut i: usize = 0;
        assert(self.struct_names() =~= struct_names_of(models).take(0));
        while i < structs.len()
            invariant
                i <= structs.len(),
                models == structs_view(structs@),
                errors == Seq::new(models.len(), |i: int| struct_error(models, i)),
                self.struct_names() == struct_names_of(models).take(i as int),
                self.enum_names() == old(self).enum_names(),
                self.enum_names().len() == 0,
                forall|j: int| 0 <= j < i ==> errors[j] is None,
            decreases structs.len() - i,
        {
            let definition = &structs[i];
            assert(models[i as int] == definition@);
            match self.check_duplicate(&definition.0) {
                Ok(()) => {},
                Err(e) => {
                    proof {
                        lemma_first_error_at(errors, i as int);
                    }
                    return Err(e);
                },
            }
            match Self::map_fields(definition.1.as_slice(), definition.0.0) {
                Ok(()) => {},
                Err(e) => {
                    proof {
                        lemma_first_error_at(errors, i as int);
                    }
                    return Err(e);
                },
            }
            let ghost before = self.structs@;
            let owned = definition.0.0.to_owned();
            proof {
                lemma_texts_push(before, owned);
            }
            self.structs.push(owned);
            assert(struct_names_of(models).take(i + 1) =~= struct_names_of(models).take(
                i as int,
            ).push(models[i as int].name));
            i += 1;
        }
        proof {
            lemma_first_error_none(errors);
            assert(struct_names_of(models).take(models.len() as int) =~= struct_names_of(models));
        }
        Ok(())
    }

    /// Registers the names of the enums, in the order written, after checking
    /// each enum against the structs and the enums registered before it.
    pub fn register_enums(&mut self, enums: &[EnumDefinitionRaw]) -> (checked: Result<
        (),
        TypeCheckError,
    >)
        requires
            old(self).enum_names().len() == 0,
        ensures
            final(self).struct_names() == old(self).struct_names(),
            match checked {
                Ok(()) => enums_error(old(self).struct_names(), enums_view(enums@)) is None
                    && final(self).enum_names() == enum_names_of(enums_view(enums@)),
                Err(e) => Some(e@) == enums_error(old(self).struct_names(), enums_view(enums@)),
            },
    {
        let ghost models = enums_view(enums@);
        let ghost struct_names = self.struct_names();
        let ghost errors = Seq::new(models.len(), |i: int| enum_error(struct_names, models, i));
        let mut i: usize = 0;
        assert(self.enum_names() =~= enum_names_of(models).take(0));
        while i < enums.len()
            invariant
                i <= enums.len(),
                models == enums_view(enums@),
                struct_names == old(self).struct_names(),
                errors == Seq::new(models.len(), |i: int| enum_error(struct_names, models, i)),
                self.struct_names() == struct_names,
                self.enum_names() == enum_names_of(models).take(i as int),
                forall|j: int| 0 <= j < i ==> errors[j] is None,
            decreases enums.len() - i,
        {
            let definition = &enums[i];
            assert(models[i as int] == definition@);
            match self.check_duplicate(&definition.name) {
                Ok(()) => {},
                Err(e) => {
                    proof {
                        lemma_first_error_at(errors, i as int);
                    }
                    return Err(e);
                },
            }
            match Self::map_enum_variants(definition.variants.as_slice(), definition.name.0) {
                Ok(()) => {},
                Err(e) => {
                    proof {
                        lemma_first_error_at(errors, i as int);
                    }
                    return Err(e);
                },
            }
            let ghost before = self.enums@;
            let owned = definition.name.0.to_owned();
            proof {
                lemma_texts_push(before, owned);
            }
            self.enums.push(owned);
            assert(enum_names_of(models).take(i + 1) =~= enum_names_of(models).take(i as int).push(
                models[i as int].name,
            ));
            i += 1;
        }
        proof {
            lemma_first_error_none(errors);
            assert(enum_names_of(models).take(models.len() as int) =~= enum_names_of(models));
        }
        Ok(())
    }
}

impl TypeChecker {
    /// Resolves the field types of every struct, in the order written, and
    /// reports the first that is unresolved.
    fn check_struct_types(&self, structs: &[StructDefinitionRaw]) -> (checked: Result<
        (),
        TypeCheckError,
    >)
        ensures
            match checked {
                Ok(()) => structs_resolution_error(
                    structs_view(structs@),
                    self.struct_names(),
                    self.enum_names(),
                ) is None,
                Err(e) => Some(e@) == structs_resolution_error(
                    structs_view(structs@),
                    self.struct_names(),
                    self.enum_names(),
                ),
            },
    {
        let ghost models = structs_view(structs@);
        let ghost errors = Seq::new(
            models.len(),
            |i: int| fields_resolution_error(models[i].fields, self.struct_names(), self.enum_names()),
        );
        let mut i: usize = 0;
        while i < structs.len()
            invariant
                i <= structs.len(),
                models == structs_view(structs@),
                errors == Seq::new(
                    models.len(),
                    |i: int|
                        fields_resolution_error(
                            models[i].fields,
                            self.struct_names(),
                            self.enum_names(),
                        ),
                ),
                forall|j: int| 0 <= j < i ==> errors[j] is None,
            decreases structs.len() - i,
        {
            let definition = &structs[i];
            assert(models[i as int] == definition@);
            match self.type_check_fields(definition.1.as_slice()) {
                Ok(_) => {},
                Err(e) => {
                    proof {
                        lemma_first_error_at(errors, i as int);
                    }
                    return Err(e);
                },
            }
            i += 1;
        }
        proof {
            lemma_first_error_none(errors);
        }
        Ok(())
    }

    /// Resolves the field types of every variant, in the order written.
    fn type_check_variants(&self, variants: &[EnumVariantRaw]) -> (typed: Result<
        Vec<TypedEnumVariant>,
        TypeCheckError,
    >)
        ensures
            match typed {
                Ok(v) => variants_resolution_error(
                    variants_view(variants@),
                    self.struct_names(),
                    self.enum_names(),
                ) is None && typed_variants_view(v@) == typed_variants(
                    variants_view(variants@),
                    self.struct_names(),
                    self.enum_names(),
                ),
                Err(e) => Some(e@) == variants_resolution_error(
                    variants_view(variants@),
                    self.struct_names(),
                    self.enum_names(),
                ),
            },
    {
        let ghost models = variants_view(variants@);
        let ghost errors = Seq::new(
            models.len(),
            |v: int| fields_resolution_error(models[v].fields, self.struct_names(), self.enum_names()),
        );
        let mut typed: Vec<TypedEnumVariant> = Vec::new();
        let mut i: usize = 0;
        while i < variants.len()
            invariant
                i <= variants.len(),
                models == variants_view(variants@),
                errors == Seq::new(
                    models.len(),
                    |v: int|
                        fields_resolution_error(
                            models[v].fields,
                            self.struct_names(),
                            self.enum_names(),
                        ),
                ),
                forall|j: int| 0 <= j < i ==> errors[j] is None,
                typed.len() == i,
                forall|j: int|
                    0 <= j < i ==> typed[j]@ == #[trigger] typed_variants(
                        models,
                        self.struct_names(),
                        self.enum_names(),
                    )[j],
            decreases variants.len() - i,
        {
            let variant = &variants[i];
            assert(models[i as int] == variant@);
            match self.type_check_fields(variant.fields.as_slice()) {
                Ok(fields) => {
                    typed.push(TypedEnumVariant { name: variant.name.0.to_owned(), fields });
                },
                Err(e) => {
                    proof {
                        lemma_first_error_at(errors, i as int);
                    }
                    return Err(e);
                },
            }
            i += 1;
        }
        proof {
            lemma_first_error_none(errors);
            assert(typed_variants_view(typed@) =~= typed_variants(
                models,
                self.struct_names(),
                self.enum_names(),
            ));
        }
        Ok(typed)
    }

    /// Resolves the field types of every enum, in the order written.
    fn type_check_enums(&self, enums: &[EnumDefinitionRaw]) -> (typed: Result<
        Vec<TypedEnum>,
        TypeCheckError,
    >)
        ensures
            match typed {
                Ok(v) => enums_resolution_error(
                    enums_view(enums@),
                    self.struct_names(),
                    self.enum_names(),
                ) is None && typed_enums_view(v@) == typed_enums(
                    enums_view(enums@),
                    self.struct_names(),
                    self.enum_names(),
                ),
                Err(e) => Some(e@) == enums_resolution_error(
                    enums_view(enums@),
                    self.struct_names(),
                    self.enum_names(),
                ),
            },
    {
        let ghost models = enums_view(enums@);
        let ghost errors = Seq::new(
            models.len(),
            |i: int|
                variants_resolution_error(models[i].variants, self.struct_names(), self.enum_names()),
        );
        let mut typed: Vec<TypedEnum> = Vec::new();
        let mut i: usize = 0;
        while i < enums.len()
            invariant
                i <= enums.len(),
                models == enums_view(enums@),
                errors == Seq::new(
                    models.len(),
                    |i: int|
                        variants_resolution_error(
                            models[i].variants,
                            self.struct_names(),
                            self.enum_names(),
                        ),
                ),
                forall|j: int| 0 <= j < i ==> errors[j] is None,
                typed.len() == i,
                forall|j: int|
                    0 <= j < i ==> typed[j]@ == #[trigger] typed_enums(
                        models,
                        self.struct_names(),
                        self.enum_names(),
                    )[j],
            decreases enums.len() - i,
        {
            let definition = &enums[i];
            assert(models[i as int] == definition@);
            match self.type_check_variants(definition.variants.as_slice()) {
                Ok(variants) => {
                    typed.push(TypedEnum { name: definition.name.0.to_owned(), variants });
                },
                Err(e) => {
                    proof {
                        lemma_first_error_at(errors, i as int);
                    }
                    return Err(e);
                },
            }
            i += 1;
        }
        proof {
            lemma_first_error_none(errors);
            assert(typed_enums_view(typed@) =~= typed_enums(
                models,
                self.struct_names(),
                self.enum_names(),
            ));
        }
        Ok(typed)
    }

    /// Resolves the request and response types of the calls of one
    /// direction, in the order written.
    fn type_check_calls(&self, rpc: Option<&RpcRaw>) -> (typed: Result<
        Vec<TypedRpcCall>,
        TypeCheckError,
    >)
        ensures
            match typed {
                Ok(v) => calls_resolution_error(
                    match rpc {
                        Some(r) => Some(r@),
                        None => None,
                    },
                    self.struct_names(),
                    self.enum_names(),
                ) is None && typed_calls_view(v@) == typed_calls(
                    match rpc {
                        Some(r) => Some(r@),
                        None => None,
                    },
                    self.struct_names(),
                    self.enum_names(),
                ),
                Err(e) => Some(e@) == calls_resolution_error(
                    match rpc {
                        Some(r) => Some(r@),
                        None => None,
                    },
                    self.struct_names(),
                    self.enum_names(),
                ),
            },
    {
        let mut typed: Vec<TypedRpcCall> = Vec::new();
        let calls = match rpc {
            Some(r) => &r.definitions,
            None => {
                assert(typed_calls_view(typed@) =~= Seq::<TypedRpcCallModel>::empty());
                return Ok(typed);
            },
        };
        let ghost models = rpc_definitions_view(calls@);
        let ghost errors = Seq::new(
            models.len(),
            |k: int| call_error(models[k], self.struct_names(), self.enum_names()),
        );
        let mut i: usize = 0;
        while i < calls.len()
            invariant
                i <= calls.len(),
                models == rpc_definitions_view(calls@),
                rpc matches Some(r) && r@ == models,
                errors == Seq::new(
                    models.len(),
                    |k: int| call_error(models[k], self.struct_names(), self.enum_names()),
                ),
                forall|j: int| 0 <= j < i ==> errors[j] is None,
                typed.len() == i,
                forall|j: int|
                    0 <= j < i ==> typed[j]@ == typed_call(
                        #[trigger] models[j],
                        self.struct_names(),
                        self.enum_names(),
                    ),
            decreases calls.len() - i,
        {
            let call = &calls[i];
            assert(models[i as int] == call@);
            let request = match self.resolve_type(&call.request) {
                Ok(t) => t,
                Err(e) => {
                    proof {
                        assert(errors[i as int] == Some(e@));
                        lemma_first_error_at(errors, i as int);
                    }
                    return Err(e);
                },
            };
            let response = match self.resolve_type(&call.response) {
                Ok(t) => t,
                Err(e) => {
                    proof {
                        assert(errors[i as int] == Some(e@));
                        lemma_first_error_at(errors, i as int);
                    }
                    return Err(e);
                },
            };
            let name = call.name.0.to_owned();
            if call.is_stream {
                typed.push(TypedRpcCall::Stream { name, request, response });
            } else {
                typed.push(TypedRpcCall::Unary { name, request, response });
            }
            i += 1;
        }
        proof {
            lemma_first_error_none(errors);
            assert(typed_calls_view(typed@) =~= typed_calls(
                Some(models),
                self.struct_names(),
                self.enum_names(),
            ));
        }
        Ok(typed)
    }

    /// The structs in the given order, with the resolved types of their
    /// fields. The error is that of the first struct in `order` with an
    /// unresolved field type.
    pub fn type_structs_in_order(&self, structs: &[StructDefinitionRaw], order: &Vec<usize>) -> (typed:
        Result<Vec<TypedStruct>, TypeCheckError>)
        requires
            forall|k: int| 0 <= k < order.len() ==> order[k] < structs.len(),
        ensures
            match typed {
                Ok(v) => first_error(
                    Seq::new(
                        order.len() as nat,
                        |k: int|
                            fields_resolution_error(
                                structs_view(structs@)[order[k] as int].fields,
                                self.struct_names(),
                                self.enum_names(),
                            ),
                    ),
                ) is None && typed_structs_view(v@) == typed_structs_in_order(
                    structs_view(structs@),
                    order@,
                    self.struct_names(),
                    self.enum_names(),
                ),
                Err(e) => Some(e@) == first_error(
                    Seq::new(
                        order.len() as nat,
                        |k: int|
                            fields_resolution_error(
                                structs_view(structs@)[order[k] as int].fields,
                                self.struct_names(),
                                self.enum_names(),
                            ),
                    ),
                ),
            },
    {
        let ghost models = structs_view(structs@);
        let ghost errors = Seq::new(
            order.len() as nat,
            |k: int|
                fields_resolution_error(
                    models[order[k] as int].fields,
                    self.struct_names(),
                    self.enum_names(),
                ),
        );
        let mut typed: Vec<TypedStruct> = Vec::new();
        let mut i: usize = 0;
        while i < order.len()
            invariant
                i <= order.len(),
                models == structs_view(structs@),
                forall|k: int| 0 <= k < order.len() ==> order[k] < structs.len(),
                errors == Seq::new(
                    order.len() as nat,
                    |k: int|
                        fields_resolution_error(
                            models[order[k] as int].fields,
                            self.struct_names(),
                            self.enum_names(),
                        ),
                ),
                forall|j: int| 0 <= j < i ==> errors[j] is None,
                typed.len() == i,
                forall|j: int|
                    0 <= j < i ==> typed[j]@ == #[trigger] typed_structs_in_order(
                        models,
                        order@,
                        self.struct_names(),
                        self.enum_names(),
                    )[j],
            decreases order.len() - i,
        {
            let definition = &structs[order[i]];
            assert(models[order[i as int] as int] == definition@);
            match self.type_check_fields(definition.1.as_slice()) {
                Ok(fields) => {
                    typed.push(TypedStruct { name: definition.0.0.to_owned(), fields });
                },
                Err(e) => {
                    proof {
                        lemma_first_error_at(errors, i as int);
                    }
                    return Err(e);
                },
            }
            i += 1;
        }
        proof {
            lemma_first_error_none(errors);
            assert(typed_structs_view(typed@) =~= typed_structs_in_order(
                models,
                order@,
                self.struct_names(),
                self.enum_names(),
            ));
        }
        Ok(typed)
    }

    /// One edge for each field that holds a struct directly, from the struct
    /// that is held to the struct that holds it.
    fn dependency_edges(&self, structs: &[StructDefinitionRaw]) -> (edges: Vec<(usize, usize)>)
        requires
            self.struct_names() == struct_names_of(structs_view(structs@)),
        ensures
            forall|e: int|
                0 <= e < edges.len() ==> (#[trigger] edges[e]).0 < structs.len() && edges[e].1
                    < structs.len(),
            forall|dependency: int, user: int|
                is_edge(edges@, dependency, user) <==> depends_on(
                    structs_view(structs@),
                    user,
                    dependency,
                ),
    {
        let ghost models = structs_view(structs@);
        let mut edges: Vec<(usize, usize)> = Vec::new();
        let mut i: usize = 0;
        while i < structs.len()
            invariant
                i <= structs.len(),
                models == structs_view(structs@),
                self.struct_names() == struct_names_of(models),
                forall|e: int|
                    0 <= e < edges.len() ==> (#[trigger] edges[e]).0 < structs.len() && edges[e].1
                        < structs.len(),
                forall|dependency: int, user: int|
                    is_edge(edges@, dependency, user) ==> depends_on(models, user, dependency),
                forall|dependency: int, user: int, k: int|
                    user < i && holds_directly(models, user, k, dependency) ==> is_edge(
                        edges@,
                        dependency,
                        user,
                    ),
            decreases structs.len() - i,
        {
            let definition = &structs[i];
            assert(models[i as int] == definition@);
            let fields = &definition.1;
            let mut k: usize = 0;
            while k < fields.len()
                invariant
                    i < structs.len(),
                    k <= fields.len(),
                    models == structs_view(structs@),
                    models[i as int].fields == fields_view(fields@),
                    self.struct_names() == struct_names_of(models),
                    forall|e: int|
                        0 <= e < edges.len() ==> (#[trigger] edges[e]).0 < structs.len()
                            && edges[e].1 < structs.len(),
                    forall|dependency: int, user: int|
                        is_edge(edges@, dependency, user) ==> depends_on(models, user, dependency),
                    forall|dependency: int, user: int, f: int|
                        user < i && holds_directly(models, user, f, dependency) ==> is_edge(
                            edges@,
                            dependency,
                            user,
                        ),
                    forall|dependency: int, f: int|
                        f < k && holds_directly(models, i as int, f, dependency) ==> is_edge(
                            edges@,
                            dependency,
                            i as int,
                        ),
                decreases fields.len() - k,
            {
                let ty = &fields[k].field_type;
                assert(models[i as int].fields[k as int] == fields[k as int]@);
                let mut target: Option<usize> = None;
                if !ty.optional && ty.array_depth == 0 {
                    let primitive = Self::primitive(ty.name.0);
                    if primitive.is_none() {
                        target = position_of(&self.structs, ty.name.0);
                    }
                }
                let ghost before = edges@;
                assert(texts(self.structs@).len() == models.len());
                match target {
                    Some(j) => {
                        edges.push((j, i));
                        proof {
                            assert(struct_names_of(models)[j as int] == ty@.name);
                            assert(!struct_names_of(models).take(j as int).contains(
                                models[j as int].name,
                            )) by {
                                if struct_names_of(models).take(j as int).contains(
                                    models[j as int].name,
                                ) {
                                    let w = choose|w: int|
                                        0 <= w < j && struct_names_of(models).take(j as int)[w]
                                            == models[j as int].name;
                                    assert(texts(self.structs@)[w] == self.structs[w]@);
                                }
                            }
                            assert(holds_directly(models, i as int, k as int, j as int));
                            assert forall|dependency: int, user: int|
                                is_edge(edges@, dependency, user) implies depends_on(
                                models,
                                user,
                                dependency,
                            ) by {
                                lemma_is_edge_push(before, (j, i), dependency, user);
                            }
                            assert forall|dependency: int, user: int, f: int|
                                user < i && holds_directly(
                                    models,
                                    user,
                                    f,
                                    dependency,
                                ) implies is_edge(edges@, dependency, user) by {
                                lemma_is_edge_push(before, (j, i), dependency, user);
                            }
                            assert forall|dependency: int, f: int|
                                f < k + 1 && holds_directly(
                                    models,
                                    i as int,
                                    f,
                                    dependency,
                                ) implies is_edge(edges@, dependency, i as int) by {
                                lemma_is_edge_push(before, (j, i), dependency, i as int);
                                if f == k {
                                    if dependency < j {
                                        assert(texts(self.structs@)[dependency]
                                            == self.structs[dependency]@);
                                    } else if dependency > j {
                                        assert(struct_names_of(models).take(dependency)[j as int]
                                            == models[dependency].name);
                                    }
                                }
                            }
                        }
                    },
                    None => {
                        proof {
                            assert forall|dependency: int, f: int|
                                f < k + 1 && holds_directly(
                                    models,
                                    i as int,
                                    f,
                                    dependency,
                                ) implies is_edge(edges@, dependency, i as int) by {
                                if f == k {
                                    assert(texts(self.structs@)[dependency]
                                        == self.structs[dependency]@);
                                }
                            }
                        }
                    },
                }
                k += 1;
            }
            i += 1;
        }
        proof {
            assert forall|dependency: int, user: int|
                depends_on(models, user, dependency) implies is_edge(edges@, dependency, user) by {
                let k = choose|k: int| holds_directly(models, user, k, dependency);
                assert(holds_directly(models, user, k, dependency));
            }
        }
        edges
    }

    /// Checks a file. On success the structs come back in dependency order,
    /// the enums, the metadata fields and the calls in the order written,
    /// every type reference resolved. The first error in the order of
    /// [`validation_error`] is reported; a file without such an error is
    /// rejected only where one of its structs holds itself, directly or
    /// through other structs, and the error then names a struct on such a
    /// cycle.
    pub fn check(self, file: &FileRaw) -> (checked: Result<TypedFile, TypeCheckError>)
        ensures
            match checked {
                Ok(typed) => {
                    &&& validation_error(file@) is None
                    &&& forall|i: int| !on_cycle(dependency_relation(file@.structs), i)
                    &&& exists|order: Seq<usize>| #[trigger]
                        is_topological_order(
                            order,
                            file@.structs.len(),
                            dependency_relation(file@.structs),
                        ) && typed@ == typed_file(file@, order)
                },
                Err(e) => match validation_error(file@) {
                    Some(error) => e@ == error,
                    None => exists|i: int|
                        0 <= i < file@.structs.len() && #[trigger] on_cycle(
                            dependency_relation(file@.structs),
                            i,
                        ) && e@ == TypeCheckErrorModel::CyclicDependency(file@.structs[i].name),
                },
            },
    {
        let mut checker = TypeChecker::new();
        let structs = file.structs();
        let enums = file.enums();
        let ghost struct_names = struct_names_of(file@.structs);
        let ghost enum_names = enum_names_of(file@.enums);
        match checker.register_structs(structs) {
            Ok(()) => {},
            Err(e) => {
                return Err(e);
            },
        }
        match checker.register_enums(enums) {
            Ok(()) => {},
            Err(e) => {
                return Err(e);
            },
        }
        assert(checker.struct_names() == struct_names);
        assert(checker.enum_names() == enum_names);
        let metadata = file.metadata();
        match metadata {
            Some(m) => {
                match Self::map_fields(m.fields(), "metadata") {
                    Ok(()) => {},
                    Err(e) => {
                        return Err(e);
                    },
                }
            },
            None => {},
        }
        match checker.check_struct_types(structs) {
            Ok(()) => {},
            Err(e) => {
                return Err(e);
            },
        }
        let typed_enums = match checker.type_check_enums(enums) {
            Ok(v) => v,
            Err(e) => {
                return Err(e);
            },
        };
        let meta_fields = match metadata {
            Some(m) => {
                match checker.type_check_fields(m.fields()) {
                    Ok(v) => v,
                    Err(e) => {
                        return Err(e);
                    },
                }
            },
            None => {
                let v: Vec<TypedField> = Vec::new();
                assert(typed_fields_view(v@) =~= Seq::<TypedFieldModel>::empty());
                v
            },
        };
        let rpc_calls = match checker.type_check_calls(file.rpc()) {
            Ok(v) => v,
            Err(e) => {
                return Err(e);
            },
        };
        let reverse_calls = match checker.type_check_calls(file.reverse_rpc()) {
            Ok(v) => v,
            Err(e) => {
                return Err(e);
            },
        };
        assert(validation_error(file@) is None);
        let edges = checker.dependency_edges(structs);
        let ghost related = dependency_relation(file@.structs);
        match toposort(structs.len(), &edges) {
            Err(node) => {
                proof {
                    let walk = choose|walk: Seq<int>| #[trigger]
                        is_walk(edge_relation(edges@), walk) && walk[0] == node && walk[walk.len()
                            - 1] == node;
                    assert forall|k: int| 0 <= k < walk.len() - 1 implies related(
                        #[trigger] walk[k],
                        walk[k + 1],
                    ) by {
                        assert(edge_relation(edges@)(walk[k], walk[k + 1]));
                    }
                    assert(is_walk(related, walk));
                    assert(on_cycle(related, node as int));
                    assert(structs_view(structs@)[node as int] == structs[node as int]@);
                }
                Err(TypeCheckError::CyclicDependency(structs[node].0.0.to_owned()))
            },
            Ok(order) => {
                proof {
                    assert(is_topological_order(order@, structs.len() as nat, related)) by {
                        assert forall|a: int, b: int|
                            0 <= a < order@.len() && 0 <= b < order@.len() && related(
                                #[trigger] order@[a] as int,
                                #[trigger] order@[b] as int,
                            ) implies a < b by {
                            assert(edge_relation(edges@)(order@[a] as int, order@[b] as int));
                        }
                    }
                    assert(relates_nodes_only(related, structs.len() as nat));
                    assert forall|i: int| !on_cycle(related, i) by {
                        lemma_ordered_graph_has_no_cycle(order@, structs.len() as nat, related, i);
                    }
                }
                let ghost in_order = Seq::new(
                    order.len() as nat,
                    |k: int|
                        fields_resolution_error(
                            structs_view(structs@)[order[k] as int].fields,
                            checker.struct_names(),
                            checker.enum_names(),
                        ),
                );
                proof {
                    assert forall|k: int| 0 <= k < in_order.len() implies in_order[k] is None by {
                        lemma_no_first_error(
                            Seq::new(
                                file@.structs.len(),
                                |i: int|
                                    fields_resolution_error(
                                        file@.structs[i].fields,
                                        struct_names,
                                        enum_names,
                                    ),
                            ),
                            order[k] as int,
                        );
                    }
                    lemma_first_error_none(in_order);
                }
                match checker.type_structs_in_order(structs, &order) {
                    Ok(typed_structs) => {
                        let typed = TypedFile {
                            structs: typed_structs,
                            enums: typed_enums,
                            meta: TypedMetadata { fields: meta_fields },
                            rpc: TypedRpc { calls: rpc_calls },
                            reverse_rpc: TypedReverseRpc { calls: reverse_calls },
                        };
                        assert(typed@ == typed_file(file@, order@));
                        Ok(typed)
                    },
                    Err(e) => Err(e),
                }
            },
        }
    }
}

} // verus!
