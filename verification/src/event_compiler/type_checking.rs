//! The type checker of event definition files.
//!
//! Checking resolves the type of every field against the primitive types
//! and the structs that the file defines, rejects repeated names, and orders
//! the structs so that each one comes after the structs that its fields
//! hold. Messages are what is sent; no field can hold one.

use vstd::prelude::*;
use vstd::string::*;
use crate::event_compiler::parsing::{
    DefinitionModel, DefinitionRaw, FieldModel, FieldRaw, FileModel, FileRaw, IdentifierRaw,
    definitions_view, fields_view,
};
use crate::graph::{edge_relation, is_edge, is_topological_order, is_walk, on_cycle, toposort};
use crate::graph::{lemma_is_edge_push, lemma_ordered_graph_has_no_cycle, relates_nodes_only};
use crate::message_compiler::type_checking::{
    first_error, lemma_first_error_at, lemma_first_error_none, lemma_no_first_error, or_else,
};
use crate::text::{contains_name, lemma_texts_push, position_of, str_eq, texts};

verus! {

/// The model of a type-check error: the names it reports, as text.
pub ghost enum TypeCheckErrorModel {
    RepeatedName(Seq<char>),
    RepeatedFieldName { field_name: Seq<char>, struct_name: Seq<char> },
    StructNotFound(Seq<char>),
    StructNotFoundMessageExists(Seq<char>),
    CyclicDependency(Seq<char>),
}

/// Why a file was rejected.
#[derive(Debug)]
pub enum TypeCheckError {
    /// A definition has the name of an earlier one.
    RepeatedName(String),
    /// A definition or the metadata block has two fields of one name.
    RepeatedFieldName { field_name: String, struct_name: String },
    /// The type of a field names neither a primitive nor a definition.
    StructNotFound(String),
    /// The type of a field names a message.
    StructNotFoundMessageExists(String),
    /// The named struct holds itself, directly or through other structs.
    CyclicDependency(String),
}

impl View for TypeCheckError {
    type V = TypeCheckErrorModel;

    open spec fn view(&self) -> TypeCheckErrorModel {
        match self {
            TypeCheckError::RepeatedName(name) => TypeCheckErrorModel::RepeatedName(name@),
            TypeCheckError::RepeatedFieldName { field_name, struct_name } => {
                TypeCheckErrorModel::RepeatedFieldName {
                    field_name: field_name@,
                    struct_name: struct_name@,
                }
            },
            TypeCheckError::StructNotFound(name) => TypeCheckErrorModel::StructNotFound(name@),
            TypeCheckError::StructNotFoundMessageExists(name) => {
                TypeCheckErrorModel::StructNotFoundMessageExists(name@)
            },
            TypeCheckError::CyclicDependency(name) => TypeCheckErrorModel::CyclicDependency(name@),
        }
    }
}

/// The sentence that describes an error.
pub open spec fn error_message(error: TypeCheckErrorModel) -> Seq<char> {
    match error {
        TypeCheckErrorModel::RepeatedName(name) => "The type with name \""@ + name
            + "\" already exists"@,
        TypeCheckErrorModel::RepeatedFieldName { field_name, struct_name } => {
            "A field with name \""@ + field_name + "\" already exists in struct \""@ + struct_name
                + "\""@
        },
        TypeCheckErrorModel::StructNotFound(name) => "A struct with name \""@ + name
            + "\" does not exist"@,
        TypeCheckErrorModel::StructNotFoundMessageExists(name) => "A struct with name \""@ + name
            + "\" does not exist, but a message does. Did you mean for it to be a struct?"@,
        TypeCheckErrorModel::CyclicDependency(name) => "The struct with name \""@ + name
            + "\" depends on itself"@,
    }
}

impl TypeCheckError {
    /// The error as a sentence for the user.
    pub fn to_string(&self) -> (message: String)
        ensures
            message@ == error_message(self@),
    {
        match self {
            TypeCheckError::RepeatedName(name) => {
                let mut message = String::from_str("The type with name \"");
                message.append(name.as_str());
                message.append("\" already exists");
                message
            },
            TypeCheckError::RepeatedFieldName { field_name, struct_name } => {
                let mut message = String::from_str("A field with name \"");
                message.append(field_name.as_str());
                message.append("\" already exists in struct \"");
                message.append(struct_name.as_str());
                message.append("\"");
                message
            },
            TypeCheckError::StructNotFound(name) => {
                let mut message = String::from_str("A struct with name \"");
                message.append(name.as_str());
                message.append("\" does not exist");
                message
            },
            TypeCheckError::StructNotFoundMessageExists(name) => {
                let mut message = String::from_str("A struct with name \"");
                message.append(name.as_str());
                message.append(
                    "\" does not exist, but a message does. Did you mean for it to be a struct?",
                );
                message
            },
            TypeCheckError::CyclicDependency(name) => {
                let mut message = String::from_str("The struct with name \"");
                message.append(name.as_str());
                message.append("\" depends on itself");
                message
            },
        }
    }
}

/// The model of a resolved type.
pub ghost enum TypeIdModel {
    U8,
    U16,
    U32,
    U64,
    S8,
    S16,
    S32,
    S64,
    Instant,
    Guid,
    String,
    OtherStruct(Seq<char>),
}

/// A resolved type: a primitive or a struct of the file.
#[derive(Debug)]
pub enum TypedFieldType {
    U8,
    U16,
    U32,
    U64,
    S8,
    S16,
    S32,
    S64,
    Instant,
    Guid,
    String,
    OtherStruct(String),
}

impl View for TypedFieldType {
    type V = TypeIdModel;

    open spec fn view(&self) -> TypeIdModel {
        match self {
            TypedFieldType::U8 => TypeIdModel::U8,
            TypedFieldType::U16 => TypeIdModel::U16,
            TypedFieldType::U32 => TypeIdModel::U32,
            TypedFieldType::U64 => TypeIdModel::U64,
            TypedFieldType::S8 => TypeIdModel::S8,
            TypedFieldType::S16 => TypeIdModel::S16,
            TypedFieldType::S32 => TypeIdModel::S32,
            TypedFieldType::S64 => TypeIdModel::S64,
            TypedFieldType::Instant => TypeIdModel::Instant,
            TypedFieldType::Guid => TypeIdModel::Guid,
            TypedFieldType::String => TypeIdModel::String,
            TypedFieldType::OtherStruct(name) => TypeIdModel::OtherStruct(name@),
        }
    }
}

pub ghost struct TypedFieldModel {
    pub name: Seq<char>,
    pub type_id: TypeIdModel,
}

/// A field with its resolved type.
#[derive(Debug)]
pub struct TypedField {
    name: String,
    type_id: TypedFieldType,
}

impl View for TypedField {
    type V = TypedFieldModel;

    closed spec fn view(&self) -> TypedFieldModel {
        TypedFieldModel { name: self.name@, type_id: self.type_id@ }
    }
}

impl TypedField {
    pub fn name(&self) -> (name: &str)
        ensures
            name@ == self@.name,
    {
        self.name.as_str()
    }

    pub fn field_type(&self) -> (type_id: &TypedFieldType)
        ensures
            type_id@ == self@.type_id,
    {
        &self.type_id
    }
}

pub open spec fn typed_fields_view(fields: Seq<TypedField>) -> Seq<TypedFieldModel> {
    Seq::new(fields.len(), |i: int| fields[i]@)
}

pub ghost struct TypedDefinitionModel {
    pub name: Seq<char>,
    pub fields: Seq<TypedFieldModel>,
}

/// A struct with the resolved types of its fields.
#[derive(Debug)]
pub struct TypedStruct {
    name: String,
    fields: Vec<TypedField>,
}

impl View for TypedStruct {
    type V = TypedDefinitionModel;

    closed spec fn view(&self) -> TypedDefinitionModel {
        TypedDefinitionModel { name: self.name@, fields: typed_fields_view(self.fields@) }
    }
}

impl TypedStruct {
    pub fn name(&self) -> (name: &str)
        ensures
            name@ == self@.name,
    {
        self.name.as_str()
    }

    pub fn fields(&self) -> (fields: &[TypedField])
        ensures
            typed_fields_view(fields@) == self@.fields,
    {
        self.fields.as_slice()
    }
}

pub open spec fn typed_structs_view(structs: Seq<TypedStruct>) -> Seq<TypedDefinitionModel> {
    Seq::new(structs.len(), |i: int| structs[i]@)
}

/// A message with the resolved types of its fields.
#[derive(Debug)]
pub struct TypedMessage {
    name: String,
    fields: Vec<TypedField>,
}

impl View for TypedMessage {
    type V = TypedDefinitionModel;

    closed spec fn view(&self) -> TypedDefinitionModel {
        TypedDefinitionModel { name: self.name@, fields: typed_fields_view(self.fields@) }
    }
}

impl TypedMessage {
    pub fn name(&self) -> (name: &str)
        ensures
            name@ == self@.name,
    {
        self.name.as_str()
    }

    pub fn fields(&self) -> (fields: &[TypedField])
        ensures
            typed_fields_view(fields@) == self@.fields,
    {
        self.fields.as_slice()
    }
}

pub open spec fn typed_messages_view(messages: Seq<TypedMessage>) -> Seq<TypedDefinitionModel> {
    Seq::new(messages.len(), |i: int| messages[i]@)
}

/// The metadata block with the resolved types of its fields.
pub struct TypedMetadata {
    fields: Vec<TypedField>,
}

impl View for TypedMetadata {
    type V = Seq<TypedFieldModel>;

    closed spec fn view(&self) -> Seq<TypedFieldModel> {
        typed_fields_view(self.fields@)
    }
}

impl TypedMetadata {
    pub fn fields(&self) -> (fields: &[TypedField])
        ensures
            typed_fields_view(fields@) == self@,
    {
        self.fields.as_slice()
    }
}

pub ghost struct TypedFileModel {
    pub structs: Seq<TypedDefinitionModel>,
    pub messages: Seq<TypedDefinitionModel>,
    pub meta: Seq<TypedFieldModel>,
}

/// A checked file. The structs stand in dependency order: each one after
/// the structs that its fields hold.
pub struct TypedFile {
    pub structs: Vec<TypedStruct>,
    pub messages: Vec<TypedMessage>,
    pub meta: TypedMetadata,
}

impl View for TypedFile {
    type V = TypedFileModel;

    open spec fn view(&self) -> TypedFileModel {
        TypedFileModel {
            structs: typed_structs_view(self.structs@),
            messages: typed_messages_view(self.messages@),
            meta: self.meta@,
        }
    }
}

/// The primitive type that `name` denotes, if it denotes one.
pub open spec fn primitive_type(name: Seq<char>) -> Option<TypeIdModel> {
    if name == "u8"@ {
        Some(TypeIdModel::U8)
    } else if name == "u16"@ {
        Some(TypeIdModel::U16)
    } else if name == "u32"@ {
        Some(TypeIdModel::U32)
    } else if name == "u64"@ {
        Some(TypeIdModel::U64)
    } else if name == "s8"@ {
        Some(TypeIdModel::S8)
    } else if name == "s16"@ {
        Some(TypeIdModel::S16)
    } else if name == "s32"@ {
        Some(TypeIdModel::S32)
    } else if name == "s64"@ {
        Some(TypeIdModel::S64)
    } else if name == "instant"@ {
        Some(TypeIdModel::Instant)
    } else if name == "guid"@ {
        Some(TypeIdModel::Guid)
    } else if name == "string"@ {
        Some(TypeIdModel::String)
    } else {
        None
    }
}

/// What the name of a type denotes: a primitive, or else a struct. A name
/// that only a message has is an error of its own.
pub open spec fn resolved_type(name: Seq<char>, structs: Seq<Seq<char>>, messages: Seq<Seq<char>>) -> Result<
    TypeIdModel,
    TypeCheckErrorModel,
> {
    match primitive_type(name) {
        Some(t) => Ok(t),
        None => if structs.contains(name) {
            Ok(TypeIdModel::OtherStruct(name))
        } else if messages.contains(name) {
            Err(TypeCheckErrorModel::StructNotFoundMessageExists(name))
        } else {
            Err(TypeCheckErrorModel::StructNotFound(name))
        },
    }
}

pub open spec fn type_error(name: Seq<char>, structs: Seq<Seq<char>>, messages: Seq<Seq<char>>) -> Option<
    TypeCheckErrorModel,
> {
    match resolved_type(name, structs, messages) {
        Ok(_) => None,
        Err(error) => Some(error),
    }
}

/// The first unresolved type among the fields, in the order written.
pub open spec fn fields_resolution_error(
    fields: Seq<FieldModel>,
    structs: Seq<Seq<char>>,
    messages: Seq<Seq<char>>,
) -> Option<TypeCheckErrorModel> {
    first_error(Seq::new(fields.len(), |k: int| type_error(fields[k].field_type, structs, messages)))
}

/// The fields with their resolved types, in the order written.
pub open spec fn typed_fields(
    fields: Seq<FieldModel>,
    structs: Seq<Seq<char>>,
    messages: Seq<Seq<char>>,
) -> Seq<TypedFieldModel> {
    Seq::new(
        fields.len(),
        |k: int|
            TypedFieldModel {
                name: fields[k].name,
                type_id: match resolved_type(fields[k].field_type, structs, messages) {
                    Ok(t) => t,
                    Err(_) => TypeIdModel::OtherStruct(fields[k].field_type),
                },
            },
    )
}

pub open spec fn field_names_of(fields: Seq<FieldModel>) -> Seq<Seq<char>> {
    Seq::new(fields.len(), |k: int| fields[k].name)
}

pub open spec fn names_of(definitions: Seq<DefinitionModel>) -> Seq<Seq<char>> {
    Seq::new(definitions.len(), |i: int| definitions[i].name)
}

/// The structs among the definitions, in the order written.
pub open spec fn structs_of(definitions: Seq<DefinitionModel>) -> Seq<DefinitionModel>
    decreases definitions.len(),
{
    if definitions.len() == 0 {
        Seq::empty()
    } else if definitions.last().is_message {
        structs_of(definitions.drop_last())
    } else {
        structs_of(definitions.drop_last()).push(definitions.last())
    }
}

/// The messages among the definitions, in the order written.
pub open spec fn messages_of(definitions: Seq<DefinitionModel>) -> Seq<DefinitionModel>
    decreases definitions.len(),
{
    if definitions.len() == 0 {
        Seq::empty()
    } else if definitions.last().is_message {
        messages_of(definitions.drop_last()).push(definitions.last())
    } else {
        messages_of(definitions.drop_last())
    }
}

/// A sequence with one more entry holds what it held before and that entry.
proof fn lemma_contains_push(names: Seq<Seq<char>>, added: Seq<char>, name: Seq<char>)
    ensures
        names.push(added).contains(name) <==> (names.contains(name) || added == name),
{
    let longer = names.push(added);
    if names.contains(name) {
        let at = choose|at: int| 0 <= at < names.len() && names[at] == name;
        assert(longer[at] == name);
    }
    if added == name {
        assert(longer[names.len() as int] == name);
    }
    if longer.contains(name) {
        let at = choose|at: int| 0 <= at < longer.len() && longer[at] == name;
        if at < names.len() {
            assert(names[at] == name);
        }
    }
}

/// A name stands on a definition where it stands on a struct or on a
/// message.
pub proof fn lemma_names_are_of_structs_or_messages(
    definitions: Seq<DefinitionModel>,
    name: Seq<char>,
)
    ensures
        names_of(definitions).contains(name) <==> (names_of(structs_of(definitions)).contains(name)
            || names_of(messages_of(definitions)).contains(name)),
    decreases definitions.len(),
{
    let all = names_of(definitions);
    let structs = names_of(structs_of(definitions));
    let messages = names_of(messages_of(definitions));
    if definitions.len() > 0 {
        let shorter = definitions.drop_last();
        let last = definitions.last();
        lemma_names_are_of_structs_or_messages(shorter, name);
        assert(all =~= names_of(shorter).push(last.name));
        lemma_contains_push(names_of(shorter), last.name, name);
        if last.is_message {
            assert(messages =~= names_of(messages_of(shorter)).push(last.name));
            lemma_contains_push(names_of(messages_of(shorter)), last.name, name);
        } else {
            assert(structs =~= names_of(structs_of(shorter)).push(last.name));
            lemma_contains_push(names_of(structs_of(shorter)), last.name, name);
        }
    } else {
        assert(all.len() == 0 && structs.len() == 0 && messages.len() == 0);
    }
}

/// The error of field `k`: its name stands on an earlier field of `fields`.
pub open spec fn field_name_error(fields: Seq<FieldModel>, k: int, owner: Seq<char>) -> Option<
    TypeCheckErrorModel,
> {
    if field_names_of(fields).take(k).contains(fields[k].name) {
        Some(TypeCheckErrorModel::RepeatedFieldName { field_name: fields[k].name, struct_name: owner })
    } else {
        None
    }
}

/// The first field that repeats the name of an earlier one, reported under
/// the name of the definition that owns the fields.
pub open spec fn fields_name_error(fields: Seq<FieldModel>, owner: Seq<char>) -> Option<
    TypeCheckErrorModel,
> {
    first_error(Seq::new(fields.len(), |k: int| field_name_error(fields, k, owner)))
}

/// The error of definition `i`: its name stands on an earlier definition,
/// or else two of its fields share a name.
pub open spec fn definition_error(definitions: Seq<DefinitionModel>, i: int) -> Option<
    TypeCheckErrorModel,
> {
    if names_of(definitions).take(i).contains(definitions[i].name) {
        Some(TypeCheckErrorModel::RepeatedName(definitions[i].name))
    } else {
        fields_name_error(definitions[i].fields, definitions[i].name)
    }
}

pub open spec fn definitions_error(definitions: Seq<DefinitionModel>) -> Option<
    TypeCheckErrorModel,
> {
    first_error(Seq::new(definitions.len(), |i: int| definition_error(definitions, i)))
}

pub open spec fn metadata_name_error(metadata: Option<Seq<FieldModel>>) -> Option<
    TypeCheckErrorModel,
> {
    match metadata {
        Some(fields) => fields_name_error(fields, "metadata"@),
        None => None,
    }
}

pub open spec fn definitions_resolution_error(
    definitions: Seq<DefinitionModel>,
    structs: Seq<Seq<char>>,
    messages: Seq<Seq<char>>,
) -> Option<TypeCheckErrorModel> {
    first_error(
        Seq::new(
            definitions.len(),
            |i: int| fields_resolution_error(definitions[i].fields, structs, messages),
        ),
    )
}

pub open spec fn metadata_resolution_error(
    metadata: Option<Seq<FieldModel>>,
    structs: Seq<Seq<char>>,
    messages: Seq<Seq<char>>,
) -> Option<TypeCheckErrorModel> {
    match metadata {
        Some(fields) => fields_resolution_error(fields, structs, messages),
        None => None,
    }
}

/// The first error of a file, apart from cycles among its structs. Names
/// are checked first: the definitions in the order written, then the
/// metadata block. The types of the fields are resolved after that, in the
/// same order.
pub open spec fn validation_error(file: FileModel) -> Option<TypeCheckErrorModel> {
    let structs = names_of(structs_of(file.definitions));
    let messages = names_of(messages_of(file.definitions));
    or_else(
        definitions_error(file.definitions),
        or_else(
            metadata_name_error(file.metadata),
            or_else(
                definitions_resolution_error(file.definitions, structs, messages),
                metadata_resolution_error(file.metadata, structs, messages),
            ),
        ),
    )
}

pub open spec fn typed_definition(
    definition: DefinitionModel,
    structs: Seq<Seq<char>>,
    messages: Seq<Seq<char>>,
) -> TypedDefinitionModel {
    TypedDefinitionModel {
        name: definition.name,
        fields: typed_fields(definition.fields, structs, messages),
    }
}

/// The definitions in the given order, with resolved field types.
pub open spec fn typed_in_order(
    definitions: Seq<DefinitionModel>,
    order: Seq<usize>,
    structs: Seq<Seq<char>>,
    messages: Seq<Seq<char>>,
) -> Seq<TypedDefinitionModel> {
    Seq::new(
        order.len(),
        |k: int| typed_definition(definitions[order[k] as int], structs, messages),
    )
}

/// The definitions in the order written, with resolved field types.
pub open spec fn typed_definitions(
    definitions: Seq<DefinitionModel>,
    structs: Seq<Seq<char>>,
    messages: Seq<Seq<char>>,
) -> Seq<TypedDefinitionModel> {
    Seq::new(definitions.len(), |k: int| typed_definition(definitions[k], structs, messages))
}

pub open spec fn typed_metadata(
    metadata: Option<Seq<FieldModel>>,
    structs: Seq<Seq<char>>,
    messages: Seq<Seq<char>>,
) -> Seq<TypedFieldModel> {
    match metadata {
        Some(fields) => typed_fields(fields, structs, messages),
        None => Seq::empty(),
    }
}

/// The checked form of a valid file whose structs are emitted in `order`.
pub open spec fn typed_file(file: FileModel, order: Seq<usize>) -> TypedFileModel {
    let structs = names_of(structs_of(file.definitions));
    let messages = names_of(messages_of(file.definitions));
    TypedFileModel {
        structs: typed_in_order(structs_of(file.definitions), order, structs, messages),
        messages: typed_definitions(messages_of(file.definitions), structs, messages),
        meta: typed_metadata(file.metadata, structs, messages),
    }
}

/// Whether field `k` of struct `user` holds struct `dependency`, the first
/// struct of that name.
pub open spec fn holds_directly(structs: Seq<DefinitionModel>, user: int, k: int, dependency: int) -> bool {
    &&& 0 <= user < structs.len()
    &&& 0 <= k < structs[user].fields.len()
    &&& 0 <= dependency < structs.len()
    &&& primitive_type(structs[user].fields[k].field_type) is None
    &&& structs[user].fields[k].field_type == structs[dependency].name
    &&& !names_of(structs).take(dependency).contains(structs[dependency].name)
}

/// Whether struct `user` has a field that holds struct `dependency`.
pub open spec fn depends_on(structs: Seq<DefinitionModel>, user: int, dependency: int) -> bool {
    exists|k: int| holds_directly(structs, user, k, dependency)
}

/// The relation of a struct to each struct that holds it.
pub open spec fn dependency_relation(structs: Seq<DefinitionModel>) -> spec_fn(int, int) -> bool {
    |dependency: int, user: int| depends_on(structs, user, dependency)
}

/// The names that a file has defined so far.
pub struct TypeChecker {
    structs: Vec<String>,
    messages: Vec<String>,
}

impl TypeChecker {
    /// The names of the structs registered so far.
    pub closed spec fn struct_names(&self) -> Seq<Seq<char>> {
        texts(self.structs@)
    }

    /// The names of the messages registered so far.
    pub closed spec fn message_names(&self) -> Seq<Seq<char>> {
        texts(self.messages@)
    }

    /// A checker that knows no struct and no message.
    pub fn new() -> (checker: Self)
        ensures
            checker.struct_names() == Seq::<Seq<char>>::empty(),
            checker.message_names() == Seq::<Seq<char>>::empty(),
    {
        let checker = Self { structs: Vec::new(), messages: Vec::new() };
        assert(checker.struct_names() =~= Seq::<Seq<char>>::empty());
        assert(checker.message_names() =~= Seq::<Seq<char>>::empty());
        checker
    }

    fn primitive(name: &str) -> (found: Option<TypedFieldType>)
        ensures
            match found {
                Some(t) => primitive_type(name@) == Some(t@),
                None => primitive_type(name@) is None,
            },
    {
        if str_eq(name, "u8") {
            Some(TypedFieldType::U8)
        } else if str_eq(name, "u16") {
            Some(TypedFieldType::U16)
        } else if str_eq(name, "u32") {
            Some(TypedFieldType::U32)
        } else if str_eq(name, "u64") {
            Some(TypedFieldType::U64)
        } else if str_eq(name, "s8") {
            Some(TypedFieldType::S8)
        } else if str_eq(name, "s16") {
            Some(TypedFieldType::S16)
        } else if str_eq(name, "s32") {
            Some(TypedFieldType::S32)
        } else if str_eq(name, "s64") {
            Some(TypedFieldType::S64)
        } else if str_eq(name, "instant") {
            Some(TypedFieldType::Instant)
        } else if str_eq(name, "guid") {
            Some(TypedFieldType::Guid)
        } else if str_eq(name, "string") {
            Some(TypedFieldType::String)
        } else {
            None
        }
    }

    /// Rejects a name that a registered struct or message has.
    pub fn check_duplicate(&self, name: &IdentifierRaw) -> (checked: Result<(), TypeCheckError>)
        ensures
            match checked {
                Ok(()) => !self.struct_names().contains(name@) && !self.message_names().contains(
                    name@,
                ),
                Err(e) => (self.struct_names().contains(name@) || self.message_names().contains(
                    name@,
                )) && e@ == TypeCheckErrorModel::RepeatedName(name@),
            },
    {
        if contains_name(&self.structs, name.0) || contains_name(&self.messages, name.0) {
            return Err(TypeCheckError::RepeatedName(name.0.to_owned()));
        }
        Ok(())
    }

    /// Rejects fields of which two share a name. The error names the first
    /// field that repeats an earlier one, and `struct_name` as its owner.
    pub fn map_fields(&self, fields_raw: &[FieldRaw], struct_name: &str) -> (checked: Result<
        (),
        TypeCheckError,
    >)
        ensures
            match checked {
                Ok(()) => fields_name_error(fields_view(fields_raw@), struct_name@) is None,
                Err(e) => Some(e@) == fields_name_error(fields_view(fields_raw@), struct_name@),
            },
    {
        let ghost models = fields_view(fields_raw@);
        let ghost errors = Seq::new(
            models.len(),
            |k: int| field_name_error(models, k, struct_name@),
        );
        let mut seen: Vec<String> = Vec::new();
        let mut k: usize = 0;
        assert(texts(seen@) =~= field_names_of(models).take(0));
        while k < fields_raw.len()
            invariant
                k <= fields_raw.len(),
                models == fields_view(fields_raw@),
                errors == Seq::new(models.len(), |k: int| field_name_error(models, k, struct_name@)),
                texts(seen@) == field_names_of(models).take(k as int),
                forall|j: int| 0 <= j < k ==> errors[j] is None,
            decreases fields_raw.len() - k,
        {
            let field = &fields_raw[k];
            assert(models[k as int] == field@);
            if contains_name(&seen, field.0.0) {
                proof {
                    lemma_first_error_at(errors, k as int);
                }
                return Err(
                    TypeCheckError::RepeatedFieldName {
                        field_name: field.0.0.to_owned(),
                        struct_name: struct_name.to_owned(),
                    },
                );
            }
            let ghost before = seen@;
            let owned = field.0.0.to_owned();
            proof {
                lemma_texts_push(before, owned);
            }
            seen.push(owned);
            assert(field_names_of(models).take(k + 1) =~= field_names_of(models).take(
                k as int,
            ).push(models[k as int].name));
            k += 1;
        }
        proof {
            lemma_first_error_none(errors);
        }
        Ok(())
    }

    /// Resolves the name of a type against the names registered so far.
    pub fn resolve_type(&self, name: &IdentifierRaw) -> (resolved: Result<
        TypedFieldType,
        TypeCheckError,
    >)
        ensures
            match resolved {
                Ok(t) => resolved_type(name@, self.struct_names(), self.message_names()) == Ok::<
                    TypeIdModel,
                    TypeCheckErrorModel,
                >(t@),
                Err(e) => resolved_type(name@, self.struct_names(), self.message_names()) == Err::<
                    TypeIdModel,
                    TypeCheckErrorModel,
                >(e@),
            },
    {
        match Self::primitive(name.0) {
            Some(t) => Ok(t),
            None => {
                if contains_name(&self.structs, name.0) {
                    Ok(TypedFieldType::OtherStruct(name.0.to_owned()))
                } else if contains_name(&self.messages, name.0) {
                    Err(TypeCheckError::StructNotFoundMessageExists(name.0.to_owned()))
                } else {
                    Err(TypeCheckError::StructNotFound(name.0.to_owned()))
                }
            },
        }
    }

    /// Resolves the types of `fields`, in the order written.
    pub fn type_check_fields(&self, fields: &[FieldRaw]) -> (typed: Result<
        Vec<TypedField>,
        TypeCheckError,
    >)
        ensures
            match typed {
                Ok(v) => fields_resolution_error(
                    fields_view(fields@),
                    self.struct_names(),
                    self.message_names(),
                ) is None && typed_fields_view(v@) == typed_fields(
                    fields_view(fields@),
                    self.struct_names(),
                    self.message_names(),
                ),
                Err(e) => Some(e@) == fields_resolution_error(
                    fields_view(fields@),
                    self.struct_names(),
                    self.message_names(),
                ),
            },
    {
        let ghost models = fields_view(fields@);
        let ghost errors = Seq::new(
            models.len(),
            |k: int| type_error(models[k].field_type, self.struct_names(), self.message_names()),
        );
        let mut typed: Vec<TypedField> = Vec::new();
        let mut i: usize = 0;
        while i < fields.len()
            invariant
                i <= fields.len(),
                models == fields_view(fields@),
                errors == Seq::new(
                    models.len(),
                    |k: int|
                        type_error(models[k].field_type, self.struct_names(), self.message_names()),
                ),
                forall|j: int| 0 <= j < i ==> errors[j] is None,
                typed.len() == i,
                forall|j: int|
                    0 <= j < i ==> typed[j]@ == #[trigger] typed_fields(
                        models,
                        self.struct_names(),
                        self.message_names(),
                    )[j],
            decreases fields.len() - i,
        {
            let field = &fields[i];
            assert(models[i as int] == field@);
            match self.resolve_type(&field.1) {
                Ok(type_id) => {
                    typed.push(TypedField { name: field.0.0.to_owned(), type_id });
                },
                Err(e) => {
                    proof {
                        lemma_first_error_at(errors, i as int);
                    }
                    return Err(e);
                },
            }
            i += 1;
        }
        proof {
            lemma_first_error_none(errors);
            assert(typed_fields_view(typed@) =~= typed_fields(
                models,
                self.struct_names(),
                self.message_names(),
            ));
        }
        Ok(typed)
    }
}

/// The definitions at the given places, in that order.
pub open spec fn definitions_at(definitions: Seq<DefinitionModel>, places: Seq<usize>) -> Seq<
    DefinitionModel,
> {
    Seq::new(places.len(), |k: int| definitions[places[k] as int])
}

impl TypeChecker {
    /// Registers the names of the definitions, in the order written, after
    /// checking each definition against those registered before it. The
    /// places of the structs and of the messages among the definitions come
    /// back.
    pub fn register(&mut self, definitions: &[DefinitionRaw]) -> (checked: Result<
        (Vec<usize>, Vec<usize>),
        TypeCheckError,
    >)
        requires
            old(self).struct_names().len() == 0,
            old(self).message_names().len() == 0,
        ensures
            match checked {
                Ok((structs, messages)) => {
                    let models = definitions_view(definitions@);
                    &&& definitions_error(models) is None
                    &&& final(self).struct_names() == names_of(structs_of(models))
                    &&& final(self).message_names() == names_of(messages_of(models))
                    &&& forall|k: int| 0 <= k < structs.len() ==> structs[k] < definitions.len()
                    &&& forall|k: int| 0 <= k < messages.len() ==> messages[k] < definitions.len()
                    &&& definitions_at(models, structs@) == structs_of(models)
                    &&& definitions_at(models, messages@) == messages_of(models)
                },
                Err(e) => Some(e@) == definitions_error(definitions_view(definitions@)),
            },
    {
        let ghost models = definitions_view(definitions@);
        let ghost errors = Seq::new(models.len(), |i: int| definition_error(models, i));
        let mut structs: Vec<usize> = Vec::new();
        let mut messages: Vec<usize> = Vec::new();
        let mut i: usize = 0;
        proof {
            assert(models.take(0) =~= Seq::<DefinitionModel>::empty());
            assert(self.struct_names() =~= names_of(structs_of(models.take(0))));
            assert(self.message_names() =~= names_of(messages_of(models.take(0))));
            assert(definitions_at(models, structs@) =~= structs_of(models.take(0)));
            assert(definitions_at(models, messages@) =~= messages_of(models.take(0)));
        }
        while i < definitions.len()
            invariant
                i <= definitions.len(),
                models == definitions_view(definitions@),
                errors == Seq::new(models.len(), |i: int| definition_error(models, i)),
                self.struct_names() == names_of(structs_of(models.take(i as int))),
                self.message_names() == names_of(messages_of(models.take(i as int))),
                forall|k: int| 0 <= k < structs.len() ==> structs[k] < i,
                forall|k: int| 0 <= k < messages.len() ==> messages[k] < i,
                definitions_at(models, structs@) == structs_of(models.take(i as int)),
                definitions_at(models, messages@) == messages_of(models.take(i as int)),
                forall|j: int| 0 <= j < i ==> errors[j] is None,
            decreases definitions.len() - i,
        {
            let definition = &definitions[i];
            let ghost model = models[i as int];
            let ghost seen = models.take(i as int);
            let ghost longer = models.take(i + 1);
            proof {
                assert(model == definition@);
                assert(longer.drop_last() =~= seen);
                assert(longer.last() == model);
                assert(names_of(models).take(i as int) =~= names_of(seen));
                lemma_names_are_of_structs_or_messages(seen, model.name);
            }
            let (name, fields, is_message) = match definition {
                DefinitionRaw::Struct(name, fields) => (name, fields, false),
                DefinitionRaw::Message(name, fields) => (name, fields, true),
            };
            match self.check_duplicate(name) {
                Ok(()) => {},
                Err(e) => {
                    proof {
                        lemma_first_error_at(errors, i as int);
                    }
                    return Err(e);
                },
            }
            match self.map_fields(fields.as_slice(), name.0) {
                Ok(()) => {},
                Err(e) => {
                    proof {
                        lemma_first_error_at(errors, i as int);
                    }
                    return Err(e);
                },
            }
            let owned = name.0.to_owned();
            if is_message {
                let ghost before = self.messages@;
                let ghost places = messages@;
                proof {
                    lemma_texts_push(before, owned);
                }
                self.messages.push(owned);
                messages.push(i);
                proof {
                    assert(names_of(messages_of(longer)) =~= names_of(messages_of(seen)).push(
                        model.name,
                    ));
                    assert(definitions_at(models, messages@) =~= definitions_at(
                        models,
                        places,
                    ).push(model));
                }
            } else {
                let ghost before = self.structs@;
                let ghost places = structs@;
                proof {
                    lemma_texts_push(before, owned);
                }
                self.structs.push(owned);
                structs.push(i);
                proof {
                    assert(names_of(structs_of(longer)) =~= names_of(structs_of(seen)).push(
                        model.name,
                    ));
                    assert(definitions_at(models, structs@) =~= definitions_at(
                        models,
                        places,
                    ).push(model));
                }
            }
            i += 1;
        }
        proof {
            lemma_first_error_none(errors);
            assert(models.take(models.len() as int) =~= models);
        }
        Ok((structs, messages))
    }

    /// Resolves the field types of every definition, in the order written,
    /// and reports the first that is unresolved.
    fn check_types(&self, definitions: &[DefinitionRaw]) -> (checked: Result<(), TypeCheckError>)
        ensures
            match checked {
                Ok(()) => definitions_resolution_error(
                    definitions_view(definitions@),
                    self.struct_names(),
                    self.message_names(),
                ) is None,
                Err(e) => Some(e@) == definitions_resolution_error(
                    definitions_view(definitions@),
                    self.struct_names(),
                    self.message_names(),
                ),
            },
    {
        let ghost models = definitions_view(definitions@);
        let ghost errors = Seq::new(
            models.len(),
            |i: int|
                fields_resolution_error(models[i].fields, self.struct_names(), self.message_names()),
        );
        let mut i: usize = 0;
        while i < definitions.len()
            invariant
                i <= definitions.len(),
                models == definitions_view(definitions@),
                errors == Seq::new(
                    models.len(),
                    |i: int|
                        fields_resolution_error(
                            models[i].fields,
                            self.struct_names(),
                            self.message_names(),
                        ),
                ),
                forall|j: int| 0 <= j < i ==> errors[j] is None,
            decreases definitions.len() - i,
        {
            assert(models[i as int] == definitions[i as int]@);
            let fields = match &definitions[i] {
                DefinitionRaw::Struct(_, fields) => fields,
                DefinitionRaw::Message(_, fields) => fields,
            };
            match self.type_check_fields(fields.as_slice()) {
                Ok(_) => {},
                Err(e) => {
                    proof {
                        lemma_first_error_at(errors, i as int);
                    }
                    return Err(e);
                },
            }
            i += 1;
        }
        proof {
            lemma_first_error_none(errors);
        }
        Ok(())
    }

    /// The structs at the given places among the definitions, in that
    /// order, with the resolved types of their fields. The error is that of
    /// the first of them with an unresolved field type.
    pub fn type_structs_at(&self, definitions: &[DefinitionRaw], places: &Vec<usize>) -> (typed:
        Result<Vec<TypedStruct>, TypeCheckError>)
        requires
            forall|k: int| 0 <= k < places.len() ==> places[k] < definitions.len(),
        ensures
            match typed {
                Ok(v) => {
                    &&& first_error(
                        Seq::new(
                            places.len() as nat,
                            |k: int|
                                fields_resolution_error(
                                    definitions_view(definitions@)[places[k] as int].fields,
                                    self.struct_names(),
                                    self.message_names(),
                                ),
                        ),
                    ) is None
                    &&& typed_structs_view(v@) == typed_definitions(
                        definitions_at(definitions_view(definitions@), places@),
                        self.struct_names(),
                        self.message_names(),
                    )
                },
                Err(e) => Some(e@) == first_error(
                    Seq::new(
                        places.len() as nat,
                        |k: int|
                            fields_resolution_error(
                                definitions_view(definitions@)[places[k] as int].fields,
                                self.struct_names(),
                                self.message_names(),
                            ),
                    ),
                ),
            },
    {
        let ghost models = definitions_view(definitions@);
        let ghost wanted = typed_definitions(
            definitions_at(models, places@),
            self.struct_names(),
            self.message_names(),
        );
        let ghost errors = Seq::new(
            places.len() as nat,
            |k: int|
                fields_resolution_error(
                    models[places[k] as int].fields,
                    self.struct_names(),
                    self.message_names(),
                ),
        );
        let mut typed: Vec<TypedStruct> = Vec::new();
        let mut i: usize = 0;
        while i < places.len()
            invariant
                i <= places.len(),
                models == definitions_view(definitions@),
                forall|k: int| 0 <= k < places.len() ==> places[k] < definitions.len(),
                wanted == typed_definitions(
                    definitions_at(models, places@),
                    self.struct_names(),
                    self.message_names(),
                ),
                errors == Seq::new(
                    places.len() as nat,
                    |k: int|
                        fields_resolution_error(
                            models[places[k] as int].fields,
                            self.struct_names(),
                            self.message_names(),
                        ),
                ),
                forall|j: int| 0 <= j < i ==> errors[j] is None,
                typed.len() == i,
                forall|k: int| 0 <= k < i ==> (#[trigger] typed[k])@ == wanted[k],
            decreases places.len() - i,
        {
            let definition = &definitions[places[i]];
            assert(models[places[i as int] as int] == definition@);
            let (name, fields) = match definition {
                DefinitionRaw::Struct(name, fields) => (name, fields),
                DefinitionRaw::Message(name, fields) => (name, fields),
            };
            match self.type_check_fields(fields.as_slice()) {
                Ok(fields) => {
                    typed.push(TypedStruct { name: name.0.to_owned(), fields });
                },
                Err(e) => {
                    proof {
                        lemma_first_error_at(errors, i as int);
                    }
                    return Err(e);
                },
            }
            i += 1;
        }
        proof {
            lemma_first_error_none(errors);
            assert(typed_structs_view(typed@) =~= wanted);
        }
        Ok(typed)
    }

    /// The messages at the given places among the definitions, in that
    /// order, with the resolved types of their fields. The error is that of
    /// the first of them with an unresolved field type.
    pub fn type_messages_at(&self, definitions: &[DefinitionRaw], places: &Vec<usize>) -> (typed:
        Result<Vec<TypedMessage>, TypeCheckError>)
        requires
            forall|k: int| 0 <= k < places.len() ==> places[k] < definitions.len(),
        ensures
            match typed {
                Ok(v) => {
                    &&& first_error(
                        Seq::new(
                            places.len() as nat,
                            |k: int|
                                fields_resolution_error(
                                    definitions_view(definitions@)[places[k] as int].fields,
                                    self.struct_names(),
                                    self.message_names(),
                                ),
                        ),
                    ) is None
                    &&& typed_messages_view(v@) == typed_definitions(
                        definitions_at(definitions_view(definitions@), places@),
                        self.struct_names(),
                        self.message_names(),
                    )
                },
                Err(e) => Some(e@) == first_error(
                    Seq::new(
                        places.len() as nat,
                        |k: int|
                            fields_resolution_error(
                                definitions_view(definitions@)[places[k] as int].fields,
                                self.struct_names(),
                                self.message_names(),
                            ),
                    ),
                ),
            },
    {
        let ghost models = definitions_view(definitions@);
        let ghost wanted = typed_definitions(
            definitions_at(models, places@),
            self.struct_names(),
            self.message_names(),
        );
        let ghost errors = Seq::new(
            places.len() as nat,
            |k: int|
                fields_resolution_error(
                    models[places[k] as int].fields,
                    self.struct_names(),
                    self.message_names(),
                ),
        );
        let mut typed: Vec<TypedMessage> = Vec::new();
        let mut i: usize = 0;
        while i < places.len()
            invariant
                i <= places.len(),
                models == definitions_view(definitions@),
                forall|k: int| 0 <= k < places.len() ==> places[k] < definitions.len(),
                wanted == typed_definitions(
                    definitions_at(models, places@),
                    self.struct_names(),
                    self.message_names(),
                ),
                errors == Seq::new(
                    places.len() as nat,
                    |k: int|
                        fields_resolution_error(
                            models[places[k] as int].fields,
                            self.struct_names(),
                            self.message_names(),
                        ),
                ),
                forall|j: int| 0 <= j < i ==> errors[j] is None,
                typed.len() == i,
                forall|k: int| 0 <= k < i ==> (#[trigger] typed[k])@ == wanted[k],
            decreases places.len() - i,
        {
            let definition = &definitions[places[i]];
            assert(models[places[i as int] as int] == definition@);
            let (name, fields) = match definition {
                DefinitionRaw::Struct(name, fields) => (name, fields),
                DefinitionRaw::Message(name, fields) => (name, fields),
            };
            match self.type_check_fields(fields.as_slice()) {
                Ok(fields) => {
                    typed.push(TypedMessage { name: name.0.to_owned(), fields });
                },
                Err(e) => {
                    proof {
                        lemma_first_error_at(errors, i as int);
                    }
                    return Err(e);
                },
            }
            i += 1;
        }
        proof {
            lemma_first_error_none(errors);
            assert(typed_messages_view(typed@) =~= wanted);
        }
        Ok(typed)
    }

    /// One edge for each field that holds a struct, from the struct that is
    /// held to the struct that holds it. Structs are numbered in the order
    /// written.
    fn dependency_edges(
        &self,
        definitions: &[DefinitionRaw],
        places: &Vec<usize>,
        Ghost(structs): Ghost<Seq<DefinitionModel>>,
    ) -> (edges: Vec<(usize, usize)>)
        requires
            forall|k: int| 0 <= k < places.len() ==> places[k] < definitions.len(),
            structs == definitions_at(definitions_view(definitions@), places@),
            self.struct_names() == names_of(structs),
        ensures
            forall|e: int|
                0 <= e < edges.len() ==> (#[trigger] edges[e]).0 < places.len() && edges[e].1
                    < places.len(),
            forall|dependency: int, user: int|
                is_edge(edges@, dependency, user) <==> depends_on(structs, user, dependency),
    {
        let ghost models = definitions_view(definitions@);
        let mut edges: Vec<(usize, usize)> = Vec::new();
        let mut i: usize = 0;
        while i < places.len()
            invariant
                i <= places.len(),
                models == definitions_view(definitions@),
                forall|k: int| 0 <= k < places.len() ==> places[k] < definitions.len(),
                structs == definitions_at(models, places@),
                self.struct_names() == names_of(structs),
                forall|e: int|
                    0 <= e < edges.len() ==> (#[trigger] edges[e]).0 < places.len() && edges[e].1
                        < places.len(),
                forall|dependency: int, user: int|
                    is_edge(edges@, dependency, user) ==> depends_on(structs, user, dependency),
                forall|dependency: int, user: int, k: int|
                    user < i && holds_directly(structs, user, k, dependency) ==> is_edge(
                        edges@,
                        dependency,
                        user,
                    ),
            decreases places.len() - i,
        {
            let definition = &definitions[places[i]];
            assert(models[places[i as int] as int] == definition@);
            assert(structs[i as int] == models[places[i as int] as int]);
            let fields = match definition {
                DefinitionRaw::Struct(_, fields) => fields,
                DefinitionRaw::Message(_, fields) => fields,
            };
            let mut k: usize = 0;
            while k < fields.len()
                invariant
                    i < places.len(),
                    k <= fields.len(),
                    structs[i as int].fields == fields_view(fields@),
                    structs.len() == places.len(),
                    self.struct_names() == names_of(structs),
                    forall|e: int|
                        0 <= e < edges.len() ==> (#[trigger] edges[e]).0 < places.len()
                            && edges[e].1 < places.len(),
                    forall|dependency: int, user: int|
                        is_edge(edges@, dependency, user) ==> depends_on(structs, user, dependency),
                    forall|dependency: int, user: int, f: int|
                        user < i && holds_directly(structs, user, f, dependency) ==> is_edge(
                            edges@,
                            dependency,
                            user,
                        ),
                    forall|dependency: int, f: int|
                        f < k && holds_directly(structs, i as int, f, dependency) ==> is_edge(
                            edges@,
                            dependency,
                            i as int,
                        ),
                decreases fields.len() - k,
            {
                let wanted = fields[k].1.0;
                assert(structs[i as int].fields[k as int] == fields[k as int]@);
                let mut target: Option<usize> = None;
                let primitive = Self::primitive(wanted);
                if primitive.is_none() {
                    target = position_of(&self.structs, wanted);
                }
                let ghost before = edges@;
                assert(texts(self.structs@).len() == structs.len());
                match target {
                    Some(j) => {
                        edges.push((j, i));
                        proof {
                            assert(names_of(structs)[j as int] == wanted@);
                            assert(!names_of(structs).take(j as int).contains(
                                structs[j as int].name,
                            )) by {
                                if names_of(structs).take(j as int).contains(structs[j as int].name) {
                                    let w = choose|w: int|
                                        0 <= w < j && names_of(structs).take(j as int)[w]
                                            == structs[j as int].name;
                                    assert(texts(self.structs@)[w] == self.structs[w]@);
                                }
                            }
                            assert(holds_directly(structs, i as int, k as int, j as int));
                            assert forall|dependency: int, user: int|
                                is_edge(edges@, dependency, user) implies depends_on(
                                structs,
                                user,
                                dependency,
                            ) by {
                                lemma_is_edge_push(before, (j, i), dependency, user);
                            }
                            assert forall|dependency: int, user: int, f: int|
                                user < i && holds_directly(
                                    structs,
                                    user,
                                    f,
                                    dependency,
                                ) implies is_edge(edges@, dependency, user) by {
                                lemma_is_edge_push(before, (j, i), dependency, user);
                            }
                            assert forall|dependency: int, f: int|
                                f < k + 1 && holds_directly(
                                    structs,
                                    i as int,
                                    f,
                                    dependency,
                                ) implies is_edge(edges@, dependency, i as int) by {
                                lemma_is_edge_push(before, (j, i), dependency, i as int);
                                if f == k {
                                    if dependency < j {
                                        assert(texts(self.structs@)[dependency]
                                            == self.structs[dependency]@);
                                    } else if dependency > j {
                                        assert(names_of(structs).take(dependency)[j as int]
                                            == structs[dependency].name);
                                    }
                                }
                            }
                        }
                    },
                    None => {
                        proof {
                            assert forall|dependency: int, f: int|
                                f < k + 1 && holds_directly(
                                    structs,
                                    i as int,
                                    f,
                                    dependency,
                                ) implies is_edge(edges@, dependency, i as int) by {
                                if f == k {
                                    assert(texts(self.structs@)[dependency]
                                        == self.structs[dependency]@);
                                }
                            }
                        }
                    },
                }
                k += 1;
            }
            i += 1;
        }
        proof {
            assert forall|dependency: int, user: int|
                depends_on(structs, user, dependency) implies is_edge(edges@, dependency, user) by {
                let k = choose|k: int| holds_directly(structs, user, k, dependency);
                assert(holds_directly(structs, user, k, dependency));
            }
        }
        edges
    }

    /// Checks a file. On success the structs come back in dependency order,
    /// the messages and the metadata fields in the order written, every type
    /// resolved. The first error in the order of [`validation_error`] is
    /// reported; a file without such an error is rejected only where one of
    /// its structs holds itself, directly or through other structs, and the
    /// error then names a struct on such a cycle.
    pub fn check(self, file: FileRaw) -> (checked: Result<TypedFile, TypeCheckError>)
        ensures
            match checked {
                Ok(typed) => {
                    &&& validation_error(file@) is None
                    &&& forall|i: int|
                        !on_cycle(dependency_relation(structs_of(file@.definitions)), i)
                    &&& exists|order: Seq<usize>| #[trigger]
                        is_topological_order(
                            order,
                            structs_of(file@.definitions).len(),
                            dependency_relation(structs_of(file@.definitions)),
                        ) && typed@ == typed_file(file@, order)
                },
                Err(e) => match validation_error(file@) {
                    Some(error) => e@ == error,
                    None => exists|i: int|
                        0 <= i < structs_of(file@.definitions).len() && #[trigger] on_cycle(
                            dependency_relation(structs_of(file@.definitions)),
                            i,
                        ) && e@ == TypeCheckErrorModel::CyclicDependency(
                            structs_of(file@.definitions)[i].name,
                        ),
                },
            },
    {
        let mut checker = TypeChecker::new();
        let definitions = file.definitions();
        let ghost models = file@.definitions;
        let ghost structs = structs_of(models);
        let ghost struct_names = names_of(structs);
        let ghost message_names = names_of(messages_of(models));
        let (struct_places, message_places) = match checker.register(definitions) {
            Ok(places) => places,
            Err(e) => {
                return Err(e);
            },
        };
        let metadata = file.metadata();
        match metadata {
            Some(m) => {
                match checker.map_fields(m.fields(), "metadata") {
                    Ok(()) => {},
                    Err(e) => {
                        return Err(e);
                    },
                }
            },
            None => {},
        }
        match checker.check_types(definitions) {
            Ok(()) => {},
            Err(e) => {
                return Err(e);
            },
        }
        let meta_fields = match metadata {
            Some(m) => {
                match checker.type_check_fields(m.fields()) {
                    Ok(v) => v,
                    Err(e) => {
                        return Err(e);
                    },
                }
            },
            None => {
                let v: Vec<TypedField> = Vec::new();
                assert(typed_fields_view(v@) =~= Seq::<TypedFieldModel>::empty());
                v
            },
        };
        assert(validation_error(file@) is None);
        let ghost every = Seq::new(
            models.len(),
            |i: int| fields_resolution_error(models[i].fields, struct_names, message_names),
        );
        let edges = checker.dependency_edges(definitions, &struct_places, Ghost(structs));
        let ghost related = dependency_relation(structs);
        let order = match toposort(struct_places.len(), &edges) {
            Err(node) => {
                proof {
                    let walk = choose|walk: Seq<int>| #[trigger]
                        is_walk(edge_relation(edges@), walk) && walk[0] == node && walk[walk.len()
                            - 1] == node;
                    assert forall|k: int| 0 <= k < walk.len() - 1 implies related(
                        #[trigger] walk[k],
                        walk[k + 1],
                    ) by {
                        assert(edge_relation(edges@)(walk[k], walk[k + 1]));
                    }
                    assert(is_walk(related, walk));
                    assert(on_cycle(related, node as int));
                    assert(structs[node as int] == models[struct_places[node as int] as int]);
                    assert(models[struct_places[node as int] as int]
                        == definitions[struct_places[node as int] as int]@);
                }
                let name = match &definitions[struct_places[node]] {
                    DefinitionRaw::Struct(name, _) => name.0.to_owned(),
                    DefinitionRaw::Message(name, _) => name.0.to_owned(),
                };
                return Err(TypeCheckError::CyclicDependency(name));
            },
            Ok(order) => order,
        };
        proof {
            assert(is_topological_order(order@, structs.len(), related)) by {
                assert forall|a: int, b: int|
                    0 <= a < order@.len() && 0 <= b < order@.len() && related(
                        #[trigger] order@[a] as int,
                        #[trigger] order@[b] as int,
                    ) implies a < b by {
                    assert(edge_relation(edges@)(order@[a] as int, order@[b] as int));
                }
            }
            assert(relates_nodes_only(related, structs.len()));
            assert forall|i: int| !on_cycle(related, i) by {
                lemma_ordered_graph_has_no_cycle(order@, structs.len(), related, i);
            }
        }
        let mut ordered: Vec<usize> = Vec::new();
        let mut k: usize = 0;
        while k < order.len()
            invariant
                k <= order.len(),
                ordered.len() == k,
                order.len() == struct_places.len(),
                forall|j: int| 0 <= j < order.len() ==> order[j] < struct_places.len(),
                forall|j: int| 0 <= j < struct_places.len() ==> struct_places[j] < definitions.len(),
                forall|j: int| 0 <= j < k ==> ordered[j] == struct_places[order[j] as int],
            decreases order.len() - k,
        {
            ordered.push(struct_places[order[k]]);
            k += 1;
        }
        proof {
            let in_order = Seq::new(
                ordered.len() as nat,
                |k: int|
                    fields_resolution_error(
                        models[ordered[k] as int].fields,
                        struct_names,
                        message_names,
                    ),
            );
            assert forall|k: int| 0 <= k < in_order.len() implies in_order[k] is None by {
                lemma_no_first_error(every, ordered[k] as int);
            }
            lemma_first_error_none(in_order);
            let of_messages = Seq::new(
                message_places.len() as nat,
                |k: int|
                    fields_resolution_error(
                        models[message_places[k] as int].fields,
                        struct_names,
                        message_names,
                    ),
            );
            assert forall|k: int| 0 <= k < of_messages.len() implies of_messages[k] is None by {
                lemma_no_first_error(every, message_places[k] as int);
            }
            lemma_first_error_none(of_messages);
        }
        let typed_structs = match checker.type_structs_at(definitions, &ordered) {
            Ok(v) => v,
            Err(e) => {
                return Err(e);
            },
        };
        let typed_messages = match checker.type_messages_at(definitions, &message_places) {
            Ok(v) => v,
            Err(e) => {
                return Err(e);
            },
        };
        proof {
            assert(definitions_at(models, ordered@) =~= Seq::new(
                order@.len(),
                |k: int| structs[order@[k] as int],
            )) by {
                assert forall|k: int| 0 <= k < ordered.len() implies definitions_at(
                    models,
                    ordered@,
                )[k] == structs[order@[k] as int] by {
                    assert(structs[order[k] as int] == models[struct_places[order[k] as int] as int]);
                }
            }
            assert(typed_structs_view(typed_structs@) =~= typed_in_order(
                structs,
                order@,
                struct_names,
                message_names,
            ));
        }
        let typed = TypedFile {
            structs: typed_structs,
            messages: typed_messages,
            meta: TypedMetadata { fields: meta_fields },
        };
        assert(typed@ == typed_file(file@, order@));
        Ok(typed)
    }
}

} // verus!
