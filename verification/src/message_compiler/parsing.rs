//! The raw syntax tree of an interface definition file.
//!
//! Every node has a view: a ghost model that holds names as character
//! sequences and children as sequences of models. Contracts elsewhere in the
//! compiler speak of these models only.

use vstd::prelude::*;

pub mod grammar;

verus! {

/// An identifier as it stands in the source text.
#[derive(Debug, PartialEq, Eq)]
pub struct IdentifierRaw<'input>(pub &'input str);

impl<'input> View for IdentifierRaw<'input> {
    type V = Seq<char>;

    open spec fn view(&self) -> Seq<char> {
        self.0@
    }
}

impl<'input> IdentifierRaw<'input> {
    #[must_use]
    pub fn new(name: &'input str) -> (id: Self)
        ensures
            id@ == name@,
    {
        Self(name)
    }
}

/// The model of a type reference: a name, whether it is optional, and how many
/// array brackets enclose it.
pub ghost struct TypeModel {
    pub name: Seq<char>,
    pub optional: bool,
    pub array_depth: nat,
}

/// A reference to a type: `name`, `name?`, or either of them inside array
/// brackets.
#[derive(Debug, PartialEq, Eq)]
pub struct TypeRaw<'input> {
    pub name: IdentifierRaw<'input>,
    pub optional: bool,
    pub array_depth: usize,
}

impl<'input> View for TypeRaw<'input> {
    type V = TypeModel;

    open spec fn view(&self) -> TypeModel {
        TypeModel { name: self.name@, optional: self.optional, array_depth: self.array_depth as nat }
    }
}

impl<'input> TypeRaw<'input> {
    /// A plain or optional reference to the named type.
    #[must_use]
    pub fn new(name: IdentifierRaw<'input>, optional: bool) -> (ty: Self)
        ensures
            ty@ == (TypeModel { name: name@, optional, array_depth: 0 }),
    {
        Self { name, optional, array_depth: 0 }
    }

    /// The array whose elements have type `element`. `None` when the nesting
    /// would not fit the machine word.
    #[must_use]
    pub fn array_of(element: TypeRaw<'input>) -> (ty: Option<Self>)
        ensures
            match ty {
                Some(t) => element.array_depth < usize::MAX && t@ == (TypeModel {
                    array_depth: element@.array_depth + 1,
                    ..element@
                }),
                None => element.array_depth == usize::MAX,
            },
    {
        if element.array_depth == usize::MAX {
            None
        } else {
            Some(Self { name: element.name, optional: element.optional, array_depth: element.array_depth + 1 })
        }
    }
}

pub ghost struct FieldModel {
    pub name: Seq<char>,
    pub field_type: TypeModel,
}

/// A field: a name and the type it holds.
#[derive(Debug, PartialEq, Eq)]
pub struct FieldRaw<'input> {
    pub name: IdentifierRaw<'input>,
    pub field_type: TypeRaw<'input>,
}

impl<'input> View for FieldRaw<'input> {
    type V = FieldModel;

    open spec fn view(&self) -> FieldModel {
        FieldModel { name: self.name@, field_type: self.field_type@ }
    }
}

impl<'input> FieldRaw<'input> {
    #[must_use]
    pub fn new(name: IdentifierRaw<'input>, field_type: TypeRaw<'input>) -> (field: Self)
        ensures
            field@ == (FieldModel { name: name@, field_type: field_type@ }),
    {
        Self { name, field_type }
    }
}

/// The models of a sequence of fields, in order.
pub open spec fn fields_view<'input>(fields: Seq<FieldRaw<'input>>) -> Seq<FieldModel> {
    Seq::new(fields.len(), |i: int| fields[i]@)
}

pub ghost struct StructModel {
    pub name: Seq<char>,
    pub fields: Seq<FieldModel>,
}

/// A struct definition: its name and its fields in the order written.
#[derive(Debug, PartialEq, Eq)]
pub struct StructDefinitionRaw<'input>(pub IdentifierRaw<'input>, pub Vec<FieldRaw<'input>>);

impl<'input> View for StructDefinitionRaw<'input> {
    type V = StructModel;

    open spec fn view(&self) -> StructModel {
        StructModel { name: self.0@, fields: fields_view(self.1@) }
    }
}

pub open spec fn structs_view<'input>(structs: Seq<StructDefinitionRaw<'input>>) -> Seq<StructModel> {
    Seq::new(structs.len(), |i: int| structs[i]@)
}

/// The metadata block of a file.
#[derive(Debug, PartialEq, Eq)]
pub struct MetadataRaw<'input> {
    fields: Vec<FieldRaw<'input>>,
}

impl<'input> View for MetadataRaw<'input> {
    type V = Seq<FieldModel>;

    closed spec fn view(&self) -> Seq<FieldModel> {
        fields_view(self.fields@)
    }
}

impl<'input> MetadataRaw<'input> {
    #[must_use]
    pub fn new(fields: Vec<FieldRaw<'input>>) -> (metadata: Self)
        ensures
            metadata@ == fields_view(fields@),
    {
        Self { fields }
    }

    #[must_use]
    pub fn fields(&self) -> (fields: &[FieldRaw<'input>])
        ensures
            fields_view(fields@) == self@,
    {
        self.fields.as_slice()
    }
}

pub ghost struct VariantModel {
    pub name: Seq<char>,
    pub fields: Seq<FieldModel>,
}

/// One variant of an enum with the fields it carries.
#[derive(Debug, PartialEq, Eq)]
pub struct EnumVariantRaw<'input> {
    pub name: IdentifierRaw<'input>,
    pub fields: Vec<FieldRaw<'input>>,
}

impl<'input> View for EnumVariantRaw<'input> {
    type V = VariantModel;

    open spec fn view(&self) -> VariantModel {
        VariantModel { name: self.name@, fields: fields_view(self.fields@) }
    }
}

impl<'input> EnumVariantRaw<'input> {
    #[must_use]
    pub fn new(name: IdentifierRaw<'input>, fields: Vec<FieldRaw<'input>>) -> (variant: Self)
        ensures
            variant@ == (VariantModel { name: name@, fields: fields_view(fields@) }),
    {
        Self { name, fields }
    }
}

pub open spec fn variants_view<'input>(variants: Seq<EnumVariantRaw<'input>>) -> Seq<VariantModel> {
    Seq::new(variants.len(), |i: int| variants[i]@)
}

pub ghost struct EnumModel {
    pub name: Seq<char>,
    pub variants: Seq<VariantModel>,
}

/// An enum definition: its name and its variants in the order written.
#[derive(Debug, PartialEq, Eq)]
pub struct EnumDefinitionRaw<'input> {
    pub name: IdentifierRaw<'input>,
    pub variants: Vec<EnumVariantRaw<'input>>,
}

impl<'input> View for EnumDefinitionRaw<'input> {
    type V = EnumModel;

    open spec fn view(&self) -> EnumModel {
        EnumModel { name: self.name@, variants: variants_view(self.variants@) }
    }
}

impl<'input> EnumDefinitionRaw<'input> {
    #[must_use]
    pub fn new(name: IdentifierRaw<'input>, variants: Vec<EnumVariantRaw<'input>>) -> (definition: Self)
        ensures
            definition@ == (EnumModel { name: name@, variants: variants_view(variants@) }),
    {
        Self { name, variants }
    }
}

pub open spec fn enums_view<'input>(enums: Seq<EnumDefinitionRaw<'input>>) -> Seq<EnumModel> {
    Seq::new(enums.len(), |i: int| enums[i]@)
}

pub ghost struct RpcDefinitionModel {
    pub name: Seq<char>,
    pub request: TypeModel,
    pub response: TypeModel,
    pub is_stream: bool,
}

/// One call of an interface: `name(request) -> response;`, where the
/// response may be a stream of values.
#[derive(Debug, PartialEq, Eq)]
pub struct RpcDefinitionRaw<'input> {
    pub name: IdentifierRaw<'input>,
    pub request: TypeRaw<'input>,
    pub response: TypeRaw<'input>,
    pub is_stream: bool,
}

impl<'input> View for RpcDefinitionRaw<'input> {
    type V = RpcDefinitionModel;

    open spec fn view(&self) -> RpcDefinitionModel {
        RpcDefinitionModel {
            name: self.name@,
            request: self.request@,
            response: self.response@,
            is_stream: self.is_stream,
        }
    }
}

impl<'input> RpcDefinitionRaw<'input> {
    #[must_use]
    pub fn new(
        name: IdentifierRaw<'input>,
        request: TypeRaw<'input>,
        response: TypeRaw<'input>,
        is_stream: bool,
    ) -> (definition: Self)
        ensures
            definition@ == (RpcDefinitionModel {
                name: name@,
                request: request@,
                response: response@,
                is_stream,
            }),
    {
        Self { name, request, response, is_stream }
    }
}

pub open spec fn rpc_definitions_view<'input>(
    definitions: Seq<RpcDefinitionRaw<'input>>,
) -> Seq<RpcDefinitionModel> {
    Seq::new(definitions.len(), |i: int| definitions[i]@)
}

/// The calls of one direction of an interface.
#[derive(Debug, PartialEq, Eq)]
pub struct RpcRaw<'input> {
    pub definitions: Vec<RpcDefinitionRaw<'input>>,
}

impl<'input> View for RpcRaw<'input> {
    type V = Seq<RpcDefinitionModel>;

    open spec fn view(&self) -> Seq<RpcDefinitionModel> {
        rpc_definitions_view(self.definitions@)
    }
}

impl<'input> RpcRaw<'input> {
    #[must_use]
    pub fn new(definitions: Vec<RpcDefinitionRaw<'input>>) -> (rpc: Self)
        ensures
            rpc@ == rpc_definitions_view(definitions@),
    {
        Self { definitions }
    }
}

/// The model of a whole file.
pub ghost struct FileModel {
    pub metadata: Option<Seq<FieldModel>>,
    pub structs: Seq<StructModel>,
    pub enums: Seq<EnumModel>,
    pub rpc: Option<Seq<RpcDefinitionModel>>,
    pub reverse_rpc: Option<Seq<RpcDefinitionModel>>,
}

/// A parsed file: optional metadata, the struct and enum definitions in the
/// order written, and the calls of the forward and of the reverse direction.
#[derive(Debug, PartialEq, Eq)]
pub struct FileRaw<'input> {
    metadata: Option<MetadataRaw<'input>>,
    structs: Vec<StructDefinitionRaw<'input>>,
    enums: Vec<EnumDefinitionRaw<'input>>,
    rpc: Option<RpcRaw<'input>>,
    reverse_rpc: Option<RpcRaw<'input>>,
}

pub open spec fn metadata_option_view<'input>(metadata: Option<MetadataRaw<'input>>) -> Option<
    Seq<FieldModel>,
> {
    match metadata {
        Some(m) => Some(m@),
        None => None,
    }
}

pub open spec fn rpc_option_view<'input>(rpc: Option<RpcRaw<'input>>) -> Option<
    Seq<RpcDefinitionModel>,
> {
    match rpc {
        Some(r) => Some(r@),
        None => None,
    }
}

impl<'input> View for FileRaw<'input> {
    type V = FileModel;

    closed spec fn view(&self) -> FileModel {
        FileModel {
            metadata: metadata_option_view(self.metadata),
            structs: structs_view(self.structs@),
            enums: enums_view(self.enums@),
            rpc: rpc_option_view(self.rpc),
            reverse_rpc: rpc_option_view(self.reverse_rpc),
        }
    }
}

impl<'input> FileRaw<'input> {
    /// A file without calls in the reverse direction.
    #[must_use]
    pub fn new(
        metadata: Option<MetadataRaw<'input>>,
        structs: Vec<StructDefinitionRaw<'input>>,
        enums: Vec<EnumDefinitionRaw<'input>>,
        rpc: Option<RpcRaw<'input>>,
    ) -> (file: Self)
        ensures
            file@ == (FileModel {
                metadata: metadata_option_view(metadata),
                structs: structs_view(structs@),
                enums: enums_view(enums@),
                rpc: rpc_option_view(rpc),
                reverse_rpc: None,
            }),
    {
        Self { metadata, structs, enums, rpc, reverse_rpc: None }
    }

    /// The same file with `reverse_rpc` as the calls of the reverse direction.
    #[must_use]
    pub fn with_reverse_rpc(self, reverse_rpc: Option<RpcRaw<'input>>) -> (file: Self)
        ensures
            file@ == (FileModel { reverse_rpc: rpc_option_view(reverse_rpc), ..self@ }),
    {
        Self {
            metadata: self.metadata,
            structs: self.structs,
            enums: self.enums,
            rpc: self.rpc,
            reverse_rpc,
        }
    }

    #[must_use]
    pub fn metadata(&self) -> (metadata: Option<&MetadataRaw<'input>>)
        ensures
            match metadata {
                Some(m) => self@.metadata == Some(m@),
                None => self@.metadata is None,
            },
    {
        self.metadata.as_ref()
    }

    #[must_use]
    pub fn structs(&self) -> (structs: &[StructDefinitionRaw<'input>])
        ensures
            structs_view(structs@) == self@.structs,
    {
        self.structs.as_slice()
    }

    #[must_use]
    pub fn enums(&self) -> (enums: &[EnumDefinitionRaw<'input>])
        ensures
            enums_view(enums@) == self@.enums,
    {
        self.enums.as_slice()
    }

    #[must_use]
    pub fn rpc(&self) -> (rpc: Option<&RpcRaw<'input>>)
        ensures
            match rpc {
                Some(r) => self@.rpc == Some(r@),
                None => self@.rpc is None,
            },
    {
        self.rpc.as_ref()
    }

    #[must_use]
    pub fn reverse_rpc(&self) -> (rpc: Option<&RpcRaw<'input>>)
        ensures
            match rpc {
                Some(r) => self@.reverse_rpc == Some(r@),
                None => self@.reverse_rpc is None,
            },
    {
        self.reverse_rpc.as_ref()
    }
}

} // verus!
