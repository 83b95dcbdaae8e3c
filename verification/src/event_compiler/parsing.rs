//! The raw syntax tree of an event definition file.

use vstd::prelude::*;

pub mod grammar;

verus! {

/// An identifier as it stands in the source text.
#[derive(Debug, PartialEq)]
pub struct IdentifierRaw<'input>(pub &'input str);

impl<'input> View for IdentifierRaw<'input> {
    type V = Seq<char>;

    open spec fn view(&self) -> Seq<char> {
        self.0@
    }
}

impl<'input> IdentifierRaw<'input> {
    pub fn new(name: &'input str) -> (id: Self)
        ensures
            id@ == name@,
    {
        Self(name)
    }
}

pub ghost struct FieldModel {
    pub name: Seq<char>,
    pub field_type: Seq<char>,
}

/// A field: its name and the name of its type.
#[derive(Debug, PartialEq)]
pub struct FieldRaw<'input>(pub IdentifierRaw<'input>, pub IdentifierRaw<'input>);

impl<'input> View for FieldRaw<'input> {
    type V = FieldModel;

    open spec fn view(&self) -> FieldModel {
        FieldModel { name: self.0@, field_type: self.1@ }
    }
}

impl<'input> FieldRaw<'input> {
    pub fn new(name: IdentifierRaw<'input>, field_type: IdentifierRaw<'input>) -> (field: Self)
        ensures
            field@ == (FieldModel { name: name@, field_type: field_type@ }),
    {
        Self(name, field_type)
    }
}

pub open spec fn fields_view<'input>(fields: Seq<FieldRaw<'input>>) -> Seq<FieldModel> {
    Seq::new(fields.len(), |i: int| fields[i]@)
}

pub ghost struct DefinitionModel {
    pub is_message: bool,
    pub name: Seq<char>,
    pub fields: Seq<FieldModel>,
}

/// A definition: a struct, which other definitions may hold, or a message.
#[derive(Debug, PartialEq)]
pub enum DefinitionRaw<'input> {
    Struct(IdentifierRaw<'input>, Vec<FieldRaw<'input>>),
    Message(IdentifierRaw<'input>, Vec<FieldRaw<'input>>),
}

impl<'input> View for DefinitionRaw<'input> {
    type V = DefinitionModel;

    open spec fn view(&self) -> DefinitionModel {
        match self {
            DefinitionRaw::Struct(name, fields) => DefinitionModel {
                is_message: false,
                name: name@,
                fields: fields_view(fields@),
            },
            DefinitionRaw::Message(name, fields) => DefinitionModel {
                is_message: true,
                name: name@,
                fields: fields_view(fields@),
            },
        }
    }
}

pub open spec fn definitions_view<'input>(definitions: Seq<DefinitionRaw<'input>>) -> Seq<
    DefinitionModel,
> {
    Seq::new(definitions.len(), |i: int| definitions[i]@)
}

/// The metadata block of a file.
#[derive(Debug, PartialEq)]
pub struct MetadataRaw<'input> {
    fields: Vec<FieldRaw<'input>>,
}

impl<'input> View for MetadataRaw<'input> {
    type V = Seq<FieldModel>;

    closed spec fn view(&self) -> Seq<FieldModel> {
        fields_view(self.fields@)
    }
}

impl<'input> MetadataRaw<'input> {
    pub fn new(fields: Vec<FieldRaw<'input>>) -> (metadata: Self)
        ensures
            metadata@ == fields_view(fields@),
    {
        Self { fields }
    }

    pub fn fields(&self) -> (fields: &[FieldRaw<'input>])
        ensures
            fields_view(fields@) == self@,
    {
        self.fields.as_slice()
    }
}

pub ghost struct FileModel {
    pub metadata: Option<Seq<FieldModel>>,
    pub definitions: Seq<DefinitionModel>,
}

/// A parsed file: optional metadata and the definitions in the order
/// written.
#[derive(Debug, PartialEq)]
pub struct FileRaw<'input> {
    metadata: Option<MetadataRaw<'input>>,
    definitions: Vec<DefinitionRaw<'input>>,
}

pub open spec fn metadata_option_view<'input>(metadata: Option<MetadataRaw<'input>>) -> Option<
    Seq<FieldModel>,
> {
    match metadata {
        Some(m) => Some(m@),
        None => None,
    }
}

impl<'input> View for FileRaw<'input> {
    type V = FileModel;

    closed spec fn view(&self) -> FileModel {
        FileModel {
            metadata: metadata_option_view(self.metadata),
            definitions: definitions_view(self.definitions@),
        }
    }
}

impl<'input> FileRaw<'input> {
    pub fn new(
        metadata: Option<MetadataRaw<'input>>,
        definitions: Vec<DefinitionRaw<'input>>,
    ) -> (file: Self)
        ensures
            file@ == (FileModel {
                metadata: metadata_option_view(metadata),
                definitions: definitions_view(definitions@),
            }),
    {
        Self { metadata, definitions }
    }

    pub fn metadata(&self) -> (metadata: Option<&MetadataRaw<'input>>)
        ensures
            match metadata {
                Some(m) => self@.metadata == Some(m@),
                None => self@.metadata is None,
            },
    {
        self.metadata.as_ref()
    }

    pub fn definitions(&self) -> (definitions: &[DefinitionRaw<'input>])
        ensures
            definitions_view(definitions@) == self@.definitions,
    {
        self.definitions.as_slice()
    }
}

} // verus!
