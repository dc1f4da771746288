//! Struct schemas: as declared, and as validated.

use vstd::prelude::*;
use crate::type_desc::{TypeDesc, TypeShape};

verus! {

/// One token of the arguments of a field annotation.
#[derive(Debug, PartialEq, Eq)]
pub enum AttrToken {
    /// An identifier or keyword.
    Ident(String),
    /// A single punctuation character.
    Punct(char),
    /// A literal, by its source text as the lexer delimits it.
    Literal(String),
    /// A delimited group; its contents are not read.
    Group,
}

/// Mathematical model of an [`AttrToken`].
pub enum TokenModel {
    Ident(Seq<char>),
    Punct(char),
    Literal(Seq<char>),
    Group,
}

impl View for AttrToken {
    type V = TokenModel;

    open spec fn view(&self) -> TokenModel {
        match self {
            AttrToken::Ident(text) => TokenModel::Ident(text@),
            AttrToken::Punct(c) => TokenModel::Punct(*c),
            AttrToken::Literal(text) => TokenModel::Literal(text@),
            AttrToken::Group => TokenModel::Group,
        }
    }
}

impl DeepView for AttrToken {
    type V = TokenModel;

    open spec fn deep_view(&self) -> TokenModel {
        self@
    }
}

/// What kind of item a schema was declared as.
#[derive(Clone, Copy, Debug, PartialEq, Eq, Structural)]
pub enum Shape {
    /// A struct with named fields.
    NamedStruct,
    /// A struct with positional fields.
    TupleStruct,
    /// A struct without fields.
    UnitStruct,
    /// An enumeration.
    Enum,
    /// A union.
    Union,
    /// A function or other callable.
    Function,
}

/// How the layout engine places the fields of a struct.
#[derive(Clone, Copy, Debug, PartialEq, Eq, Structural)]
pub enum PackingMode {
    /// Fields follow each other with no implicit alignment padding.
    StrictPacked,
    /// Any other layout.
    Other,
}

/// A field as declared: its annotation, if any, is still unparsed.
#[derive(Debug, PartialEq, Eq)]
pub struct RawField {
    pub name: String,
    pub ty: TypeDesc,
    /// The argument tokens of the field's offset annotation.
    pub annotation: Option<Vec<AttrToken>>,
}

/// Mathematical model of a [`RawField`].
pub struct RawFieldModel {
    pub name: Seq<char>,
    pub ty: TypeShape,
    pub annotation: Option<Seq<TokenModel>>,
}

impl View for RawField {
    type V = RawFieldModel;

    open spec fn view(&self) -> RawFieldModel {
        RawFieldModel { name: self.name@, ty: self.ty@, annotation: self.annotation.deep_view() }
    }
}

impl DeepView for RawField {
    type V = RawFieldModel;

    open spec fn deep_view(&self) -> RawFieldModel {
        self@
    }
}

/// A schema as declared, before any check.
#[derive(Debug, PartialEq, Eq)]
pub struct RawSchema {
    pub name: String,
    pub shape: Shape,
    pub packing: PackingMode,
    pub fields: Vec<RawField>,
}

/// Mathematical model of a [`RawSchema`].
pub struct RawSchemaModel {
    pub name: Seq<char>,
    pub shape: Shape,
    pub packing: PackingMode,
    pub fields: Seq<RawFieldModel>,
}

impl View for RawSchema {
    type V = RawSchemaModel;

    open spec fn view(&self) -> RawSchemaModel {
        RawSchemaModel {
            name: self.name@,
            shape: self.shape,
            packing: self.packing,
            fields: self.fields.deep_view(),
        }
    }
}

/// A field of a validated schema.
#[derive(Debug, PartialEq, Eq)]
pub struct FieldDecl {
    pub name: String,
    pub ty: TypeDesc,
    /// The byte offset the field is pinned to, if any.
    pub offset: Option<usize>,
}

/// Mathematical model of a [`FieldDecl`].
pub struct FieldModel {
    pub name: Seq<char>,
    pub ty: TypeShape,
    pub offset: Option<nat>,
}

impl View for FieldDecl {
    type V = FieldModel;

    open spec fn view(&self) -> FieldModel {
        FieldModel {
            name: self.name@,
            ty: self.ty@,
            offset: match self.offset {
                Some(o) => Some(o as nat),
                None => None,
            },
        }
    }
}

impl DeepView for FieldDecl {
    type V = FieldModel;

    open spec fn deep_view(&self) -> FieldModel {
        self@
    }
}

impl Clone for FieldDecl {
    fn clone(&self) -> (res: Self)
        ensures
            res == *self,
    {
        FieldDecl { name: self.name.clone(), ty: self.ty.clone(), offset: self.offset }
    }
}

/// A struct with named fields under a strictly packed layout.
#[derive(Debug, PartialEq, Eq)]
pub struct StructSchema {
    pub name: String,
    pub fields: Vec<FieldDecl>,
}

/// Mathematical model of a [`StructSchema`].
pub struct SchemaModel {
    pub name: Seq<char>,
    pub fields: Seq<FieldModel>,
}

impl View for StructSchema {
    type V = SchemaModel;

    open spec fn view(&self) -> SchemaModel {
        SchemaModel { name: self.name@, fields: self.fields.deep_view() }
    }
}

} // verus!
