//! The shape of a field's declared type, as far as layout reads it.

use vstd::prelude::*;
use crate::size::{SizeExpr, SizeTerm};

verus! {

/// The generic arguments of the last segment of a path.
#[derive(Debug, PartialEq, Eq)]
pub enum PathArgs {
    /// No arguments, as in `Name`.
    Absent,
    /// Parenthesized arguments, as in `Fn(u8) -> u8`.
    Parenthesized,
    /// Angle brackets, as in `Name<T>`, with the first argument where that
    /// argument is a type.
    AngleBracketed(Option<Box<TypeDesc>>),
}

/// A type written as a path.
#[derive(Debug, PartialEq, Eq)]
pub struct TypePath {
    /// Whether the path has a leading `::` or more than one segment.
    pub qualified: bool,
    /// The identifier of the last segment.
    pub name: String,
    /// The arguments of the last segment.
    pub args: PathArgs,
}

/// The shape of a declared type.
#[derive(Debug, PartialEq, Eq)]
pub enum TypeDesc {
    /// A shared or mutable reference to the referent.
    Reference(Box<TypeDesc>),
    /// A trait object, `dyn Trait`.
    TraitObject,
    /// A slice, `[T]`.
    Slice,
    /// A type named by a path.
    Path(TypePath),
    /// A byte array whose length is a size expression.
    Bytes(SizeExpr),
    /// Any other type.
    Other,
}

/// Mathematical model of [`PathArgs`].
pub enum ArgsShape {
    Absent,
    Parenthesized,
    AngleBracketed(Option<Box<TypeShape>>),
}

/// Mathematical model of a [`TypePath`].
pub struct PathShape {
    pub qualified: bool,
    pub name: Seq<char>,
    pub args: ArgsShape,
}

/// Mathematical model of a [`TypeDesc`].
pub enum TypeShape {
    Reference(Box<TypeShape>),
    TraitObject,
    Slice,
    Path(PathShape),
    Bytes(SizeTerm),
    Other,
}

impl TypeDesc {
    /// The shape this descriptor stands for.
    pub open spec fn shape(&self) -> TypeShape
        decreases self,
    {
        match self {
            TypeDesc::Reference(referent) => TypeShape::Reference(Box::new(referent.shape())),
            TypeDesc::TraitObject => TypeShape::TraitObject,
            TypeDesc::Slice => TypeShape::Slice,
            TypeDesc::Path(path) => TypeShape::Path(
                PathShape {
                    qualified: path.qualified,
                    name: path.name@,
                    args: match path.args {
                        PathArgs::Absent => ArgsShape::Absent,
                        PathArgs::Parenthesized => ArgsShape::Parenthesized,
                        PathArgs::AngleBracketed(None) => ArgsShape::AngleBracketed(None),
                        PathArgs::AngleBracketed(Some(first)) => ArgsShape::AngleBracketed(
                            Some(Box::new(first.shape())),
                        ),
                    },
                },
            ),
            TypeDesc::Bytes(len) => TypeShape::Bytes(len@),
            TypeDesc::Other => TypeShape::Other,
        }
    }
}

impl View for TypeDesc {
    type V = TypeShape;

    open spec fn view(&self) -> TypeShape {
        self.shape()
    }
}

impl DeepView for TypeDesc {
    type V = TypeShape;

    open spec fn deep_view(&self) -> TypeShape {
        self@
    }
}

impl Clone for TypeDesc {
    fn clone(&self) -> (res: Self)
        ensures
            res == *self,
        decreases self,
    {
        match self {
            TypeDesc::Reference(referent) => TypeDesc::Reference(Box::new((&**referent).clone())),
            TypeDesc::TraitObject => TypeDesc::TraitObject,
            TypeDesc::Slice => TypeDesc::Slice,
            TypeDesc::Path(path) => {
                let args = match &path.args {
                    PathArgs::Absent => PathArgs::Absent,
                    PathArgs::Parenthesized => PathArgs::Parenthesized,
                    PathArgs::AngleBracketed(None) => PathArgs::AngleBracketed(None),
                    PathArgs::AngleBracketed(Some(first)) => PathArgs::AngleBracketed(
                        Some(Box::new((&**first).clone())),
                    ),
                };
                TypeDesc::Path(
                    TypePath { qualified: path.qualified, name: path.name.clone(), args },
                )
            },
            TypeDesc::Bytes(len) => TypeDesc::Bytes(len.clone()),
            TypeDesc::Other => TypeDesc::Other,
        }
    }
}

} // verus!
