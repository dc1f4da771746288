//! The type-size resolver: from a field's declared type to a size expression.

use vstd::prelude::*;
use crate::error::LayoutError;
use crate::scan::{first_where, lemma_first_where_is, lemma_first_where_none};
use crate::schema::{FieldDecl, FieldModel};
use crate::size::{SizeExpr, SizeTerm};
use crate::type_desc::{ArgsShape, PathArgs, PathShape, TypeDesc, TypeShape};

verus! {

/// Whether `path` is the bare identifier `ident`: unqualified and without
/// arguments.
pub open spec fn path_is_ident(path: PathShape, ident: Seq<char>) -> bool {
    !path.qualified && path.args is Absent && path.name == ident
}

/// Whether a referent has no size of its own, so that a reference to it
/// carries a length or a vtable beside the address.
pub open spec fn is_dynamically_sized(referent: TypeShape) -> bool {
    match referent {
        TypeShape::TraitObject => true,
        TypeShape::Slice => true,
        TypeShape::Path(path) => path_is_ident(path, "str"@),
        _ => false,
    }
}

/// The size of a reference to a dynamically sized referent: two
/// pointer-sized integers.
pub open spec fn fat_pointer() -> SizeTerm {
    SizeTerm::Sum(Box::new(SizeTerm::Pointer), Box::new(SizeTerm::Pointer))
}

/// The size expression of a field, by the first rule that fits:
/// a reference is one pointer, or two where the referent is dynamically
/// sized; an `Option` is one pointer where its first argument is a reference
/// and has no size expression otherwise; a byte array is as long as it says;
/// any other type has the size of the field's declared type, left symbolic.
pub open spec fn resolved_size(field: FieldModel) -> Option<SizeTerm> {
    match field.ty {
        TypeShape::Reference(referent) => if is_dynamically_sized(*referent) {
            Some(fat_pointer())
        } else {
            Some(SizeTerm::Pointer)
        },
        TypeShape::Path(path) => if path.name == "Option"@ {
            match path.args {
                ArgsShape::AngleBracketed(Some(first)) => if *first is Reference {
                    Some(SizeTerm::Pointer)
                } else {
                    None
                },
                _ => None,
            }
        } else {
            Some(SizeTerm::TypeOf(field.name))
        },
        TypeShape::Bytes(len) => Some(len),
        _ => Some(SizeTerm::TypeOf(field.name)),
    }
}

/// Whether `name` reads `ident`.
fn is_named(name: &String, ident: &str) -> (r: bool)
    ensures
        r == (name@ == ident@),
{
    let other = ident.to_owned();
    *name == other
}

/// Whether a referent is dynamically sized.
fn referent_is_dynamically_sized(referent: &TypeDesc) -> (r: bool)
    ensures
        r == is_dynamically_sized(referent@),
{
    match referent {
        TypeDesc::TraitObject => true,
        TypeDesc::Slice => true,
        TypeDesc::Path(path) => {
            let bare = match path.args {
                PathArgs::Absent => !path.qualified,
                _ => false,
            };
            bare && is_named(&path.name, "str")
        },
        _ => false,
    }
}

/// Reduces the declared type of a field to its size expression. `None`
/// means the type is an optional wrapper whose payload is not a reference.
pub fn reduce_complex_type(field: &FieldDecl) -> (r: Option<SizeExpr>)
    ensures
        r.deep_view() == resolved_size(field@),
{
    proof {
        reveal_with_fuel(TypeDesc::shape, 3);
        reveal_with_fuel(SizeExpr::term, 2);
    }
    match &field.ty {
        TypeDesc::Reference(referent) => {
            if referent_is_dynamically_sized(referent) {
                Some(SizeExpr::Sum(Box::new(SizeExpr::Pointer), Box::new(SizeExpr::Pointer)))
            } else {
                Some(SizeExpr::Pointer)
            }
        },
        TypeDesc::Path(path) => {
            if is_named(&path.name, "Option") {
                match &path.args {
                    PathArgs::AngleBracketed(Some(first)) => match &**first {
                        TypeDesc::Reference(_) => Some(SizeExpr::Pointer),
                        _ => None,
                    },
                    _ => None,
                }
            } else {
                Some(SizeExpr::TypeOf(field.name.clone()))
            }
        },
        TypeDesc::Bytes(len) => Some(len.clone()),
        _ => Some(SizeExpr::TypeOf(field.name.clone())),
    }
}

/// The fields the resolver refuses: those without a size expression.
pub open spec fn unsupported() -> spec_fn(FieldModel) -> bool {
    |field: FieldModel| resolved_size(field) is None
}

/// A field together with the size expression the resolver gave it.
#[derive(Debug, PartialEq, Eq)]
pub struct SizedField {
    pub field: FieldDecl,
    pub size: SizeExpr,
}

/// Mathematical model of a [`SizedField`].
pub struct SizedModel {
    pub field: FieldModel,
    pub size: SizeTerm,
}

impl View for SizedField {
    type V = SizedModel;

    open spec fn view(&self) -> SizedModel {
        SizedModel { field: self.field@, size: self.size@ }
    }
}

impl DeepView for SizedField {
    type V = SizedModel;

    open spec fn deep_view(&self) -> SizedModel {
        self@
    }
}

/// Each field with its size expression, for fields that all have one.
pub open spec fn sized(fields: Seq<FieldModel>) -> Seq<SizedModel> {
    Seq::new(
        fields.len(),
        |i: int| SizedModel { field: fields[i], size: resolved_size(fields[i]).unwrap() },
    )
}

/// Annotates every field with its size expression, in declaration order,
/// and stops at the first field that has none.
pub fn map_field_type(fields: &Vec<FieldDecl>) -> (r: Result<Vec<SizedField>, LayoutError>)
    ensures
        match r {
            Ok(resolved) => {
                &&& first_where(fields.deep_view(), unsupported()) is None
                &&& resolved.deep_view() == sized(fields.deep_view())
            },
            Err(e) => {
                &&& first_where(fields.deep_view(), unsupported()) matches Some(i)
                &&& e == LayoutError::UnsupportedOptionalPayload { field: i as usize }
            },
        },
{
    let ghost model = fields.deep_view();
    let mut resolved: Vec<SizedField> = Vec::new();
    let mut i: usize = 0;
    while i < fields.len()
        invariant
            i <= fields.len(),
            model == fields.deep_view(),
            resolved.len() == i,
            forall|j: int| 0 <= j < i ==> !unsupported()(#[trigger] model[j]),
            forall|j: int| 0 <= j < i ==> (#[trigger] resolved[j])@ == sized(model)[j],
        decreases fields.len() - i,
    {
        assert(model[i as int] == fields[i as int]@);
        match reduce_complex_type(&fields[i]) {
            Some(size) => {
                resolved.push(SizedField { field: fields[i].clone(), size });
            },
            None => {
                proof {
                    lemma_first_where_is(model, unsupported(), i as nat);
                }
                return Err(LayoutError::UnsupportedOptionalPayload { field: i });
            },
        }
        i += 1;
    }
    proof {
        lemma_first_where_none(model, unsupported());
        assert(resolved.deep_view() =~= sized(model));
    }
    Ok(resolved)
}

} // verus!
