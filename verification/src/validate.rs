//! The schema validator: shape, packing mode and offset annotations.

use vstd::prelude::*;
use crate::error::LayoutError;
use crate::offset::{annotated_offset, Offset};
use crate::scan::{first_where, lemma_first_where_is, lemma_first_where_none};
use crate::schema::{
    FieldDecl, FieldModel, PackingMode, RawField, RawFieldModel, RawSchema, RawSchemaModel,
    SchemaModel, Shape, StructSchema,
};

verus! {

/// Whether the words of one `repr` attribute ask for the C field order
/// without alignment padding.
pub open spec fn names_strict_packing(words: Seq<Seq<char>>) -> bool {
    words.contains("C"@) && words.contains("packed"@)
}

/// The packing mode that the `repr` attributes of a struct declare. Each
/// attribute is given by the words in its parentheses, and the last
/// attribute decides.
pub open spec fn declared_packing(reprs: Seq<Seq<Seq<char>>>) -> PackingMode {
    if reprs.len() > 0 && names_strict_packing(reprs.last()) {
        PackingMode::StrictPacked
    } else {
        PackingMode::Other
    }
}

/// Whether `words` holds `word`.
fn has_word(words: &Vec<String>, word: &str) -> (r: bool)
    ensures
        r == words.deep_view().contains(word@),
{
    let ghost model = words.deep_view();
    let wanted = word.to_owned();
    let mut i: usize = 0;
    while i < words.len()
        invariant
            i <= words.len(),
            model == words.deep_view(),
            wanted@ == word@,
            forall|j: int| 0 <= j < i ==> (#[trigger] model[j]) != word@,
        decreases words.len() - i,
    {
        assert(model[i as int] == words[i as int]@);
        if words[i] == wanted {
            return true;
        }
        i += 1;
    }
    false
}

impl PackingMode {
    /// Reads the packing mode off the `repr` attributes of a struct.
    pub fn from_reprs(reprs: &Vec<Vec<String>>) -> (mode: PackingMode)
        ensures
            mode == declared_packing(reprs.deep_view()),
    {
        if reprs.len() == 0 {
            return PackingMode::Other;
        }
        let last = &reprs[reprs.len() - 1];
        assert(reprs.deep_view().last() == last.deep_view());
        if has_word(last, "C") && has_word(last, "packed") {
            PackingMode::StrictPacked
        } else {
            PackingMode::Other
        }
    }
}

/// The fields of a schema that has named fields.
pub fn get_fields(schema: &RawSchema) -> (r: Result<&Vec<RawField>, LayoutError>)
    ensures
        match r {
            Ok(fields) => schema.shape == Shape::NamedStruct && *fields == schema.fields,
            Err(e) => schema.shape != Shape::NamedStruct && e == LayoutError::ShapeMismatch,
        },
{
    match schema.shape {
        Shape::NamedStruct => Ok(&schema.fields),
        _ => Err(LayoutError::ShapeMismatch),
    }
}

/// The raw fields whose annotation gives no offset.
pub open spec fn invalid_annotation() -> spec_fn(RawFieldModel) -> bool {
    |field: RawFieldModel|
        match field.annotation {
            Some(tokens) => annotated_offset(tokens) is None,
            None => false,
        }
}

/// A raw field with its annotation read.
pub open spec fn checked_field(field: RawFieldModel) -> FieldModel {
    FieldModel {
        name: field.name,
        ty: field.ty,
        offset: match field.annotation {
            Some(tokens) => annotated_offset(tokens),
            None => None,
        },
    }
}

/// What validation makes of a raw schema. The checks run in this order:
/// the shape, the packing mode, then the annotations in declaration order;
/// the first that fails names the error.
pub open spec fn validated(raw: RawSchemaModel) -> Result<SchemaModel, LayoutError> {
    if raw.shape != Shape::NamedStruct {
        Err(LayoutError::ShapeMismatch)
    } else if raw.packing != PackingMode::StrictPacked {
        Err(LayoutError::MissingPackingAttribute)
    } else {
        match first_where(raw.fields, invalid_annotation()) {
            Some(i) => Err(LayoutError::InvalidOffsetLiteral { field: i as usize }),
            None => Ok(
                SchemaModel {
                    name: raw.name,
                    fields: Seq::new(raw.fields.len(), |i: int| checked_field(raw.fields[i])),
                },
            ),
        }
    }
}

/// Checks a raw schema and reads its offset annotations.
pub fn validate(schema: &RawSchema) -> (r: Result<StructSchema, LayoutError>)
    ensures
        match r {
            Ok(checked) => validated(schema@) == Ok::<SchemaModel, LayoutError>(checked@),
            Err(e) => validated(schema@) == Err::<SchemaModel, LayoutError>(e),
        },
{
    let raw_fields = match get_fields(schema) {
        Ok(fields) => fields,
        Err(e) => {
            return Err(e);
        },
    };
    match schema.packing {
        PackingMode::StrictPacked => {},
        _ => {
            return Err(LayoutError::MissingPackingAttribute);
        },
    }
    let ghost raw = schema@.fields;
    let mut fields: Vec<FieldDecl> = Vec::new();
    let mut i: usize = 0;
    while i < raw_fields.len()
        invariant
            i <= raw_fields.len(),
            schema.shape == Shape::NamedStruct,
            schema.packing == PackingMode::StrictPacked,
            raw == schema@.fields,
            raw == raw_fields.deep_view(),
            fields.len() == i,
            forall|j: int| 0 <= j < i ==> !invalid_annotation()(#[trigger] raw[j]),
            forall|j: int| 0 <= j < i ==> (#[trigger] fields[j])@ == checked_field(raw[j]),
        decreases raw_fields.len() - i,
    {
        let field = &raw_fields[i];
        assert(raw[i as int] == field@);
        let offset = match &field.annotation {
            Some(tokens) => match Offset::parse(tokens) {
                Some(offset) => Some(offset.0),
                None => {
                    proof {
                        assert(raw[i as int].annotation == Some(tokens.deep_view()));
                        assert(invalid_annotation()(raw[i as int]));
                        lemma_first_where_is(raw, invalid_annotation(), i as nat);
                    }
                    return Err(LayoutError::InvalidOffsetLiteral { field: i });
                },
            },
            None => None,
        };
        fields.push(FieldDecl { name: field.name.clone(), ty: field.ty.clone(), offset });
        i += 1;
    }
    let checked = StructSchema { name: schema.name.clone(), fields };
    proof {
        lemma_first_where_none(raw, invalid_annotation());
        assert(checked@.fields =~= Seq::new(raw.len(), |i: int| checked_field(raw[i])));
    }
    Ok(checked)
}

} // verus!
