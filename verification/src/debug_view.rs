//! The debug view: what an instance shows of itself, padding left out.

use vstd::prelude::*;
use crate::error::LayoutError;
use crate::naming::{has_reserved_prefix, is_padding_name};
use crate::realize::{Layout, PlacementModel};
use crate::scan::{first_where, lemma_first_where_is, lemma_first_where_none};
use crate::schema::{RawFieldModel, RawSchema, Shape};
use crate::validate::get_fields;

verus! {

/// What the debug view of a struct prints: the name of the struct, then
/// these fields in this order.
#[derive(Debug, PartialEq, Eq)]
pub struct DebugView {
    pub name: String,
    pub fields: Vec<String>,
}

/// The names of the fields that are not synthetic padding, in declaration
/// order.
pub open spec fn shown_names(fields: Seq<RawFieldModel>) -> Seq<Seq<char>>
    decreases fields.len(),
{
    if fields.len() == 0 {
        Seq::empty()
    } else if is_padding_name(fields.last().name) {
        shown_names(fields.drop_last())
    } else {
        shown_names(fields.drop_last()).push(fields.last().name)
    }
}

/// Derives the debug view of a struct with named fields: every field but
/// synthetic padding, in declaration order. The packing mode and the
/// annotations are not read.
pub fn derive_helper_attr(schema: &RawSchema) -> (r: Result<DebugView, LayoutError>)
    ensures
        match r {
            Ok(view) => {
                &&& schema.shape == Shape::NamedStruct
                &&& view.name@ == schema.name@
                &&& view.fields.deep_view() == shown_names(schema@.fields)
            },
            Err(e) => {
                &&& schema.shape != Shape::NamedStruct
                &&& e == LayoutError::ShapeMismatch
            },
        },
{
    let fields = match get_fields(schema) {
        Ok(fields) => fields,
        Err(e) => {
            return Err(e);
        },
    };
    let ghost model = schema@.fields;
    let mut names: Vec<String> = Vec::new();
    let mut i: usize = 0;
    assert(model.take(0) =~= Seq::<RawFieldModel>::empty());
    assert(names.deep_view() =~= Seq::<Seq<char>>::empty());
    while i < fields.len()
        invariant
            i <= fields.len(),
            model == fields.deep_view(),
            names.deep_view() == shown_names(model.take(i as int)),
        decreases fields.len() - i,
    {
        let ghost before = names.deep_view();
        proof {
            assert(model[i as int] == fields[i as int]@);
            assert(model.take(i + 1).drop_last() =~= model.take(i as int));
            assert(model.take(i + 1).last() == fields[i as int]@);
        }
        if !has_reserved_prefix(&fields[i].name) {
            names.push(fields[i].name.clone());
            assert(names.deep_view() =~= before.push(fields[i as int].name@));
        }
        i += 1;
    }
    assert(model.take(i as int) =~= model);
    Ok(DebugView { name: schema.name.clone(), fields: names })
}

/// One entry of a rendering: a field and the bytes it holds.
#[derive(Debug, PartialEq, Eq)]
pub struct FieldValue {
    pub name: String,
    pub bytes: Vec<u8>,
}

/// Mathematical model of a [`FieldValue`].
pub struct ValueModel {
    pub name: Seq<char>,
    pub bytes: Seq<u8>,
}

impl View for FieldValue {
    type V = ValueModel;

    open spec fn view(&self) -> ValueModel {
        ValueModel { name: self.name@, bytes: self.bytes@ }
    }
}

impl DeepView for FieldValue {
    type V = ValueModel;

    open spec fn deep_view(&self) -> ValueModel {
        self@
    }
}

/// Copies `size` bytes of `instance` from `offset` on, whatever the
/// alignment of `offset`. There is a value exactly where the range lies
/// within the instance.
pub fn read_unaligned(instance: &Vec<u8>, offset: usize, size: usize) -> (r: Option<Vec<u8>>)
    ensures
        match r {
            Some(bytes) => offset + size <= instance.len() && bytes@ == instance@.subrange(
                offset as int,
                offset + size,
            ),
            None => offset + size > instance.len(),
        },
{
    if offset > instance.len() || size > instance.len() - offset {
        return None;
    }
    let mut bytes: Vec<u8> = Vec::new();
    let mut i: usize = 0;
    while i < size
        invariant
            i <= size,
            offset + size <= instance.len(),
            bytes@ == instance@.subrange(offset as int, offset + i),
        decreases size - i,
    {
        bytes.push(instance[offset + i]);
        assert(bytes@ =~= instance@.subrange(offset as int, offset + i + 1));
        i += 1;
    }
    Some(bytes)
}

/// The fields a rendering cannot read: shown fields that reach beyond the
/// instance.
pub open spec fn out_of_reach(instance: Seq<u8>) -> spec_fn(PlacementModel) -> bool {
    |field: PlacementModel| !is_padding_name(field.name) && field.offset + field.size > instance.len()
}

/// The entries of a rendering: one for every field that is not synthetic
/// padding, in layout order, with the bytes the instance holds there.
pub open spec fn rendered(fields: Seq<PlacementModel>, instance: Seq<u8>) -> Seq<ValueModel>
    decreases fields.len(),
{
    if fields.len() == 0 {
        Seq::empty()
    } else if is_padding_name(fields.last().name) {
        rendered(fields.drop_last(), instance)
    } else {
        rendered(fields.drop_last(), instance).push(
            ValueModel {
                name: fields.last().name,
                bytes: instance.subrange(
                    fields.last().offset as int,
                    (fields.last().offset + fields.last().size) as int,
                ),
            },
        )
    }
}

/// Renders an instance of a realized struct: the fields in layout order,
/// synthetic padding skipped, each with the bytes read at its offset.
/// There is no rendering where a shown field reaches beyond the instance.
pub fn render(layout: &Layout, instance: &Vec<u8>) -> (r: Option<Vec<FieldValue>>)
    ensures
        match r {
            Some(values) => {
                &&& first_where(layout@.fields, out_of_reach(instance@)) is None
                &&& values.deep_view() == rendered(layout@.fields, instance@)
            },
            None => first_where(layout@.fields, out_of_reach(instance@)) is Some,
        },
{
    let ghost fields = layout@.fields;
    let mut values: Vec<FieldValue> = Vec::new();
    let mut i: usize = 0;
    assert(fields.take(0) =~= Seq::<PlacementModel>::empty());
    assert(values.deep_view() =~= Seq::<ValueModel>::empty());
    while i < layout.fields.len()
        invariant
            i <= layout.fields.len(),
            fields == layout.fields.deep_view(),
            forall|j: int| 0 <= j < i ==> !out_of_reach(instance@)(#[trigger] fields[j]),
            values.deep_view() == rendered(fields.take(i as int), instance@),
        decreases layout.fields.len() - i,
    {
        let field = &layout.fields[i];
        let ghost before = values.deep_view();
        proof {
            assert(fields[i as int] == field@);
            assert(fields.take(i + 1).drop_last() =~= fields.take(i as int));
            assert(fields.take(i + 1).last() == field@);
        }
        if !has_reserved_prefix(&field.name) {
            match read_unaligned(instance, field.offset, field.size) {
                Some(bytes) => {
                    values.push(FieldValue { name: field.name.clone(), bytes });
                    assert(values.deep_view() =~= before.push(values[values.len() - 1]@));
                },
                None => {
                    proof {
                        lemma_first_where_is(fields, out_of_reach(instance@), i as nat);
                    }
                    return None;
                },
            }
        }
        i += 1;
    }
    proof {
        assert(fields.take(i as int) =~= fields);
        lemma_first_where_none(fields, out_of_reach(instance@));
    }
    Some(values)
}

} // verus!
