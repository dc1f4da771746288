//! The padding synthesizer and the field reassembler.
//!
//! The synthesizer records the size of every padding field as an expression
//! and evaluates none. It does not compare offsets with each other: an
//! offset below what precedes it, a repeated offset among them, yields
//! padding whose size has no value, and realization reports it. An offset
//! equal to what precedes it yields padding of zero bytes.

use vstd::prelude::*;
use crate::error::LayoutError;
use crate::naming::{pad_name, padding_name};
use crate::resolve::{map_field_type, sized, unsupported, SizedField, SizedModel};
use crate::scan::first_where;
use crate::schema::{FieldDecl, FieldModel, RawSchema, RawSchemaModel, SchemaModel, StructSchema};
use crate::size::{SizeExpr, SizeTerm};
use crate::type_desc::{TypeDesc, TypeShape};
use crate::validate::{validate, validated};

verus! {

/// A synthesized filler: it has a reserved name, no offset of its own, and
/// a size that is left unevaluated.
#[derive(Debug, PartialEq, Eq)]
pub struct PaddingField {
    pub name: String,
    pub size: SizeExpr,
}

/// Mathematical model of a [`PaddingField`].
pub struct PaddingModel {
    pub name: Seq<char>,
    pub size: SizeTerm,
}

/// One element of the synthesizer's output.
#[derive(Debug, PartialEq, Eq)]
pub enum StreamItem {
    /// A field of the schema, still carrying its offset.
    Declared(FieldDecl),
    /// Padding inserted before the field that follows.
    Padding(PaddingField),
}

/// Mathematical model of a [`StreamItem`].
pub enum ItemModel {
    Declared(FieldModel),
    Padding(PaddingModel),
}

impl View for StreamItem {
    type V = ItemModel;

    open spec fn view(&self) -> ItemModel {
        match self {
            StreamItem::Declared(field) => ItemModel::Declared(field@),
            StreamItem::Padding(padding) => ItemModel::Padding(
                PaddingModel { name: padding.name@, size: padding.size@ },
            ),
        }
    }
}

impl DeepView for StreamItem {
    type V = ItemModel;

    open spec fn deep_view(&self) -> ItemModel {
        self@
    }
}

/// Where the synthesizer stands after some fields.
pub struct SynthState {
    /// The fields and padding emitted so far.
    pub items: Seq<ItemModel>,
    /// The size of everything emitted so far.
    pub total: SizeTerm,
    /// How many padding fields were emitted so far.
    pub pads: nat,
}

/// The padding that goes before a field pinned to `offset`.
pub open spec fn padding_before(state: SynthState, offset: nat) -> PaddingModel {
    PaddingModel {
        name: pad_name(state.pads),
        size: SizeTerm::Diff(Box::new(SizeTerm::Bytes(offset)), Box::new(state.total)),
    }
}

/// The synthesizer after one more field. A field without offset is emitted
/// as it is and adds its size to the total. A field with an offset is
/// preceded by padding of the offset minus the total, and the total becomes
/// the offset plus the size of the field.
pub open spec fn synth_step(state: SynthState, next: SizedModel) -> SynthState {
    match next.field.offset {
        None => SynthState {
            items: state.items.push(ItemModel::Declared(next.field)),
            total: SizeTerm::Sum(Box::new(state.total), Box::new(next.size)),
            pads: state.pads,
        },
        Some(offset) => SynthState {
            items: state.items.push(ItemModel::Padding(padding_before(state, offset))).push(
                ItemModel::Declared(next.field),
            ),
            total: SizeTerm::Sum(Box::new(SizeTerm::Bytes(offset)), Box::new(next.size)),
            pads: state.pads + 1,
        },
    }
}

/// The synthesizer after all of `fields`, taken in declaration order from
/// an empty stream, a total of zero bytes and padding index zero.
pub open spec fn synth(fields: Seq<SizedModel>) -> SynthState
    decreases fields.len(),
{
    if fields.len() == 0 {
        SynthState { items: Seq::empty(), total: SizeTerm::Bytes(0), pads: 0 }
    } else {
        synth_step(synth(fields.drop_last()), fields.last())
    }
}

/// Walks the sized fields in declaration order and emits them with padding
/// before every field that has an offset.
pub fn synthesize(fields: &Vec<SizedField>) -> (stream: Vec<StreamItem>)
    ensures
        stream.deep_view() == synth(fields.deep_view()).items,
{
    let ghost model = fields.deep_view();
    let mut stream: Vec<StreamItem> = Vec::new();
    let mut total = SizeExpr::Bytes(0);
    let mut current_ix: usize = 0;
    let mut i: usize = 0;
    assert(model.take(0) =~= Seq::<SizedModel>::empty());
    assert(stream.deep_view() =~= Seq::<ItemModel>::empty());
    while i < fields.len()
        invariant
            i <= fields.len(),
            model == fields.deep_view(),
            current_ix <= i,
            stream.deep_view() == synth(model.take(i as int)).items,
            total@ == synth(model.take(i as int)).total,
            current_ix == synth(model.take(i as int)).pads,
        decreases fields.len() - i,
    {
        let ghost before = synth(model.take(i as int));
        let ghost emitted = stream.deep_view();
        let sized_field = &fields[i];
        proof {
            reveal_with_fuel(SizeExpr::term, 2);
            assert(model[i as int] == sized_field@);
            assert(model.take(i + 1).drop_last() =~= model.take(i as int));
            assert(model.take(i + 1).last() == sized_field@);
        }
        match sized_field.field.offset {
            None => {
                stream.push(StreamItem::Declared(sized_field.field.clone()));
                total = SizeExpr::Sum(Box::new(total), Box::new(sized_field.size.clone()));
                proof {
                    assert(stream.deep_view() =~= emitted.push(
                        ItemModel::Declared(sized_field@.field),
                    ));
                }
            },
            Some(offset) => {
                let name = padding_name(current_ix);
                current_ix += 1;
                let size = SizeExpr::Diff(Box::new(SizeExpr::Bytes(offset)), Box::new(total));
                stream.push(StreamItem::Padding(PaddingField { name, size }));
                stream.push(StreamItem::Declared(sized_field.field.clone()));
                total =
                SizeExpr::Sum(
                    Box::new(SizeExpr::Bytes(offset)),
                    Box::new(sized_field.size.clone()),
                );
                proof {
                    assert(stream.deep_view() =~= emitted.push(
                        ItemModel::Padding(padding_before(before, offset as nat)),
                    ).push(ItemModel::Declared(sized_field@.field)));
                }
            },
        }
        i += 1;
    }
    assert(model.take(fields.len() as int) =~= model);
    stream
}

/// A stream item as a field of the final schema: the offset of a declared
/// field is dropped, and padding becomes a byte array of its size.
pub open spec fn reassembled_field(item: ItemModel) -> FieldModel {
    match item {
        ItemModel::Declared(field) => FieldModel { name: field.name, ty: field.ty, offset: None },
        ItemModel::Padding(padding) => FieldModel {
            name: padding.name,
            ty: TypeShape::Bytes(padding.size),
            offset: None,
        },
    }
}

/// The fields of the final schema, in stream order.
pub open spec fn reassembled(items: Seq<ItemModel>) -> Seq<FieldModel> {
    Seq::new(items.len(), |i: int| reassembled_field(items[i]))
}

/// Merges a stream of fields and padding into one schema without offsets.
pub fn reassemble(name: &String, stream: &Vec<StreamItem>) -> (schema: StructSchema)
    ensures
        schema@ == (SchemaModel { name: name@, fields: reassembled(stream.deep_view()) }),
{
    let ghost items = stream.deep_view();
    let mut fields: Vec<FieldDecl> = Vec::new();
    let mut i: usize = 0;
    while i < stream.len()
        invariant
            i <= stream.len(),
            items == stream.deep_view(),
            fields.len() == i,
            forall|j: int| 0 <= j < i ==> (#[trigger] fields[j])@ == reassembled_field(items[j]),
        decreases stream.len() - i,
    {
        assert(items[i as int] == stream[i as int]@);
        let field = match &stream[i] {
            StreamItem::Declared(field) => FieldDecl {
                name: field.name.clone(),
                ty: field.ty.clone(),
                offset: None,
            },
            StreamItem::Padding(padding) => FieldDecl {
                name: padding.name.clone(),
                ty: TypeDesc::Bytes(padding.size.clone()),
                offset: None,
            },
        };
        fields.push(field);
        i += 1;
    }
    let schema = StructSchema { name: name.clone(), fields };
    assert(schema@.fields =~= reassembled(items));
    schema
}

/// The fields of a schema after the transform: every field with an offset
/// is preceded by padding, and no field carries an offset any more.
pub open spec fn augmented(fields: Seq<FieldModel>) -> Seq<FieldModel> {
    reassembled(synth(sized(fields)).items)
}

/// What the transform makes of a validated schema: the first field without
/// a size expression is refused; else the fields are augmented.
pub open spec fn transformed(schema: SchemaModel) -> Result<SchemaModel, LayoutError> {
    match first_where(schema.fields, unsupported()) {
        Some(i) => Err(LayoutError::UnsupportedOptionalPayload { field: i as usize }),
        None => Ok(SchemaModel { name: schema.name, fields: augmented(schema.fields) }),
    }
}

/// Resolves the size of every field, synthesizes the padding and
/// reassembles the schema.
pub fn transform(schema: &StructSchema) -> (r: Result<StructSchema, LayoutError>)
    ensures
        match r {
            Ok(out) => transformed(schema@) == Ok::<SchemaModel, LayoutError>(out@),
            Err(e) => transformed(schema@) == Err::<SchemaModel, LayoutError>(e),
        },
{
    let resolved = match map_field_type(&schema.fields) {
        Ok(resolved) => resolved,
        Err(e) => {
            return Err(e);
        },
    };
    let stream = synthesize(&resolved);
    Ok(reassemble(&schema.name, &stream))
}

/// What the whole pass makes of a raw schema: validation, then the
/// transform.
pub open spec fn lazy_re_result(raw: RawSchemaModel) -> Result<SchemaModel, LayoutError> {
    match validated(raw) {
        Ok(schema) => transformed(schema),
        Err(e) => Err(e),
    }
}

/// Validates a raw schema and inserts padding before every field that is
/// pinned to an offset, so that a strictly packed layout puts the field
/// there.
pub fn lazy_re(schema: &RawSchema) -> (r: Result<StructSchema, LayoutError>)
    ensures
        match r {
            Ok(out) => lazy_re_result(schema@) == Ok::<SchemaModel, LayoutError>(out@),
            Err(e) => lazy_re_result(schema@) == Err::<SchemaModel, LayoutError>(e),
        },
{
    match validate(schema) {
        Ok(checked) => transform(&checked),
        Err(e) => Err(e),
    }
}

} // verus!
