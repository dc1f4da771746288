//! What holds of every schema: the laws of the transform and of realization.

use vstd::prelude::*;
use crate::error::LayoutError;
use crate::naming::{is_padding_name, law_pad_names_distinct, pad_name, reserved_prefix};
use crate::realize::{place_next, realized, lemma_realized_error_stays, LayoutModel, PlacementModel};
use crate::resolve::{resolved_size, sized, unsupported, SizedModel};
use crate::scan::{first_where, lemma_first_where, lemma_first_where_none};
use crate::schema::{FieldModel, PackingMode, RawSchemaModel, SchemaModel, Shape};
use crate::size::{eval, Fault, SizeEnv, SizeTerm};
use crate::synth::{
    augmented, lazy_re_result, padding_before, reassembled, reassembled_field, synth, synth_step,
    transformed, ItemModel,
};
use crate::type_desc::{ArgsShape, TypeShape};
use crate::validate::{invalid_annotation, validated};

verus! {

/// How many of `fields` are pinned to an offset.
pub open spec fn pinned_count(fields: Seq<FieldModel>) -> nat
    decreases fields.len(),
{
    if fields.len() == 0 {
        0
    } else if fields.last().offset is Some {
        pinned_count(fields.drop_last()) + 1
    } else {
        pinned_count(fields.drop_last())
    }
}

/// Where field `i` of the schema stands in the augmented schema:
/// behind the fields before it and behind one padding field for every
/// pinned field up to and including itself.
pub open spec fn position(fields: Seq<FieldModel>, i: int) -> int {
    i + pinned_count(fields.take(i + 1))
}

/// A field without its offset.
pub open spec fn unpinned(field: FieldModel) -> FieldModel {
    FieldModel { name: field.name, ty: field.ty, offset: None }
}

proof fn lemma_sized_prefix(fields: Seq<FieldModel>)
    requires
        fields.len() > 0,
    ensures
        sized(fields).drop_last() == sized(fields.drop_last()),
        sized(fields).last() == (SizedModel {
            field: fields.last(),
            size: resolved_size(fields.last()).unwrap(),
        }),
        synth(sized(fields)) == synth_step(synth(sized(fields.drop_last())), sized(fields).last()),
{
    assert(sized(fields).drop_last() =~= sized(fields.drop_last()));
}

proof fn lemma_reassembled_push(items: Seq<ItemModel>, item: ItemModel)
    ensures
        reassembled(items.push(item)) == reassembled(items).push(reassembled_field(item)),
{
    assert(reassembled(items.push(item)) =~= reassembled(items).push(reassembled_field(item)));
}

/// The augmented fields, one field of the schema at a time.
proof fn lemma_augmented_step(fields: Seq<FieldModel>)
    requires
        fields.len() > 0,
    ensures
        augmented(fields) == match fields.last().offset {
            None => augmented(fields.drop_last()).push(unpinned(fields.last())),
            Some(offset) => augmented(fields.drop_last()).push(
                reassembled_field(
                    ItemModel::Padding(
                        padding_before(synth(sized(fields.drop_last())), offset),
                    ),
                ),
            ).push(unpinned(fields.last())),
        },
        synth(sized(fields)).pads == pinned_count(fields),
        augmented(fields).len() == fields.len() + pinned_count(fields),
    decreases fields.len(),
{
    lemma_sized_prefix(fields);
    let before = synth(sized(fields.drop_last()));
    if fields.len() > 1 {
        lemma_augmented_step(fields.drop_last());
    } else {
        assert(sized(fields.drop_last()).len() == 0);
        assert(before.items.len() == 0 && before.pads == 0);
        assert(pinned_count(fields.drop_last()) == 0);
        assert(augmented(fields.drop_last()).len() == 0);
    }
    match fields.last().offset {
        None => {
            lemma_reassembled_push(before.items, ItemModel::Declared(fields.last()));
        },
        Some(offset) => {
            let padding = ItemModel::Padding(padding_before(before, offset));
            lemma_reassembled_push(before.items, padding);
            lemma_reassembled_push(before.items.push(padding), ItemModel::Declared(fields.last()));
        },
    }
}

proof fn lemma_realized_push(fields: Seq<FieldModel>, field: FieldModel, env: SizeEnv)
    ensures
        realized(fields.push(field), env) == match realized(fields, env) {
            Ok(before) => place_next(before, field, fields.len(), env),
            Err(e) => Err(e),
        },
{
    assert(fields.push(field).drop_last() =~= fields);
}

/// What realization does with an augmented schema that it accepts: every
/// augmented field is placed, the synthesizer's running total evaluates to
/// the realized size, and every field of the schema lies at its position, on its
/// offset where it is pinned.
proof fn lemma_realized_augmented(fields: Seq<FieldModel>, env: SizeEnv)
    requires
        realized(augmented(fields), env) is Ok,
    ensures
        ({
            let layout = realized(augmented(fields), env).unwrap();
            &&& layout.fields.len() == augmented(fields).len()
            &&& eval(synth(sized(fields)).total, env) == Ok::<nat, Fault>(layout.size)
            &&& forall|i: int|
                0 <= i < fields.len() ==> {
                    let k = #[trigger] position(fields, i);
                    &&& 0 <= k < layout.fields.len()
                    &&& layout.fields[k].name == fields[i].name
                    &&& fields[i].offset is Some ==> layout.fields[k].offset
                        == fields[i].offset.unwrap()
                }
        }),
    decreases fields.len(),
{
    let layout = realized(augmented(fields), env).unwrap();
    if fields.len() == 0 {
        assert(sized(fields).len() == 0);
        assert(augmented(fields).len() == 0);
    } else {
        let prev = fields.drop_last();
        let last = fields.last();
        let state = synth(sized(prev));
        let head = augmented(prev);
        lemma_augmented_step(fields);
        lemma_sized_prefix(fields);
        assert(resolved_size(unpinned(last)) == resolved_size(last));
        let size = eval(resolved_size(last).unwrap(), env);
        match last.offset {
            None => {
                lemma_realized_push(head, unpinned(last), env);
                lemma_realized_augmented(prev, env);
                let before = realized(head, env).unwrap();
                assert(realized(augmented(fields), env) == place_next(
                    before,
                    unpinned(last),
                    head.len(),
                    env,
                ));
                assert(layout.fields == before.fields.push(
                    PlacementModel { name: last.name, offset: before.size, size: size.unwrap() },
                ));
                lemma_positions_extend(fields, before.fields, layout.fields);
            },
            Some(offset) => {
                let padding = reassembled_field(ItemModel::Padding(padding_before(state, offset)));
                lemma_realized_push(head, padding, env);
                lemma_realized_push(head.push(padding), unpinned(last), env);
                lemma_realized_augmented(prev, env);
                assert(resolved_size(padding) == Some(padding_before(state, offset).size));
                let before = realized(head, env).unwrap();
                let padded = realized(head.push(padding), env).unwrap();
                assert(realized(head.push(padding), env) == place_next(
                    before,
                    padding,
                    head.len(),
                    env,
                ));
                assert(eval(SizeTerm::Bytes(offset), env) == Ok::<nat, Fault>(offset));
                assert(eval(state.total, env) == Ok::<nat, Fault>(before.size));
                assert(padded.size == offset);
                assert(realized(augmented(fields), env) == place_next(
                    padded,
                    unpinned(last),
                    head.len() + 1,
                    env,
                ));
                assert(layout.fields == padded.fields.push(
                    PlacementModel { name: last.name, offset: offset, size: size.unwrap() },
                ));
                assert(padded.fields == before.fields.push(padded.fields.last()));
                lemma_positions_extend(fields, before.fields, layout.fields);
            },
        }
    }
}

/// Placements that hold for the fields but the last keep holding when
/// more placements follow, and the last field stands at the end.
proof fn lemma_positions_extend(
    fields: Seq<FieldModel>,
    before: Seq<PlacementModel>,
    after: Seq<PlacementModel>,
)
    requires
        fields.len() > 0,
        before.len() == augmented(fields.drop_last()).len(),
        after.len() == augmented(fields).len(),
        forall|k: int| 0 <= k < before.len() ==> after[k] == before[k],
        after.last().name == fields.last().name,
        fields.last().offset is Some ==> after.last().offset == fields.last().offset.unwrap(),
        forall|i: int|
            0 <= i < fields.len() - 1 ==> {
                let k = #[trigger] position(fields.drop_last(), i);
                &&& 0 <= k < before.len()
                &&& before[k].name == fields.drop_last()[i].name
                &&& fields.drop_last()[i].offset is Some ==> before[k].offset
                    == fields.drop_last()[i].offset.unwrap()
            },
    ensures
        forall|i: int|
            0 <= i < fields.len() ==> {
                let k = #[trigger] position(fields, i);
                &&& 0 <= k < after.len()
                &&& after[k].name == fields[i].name
                &&& fields[i].offset is Some ==> after[k].offset == fields[i].offset.unwrap()
            },
{
    let prev = fields.drop_last();
    lemma_augmented_step(fields);
    assert forall|i: int| 0 <= i < fields.len() implies {
        let k = #[trigger] position(fields, i);
        &&& 0 <= k < after.len()
        &&& after[k].name == fields[i].name
        &&& fields[i].offset is Some ==> after[k].offset == fields[i].offset.unwrap()
    } by {
        if i < fields.len() - 1 {
            assert(fields.take(i + 1) =~= prev.take(i + 1));
            assert(prev[i] == fields[i]);
            assert(position(fields, i) == position(prev, i));
            let k = position(prev, i);
            assert(0 <= k < before.len());
            assert(after[k] == before[k]);
        } else {
            assert(fields.take(i + 1) =~= fields);
            assert(position(fields, i) == after.len() - 1);
        }
    }
}

/// Placement: where the transform accepts a schema and realization accepts
/// its result, every pinned field lies exactly on its offset.
pub proof fn law_placement(schema: SchemaModel, env: SizeEnv, i: int)
    requires
        transformed(schema) is Ok,
        realized(transformed(schema).unwrap().fields, env) is Ok,
        0 <= i < schema.fields.len(),
        schema.fields[i].offset is Some,
    ensures
        ({
            let layout = realized(transformed(schema).unwrap().fields, env).unwrap();
            let k = position(schema.fields, i);
            &&& 0 <= k < layout.fields.len()
            &&& layout.fields[k].name == schema.fields[i].name
            &&& layout.fields[k].offset == schema.fields[i].offset.unwrap()
        }),
{
    lemma_realized_augmented(schema.fields, env);
}

/// The augmented fields of a prefix are a prefix of the augmented fields.
proof fn lemma_augmented_prefix(fields: Seq<FieldModel>, n: int)
    requires
        0 <= n <= fields.len(),
    ensures
        augmented(fields.take(n)).len() <= augmented(fields).len(),
        augmented(fields.take(n)) == augmented(fields).take(
            augmented(fields.take(n)).len() as int,
        ),
    decreases fields.len() - n,
{
    if n < fields.len() {
        lemma_augmented_prefix(fields, n + 1);
        let longer = fields.take(n + 1);
        assert(longer.drop_last() =~= fields.take(n));
        lemma_augmented_step(longer);
        let short = augmented(fields.take(n));
        assert(short =~= augmented(longer).take(short.len() as int));
        assert(short =~= augmented(fields).take(short.len() as int));
    } else {
        assert(fields.take(n) =~= fields);
        assert(augmented(fields) =~= augmented(fields).take(augmented(fields).len() as int));
    }
}

/// Monotonicity: where everything before a pinned field realizes to more
/// bytes than the field's offset, realization of the augmented schema fails
/// at the padding before that field.
pub proof fn law_monotonicity(schema: SchemaModel, env: SizeEnv, i: int)
    requires
        transformed(schema) is Ok,
        0 <= i < schema.fields.len(),
        schema.fields[i].offset is Some,
        realized(augmented(schema.fields.take(i)), env) is Ok,
        realized(augmented(schema.fields.take(i)), env).unwrap().size
            > schema.fields[i].offset.unwrap(),
    ensures
        realized(transformed(schema).unwrap().fields, env) == Err::<LayoutModel, LayoutError>(
            LayoutError::NegativeOrOverflowingPadding {
                field: (position(schema.fields, i) - 1) as usize,
            },
        ),
{
    let fields = schema.fields;
    let head_fields = fields.take(i);
    let upto = fields.take(i + 1);
    let offset = fields[i].offset.unwrap();
    assert(upto.drop_last() =~= head_fields);
    assert(upto.last() == fields[i]);
    lemma_augmented_step(upto);
    lemma_realized_augmented(head_fields, env);
    if i > 0 {
        lemma_augmented_step(head_fields);
    } else {
        assert(sized(head_fields).len() == 0);
        assert(augmented(head_fields).len() == 0);
        assert(pinned_count(head_fields) == 0);
    }
    let head = augmented(head_fields);
    let state = synth(sized(head_fields));
    let before = realized(head, env).unwrap();
    let padding = reassembled_field(ItemModel::Padding(padding_before(state, offset)));
    assert(eval(SizeTerm::Bytes(offset), env) == Ok::<nat, Fault>(offset));
    assert(eval(padding_before(state, offset).size, env) == Err::<nat, Fault>(Fault::OutOfRange));
    lemma_realized_push(head, padding, env);
    let failure = LayoutError::NegativeOrOverflowingPadding { field: head.len() as usize };
    assert(realized(head.push(padding), env) == Err::<LayoutModel, LayoutError>(failure));
    lemma_realized_push(head.push(padding), unpinned(fields[i]), env);
    assert(realized(augmented(upto), env) == Err::<LayoutModel, LayoutError>(failure));
    lemma_augmented_prefix(fields, i + 1);
    lemma_realized_error_stays(augmented(fields), env, augmented(upto).len() as int);
    assert(position(fields, i) - 1 == head.len());
}

/// Whether a type is an optional wrapper around anything but a reference.
pub open spec fn is_optional_without_reference(ty: TypeShape) -> bool {
    match ty {
        TypeShape::Path(path) => path.name == "Option"@ && match path.args {
            ArgsShape::AngleBracketed(Some(first)) => !(*first is Reference),
            _ => true,
        },
        _ => false,
    }
}

/// The resolver refuses exactly the optional wrappers around anything but
/// a reference.
pub proof fn law_resolver_refuses(field: FieldModel)
    ensures
        resolved_size(field) is None <==> is_optional_without_reference(field.ty),
{
}

/// Optional wrappers: a schema that passes validation and holds an
/// optional wrapper around anything but a reference is refused, and the
/// error names the first such field.
pub proof fn law_optional_wrapper_refused(raw: RawSchemaModel, i: int)
    requires
        validated(raw) is Ok,
        0 <= i < raw.fields.len(),
        is_optional_without_reference(raw.fields[i].ty),
    ensures
        ({
            let fields = validated(raw).unwrap().fields;
            &&& first_where(fields, unsupported()) matches Some(first)
            &&& first <= i
            &&& is_optional_without_reference(fields[first as int].ty)
            &&& lazy_re_result(raw) == Err::<SchemaModel, LayoutError>(
                LayoutError::UnsupportedOptionalPayload { field: first as usize },
            )
        }),
{
    let fields = validated(raw).unwrap().fields;
    assert(fields[i].ty == raw.fields[i].ty);
    assert(unsupported()(fields[i]));
    lemma_first_where(fields, unsupported());
}

/// Shape: whatever its fields and packing mode, a schema that is not a
/// struct with named fields is refused for its shape.
pub proof fn law_shape_refused(raw: RawSchemaModel)
    requires
        raw.shape != Shape::NamedStruct,
    ensures
        lazy_re_result(raw) == Err::<SchemaModel, LayoutError>(LayoutError::ShapeMismatch),
{
}

/// Packing: whatever its fields, a struct with named fields that is
/// not strictly packed is refused for its packing mode.
pub proof fn law_packing_refused(raw: RawSchemaModel)
    requires
        raw.shape == Shape::NamedStruct,
        raw.packing != PackingMode::StrictPacked,
    ensures
        lazy_re_result(raw) == Err::<SchemaModel, LayoutError>(
            LayoutError::MissingPackingAttribute,
        ),
{
}

/// The fields of a stream that are not padding, in stream order.
pub open spec fn declared_fields(items: Seq<ItemModel>) -> Seq<FieldModel>
    decreases items.len(),
{
    if items.len() == 0 {
        Seq::empty()
    } else {
        match items.last() {
            ItemModel::Declared(field) => declared_fields(items.drop_last()).push(field),
            ItemModel::Padding(_) => declared_fields(items.drop_last()),
        }
    }
}

/// The fields that were handed to the resolver, without their sizes.
pub open spec fn unsized_fields(fields: Seq<SizedModel>) -> Seq<FieldModel> {
    Seq::new(fields.len(), |i: int| fields[i].field)
}

/// Order preservation in the stream: with the padding taken out, the
/// synthesizer's stream is the sequence of fields it was given.
pub proof fn law_stream_keeps_order(fields: Seq<SizedModel>)
    ensures
        declared_fields(synth(fields).items) == unsized_fields(fields),
    decreases fields.len(),
{
    if fields.len() == 0 {
        assert(declared_fields(synth(fields).items) =~= unsized_fields(fields));
    } else {
        let prev = fields.drop_last();
        let before = synth(prev);
        law_stream_keeps_order(prev);
        assert(unsized_fields(prev).push(fields.last().field) =~= unsized_fields(fields));
        match fields.last().field.offset {
            None => {
                let items = before.items.push(ItemModel::Declared(fields.last().field));
                assert(items.drop_last() =~= before.items);
                assert(declared_fields(items) == declared_fields(before.items).push(fields.last().field));
            },
            Some(offset) => {
                let padded = before.items.push(
                    ItemModel::Padding(padding_before(before, offset)),
                );
                let items = padded.push(ItemModel::Declared(fields.last().field));
                assert(items.drop_last() =~= padded);
                assert(padded.drop_last() =~= before.items);
                assert(declared_fields(padded) == declared_fields(before.items));
                assert(declared_fields(items) == declared_fields(padded).push(fields.last().field));
            },
        }
    }
}

/// The names of the padding fields of a stream, in stream order.
pub open spec fn padding_names(items: Seq<ItemModel>) -> Seq<Seq<char>>
    decreases items.len(),
{
    if items.len() == 0 {
        Seq::empty()
    } else {
        match items.last() {
            ItemModel::Declared(_) => padding_names(items.drop_last()),
            ItemModel::Padding(padding) => padding_names(items.drop_last()).push(padding.name),
        }
    }
}

/// The padding fields of a stream are named by the indices from zero up,
/// one for every pinned field.
pub proof fn law_padding_names_count_up(fields: Seq<SizedModel>)
    ensures
        padding_names(synth(fields).items) == Seq::new(synth(fields).pads, |k: int| pad_name(k as nat)),
    decreases fields.len(),
{
    if fields.len() == 0 {
        assert(padding_names(synth(fields).items) =~= Seq::new(
            synth(fields).pads,
            |k: int| pad_name(k as nat),
        ));
    } else {
        let prev = fields.drop_last();
        let before = synth(prev);
        law_padding_names_count_up(prev);
        match fields.last().field.offset {
            None => {
                let items = before.items.push(ItemModel::Declared(fields.last().field));
                assert(items.drop_last() =~= before.items);
                assert(padding_names(items) == padding_names(before.items));
            },
            Some(offset) => {
                let padded = before.items.push(
                    ItemModel::Padding(padding_before(before, offset)),
                );
                let items = padded.push(ItemModel::Declared(fields.last().field));
                assert(items.drop_last() =~= padded);
                assert(padded.drop_last() =~= before.items);
                assert(padding_names(padded) == padding_names(before.items).push(
                    pad_name(before.pads),
                ));
                assert(padding_names(items) == padding_names(padded));
                assert(padding_names(items) =~= Seq::new(
                    before.pads + 1,
                    |k: int| pad_name(k as nat),
                ));
            },
        }
    }
}

/// The fields of a schema whose name does not mark them as padding.
pub open spec fn without_padding(fields: Seq<FieldModel>) -> Seq<FieldModel>
    decreases fields.len(),
{
    if fields.len() == 0 {
        Seq::empty()
    } else if is_padding_name(fields.last().name) {
        without_padding(fields.drop_last())
    } else {
        without_padding(fields.drop_last()).push(fields.last())
    }
}

/// Every name the synthesizer gives to padding follows the naming
/// convention of padding.
pub proof fn law_pad_name_is_reserved(index: nat)
    ensures
        is_padding_name(pad_name(index)),
{
    assert(pad_name(index).subrange(0, 5) =~= reserved_prefix());
}

/// The fields of a schema, each without its offset.
pub open spec fn all_unpinned(fields: Seq<FieldModel>) -> Seq<FieldModel> {
    Seq::new(fields.len(), |i: int| unpinned(fields[i]))
}

proof fn lemma_without_padding_augmented(fields: Seq<FieldModel>)
    requires
        forall|i: int| 0 <= i < fields.len() ==> !is_padding_name(#[trigger] fields[i].name),
    ensures
        without_padding(augmented(fields)) == all_unpinned(fields),
    decreases fields.len(),
{
    if fields.len() == 0 {
        assert(sized(fields).len() == 0);
        assert(augmented(fields).len() == 0);
        assert(without_padding(augmented(fields)) =~= all_unpinned(fields));
    } else {
        let prev = fields.drop_last();
        let last = fields.last();
        let head = augmented(prev);
        lemma_augmented_step(fields);
        assert forall|i: int| 0 <= i < prev.len() implies !is_padding_name(
            #[trigger] prev[i].name,
        ) by {
            assert(prev[i] == fields[i]);
        }
        lemma_without_padding_augmented(prev);
        assert(!is_padding_name(fields[fields.len() - 1].name));
        assert(all_unpinned(prev).push(unpinned(last)) =~= all_unpinned(fields));
        match last.offset {
            None => {
                let whole = head.push(unpinned(last));
                assert(whole.drop_last() =~= head);
                assert(without_padding(whole) == without_padding(head).push(unpinned(last)));
            },
            Some(offset) => {
                let state = synth(sized(prev));
                let padding = reassembled_field(ItemModel::Padding(padding_before(state, offset)));
                law_pad_name_is_reserved(state.pads);
                let padded = head.push(padding);
                let whole = padded.push(unpinned(last));
                assert(whole.drop_last() =~= padded);
                assert(padded.drop_last() =~= head);
                assert(without_padding(padded) == without_padding(head));
                assert(without_padding(whole) == without_padding(padded).push(unpinned(last)));
            },
        }
    }
}

/// Order preservation: where no field of the schema bears a name of the
/// padding convention, taking the padding out of the augmented schema
/// leaves the fields of the schema in their order, without their offsets.
pub proof fn law_order_preserved(schema: SchemaModel)
    requires
        transformed(schema) is Ok,
        forall|i: int|
            0 <= i < schema.fields.len() ==> !is_padding_name(#[trigger] schema.fields[i].name),
    ensures
        without_padding(transformed(schema).unwrap().fields) == all_unpinned(schema.fields),
{
    lemma_without_padding_augmented(schema.fields);
}

proof fn lemma_augmented_without_offsets(fields: Seq<FieldModel>)
    requires
        forall|i: int| 0 <= i < fields.len() ==> (#[trigger] fields[i]).offset is None,
    ensures
        augmented(fields) == fields,
    decreases fields.len(),
{
    if fields.len() == 0 {
        assert(sized(fields).len() == 0);
        assert(augmented(fields) =~= fields);
    } else {
        let prev = fields.drop_last();
        lemma_augmented_step(fields);
        assert forall|i: int| 0 <= i < prev.len() implies (#[trigger] prev[i]).offset is None by {
            assert(prev[i] == fields[i]);
        }
        lemma_augmented_without_offsets(prev);
        assert(fields[fields.len() - 1].offset is None);
        assert(unpinned(fields.last()) == fields.last());
        assert(prev.push(fields.last()) =~= fields);
    }
}

proof fn lemma_augmented_supported(fields: Seq<FieldModel>)
    requires
        forall|i: int| 0 <= i < fields.len() ==> !unsupported()(#[trigger] fields[i]),
    ensures
        forall|k: int|
            0 <= k < augmented(fields).len() ==> !unsupported()(#[trigger] augmented(fields)[k]),
    decreases fields.len(),
{
    if fields.len() == 0 {
        assert(sized(fields).len() == 0);
        assert(augmented(fields).len() == 0);
    } else {
        let prev = fields.drop_last();
        let last = fields.last();
        lemma_augmented_step(fields);
        assert forall|i: int| 0 <= i < prev.len() implies !unsupported()(#[trigger] prev[i]) by {
            assert(prev[i] == fields[i]);
        }
        lemma_augmented_supported(prev);
        assert(!unsupported()(fields[fields.len() - 1]));
        assert(resolved_size(unpinned(last)) == resolved_size(last));
    }
}

/// Re-application without offsets: on a schema whose fields all have a size
/// expression and none of which is pinned, the transform changes nothing.
pub proof fn law_noop_without_offsets(schema: SchemaModel)
    requires
        first_where(schema.fields, unsupported()) is None,
        forall|i: int| 0 <= i < schema.fields.len() ==> (#[trigger] schema.fields[i]).offset is None,
    ensures
        transformed(schema) == Ok::<SchemaModel, LayoutError>(schema),
{
    lemma_augmented_without_offsets(schema.fields);
}

/// Idempotence: the transform leaves its own result as it is.
pub proof fn law_idempotent(schema: SchemaModel)
    requires
        transformed(schema) is Ok,
    ensures
        transformed(transformed(schema).unwrap()) == transformed(schema),
{
    let out = transformed(schema).unwrap();
    lemma_first_where(schema.fields, unsupported());
    lemma_augmented_supported(schema.fields);
    lemma_first_where_none(out.fields, unsupported());
    law_noop_without_offsets(out);
}

/// No field of an augmented schema carries an offset: the offsets of the
/// declared fields are used up, and padding never has one.
pub proof fn law_augmented_has_no_offsets(fields: Seq<FieldModel>, k: int)
    requires
        0 <= k < augmented(fields).len(),
    ensures
        augmented(fields)[k].offset is None,
{
}

/// Re-application of the whole pass: on a strictly packed struct with
/// named fields, none of which is annotated or an optional wrapper around
/// anything but a reference, the pass hands the fields back as they are.
pub proof fn law_pass_without_annotations(raw: RawSchemaModel)
    requires
        raw.shape == Shape::NamedStruct,
        raw.packing == PackingMode::StrictPacked,
        forall|i: int| 0 <= i < raw.fields.len() ==> (#[trigger] raw.fields[i]).annotation is None,
        forall|i: int|
            0 <= i < raw.fields.len() ==> !is_optional_without_reference(
                (#[trigger] raw.fields[i]).ty,
            ),
    ensures
        lazy_re_result(raw) matches Ok(out) && out.name == raw.name && out.fields.len()
            == raw.fields.len() && forall|i: int|
            0 <= i < raw.fields.len() ==> #[trigger] out.fields[i] == (FieldModel {
                name: raw.fields[i].name,
                ty: raw.fields[i].ty,
                offset: None,
            }),
{
    assert forall|i: int| 0 <= i < raw.fields.len() implies !invalid_annotation()(
        #[trigger] raw.fields[i],
    ) by {}
    lemma_first_where_none(raw.fields, invalid_annotation());
    let checked = validated(raw).unwrap();
    assert forall|i: int| 0 <= i < checked.fields.len() implies !unsupported()(
        #[trigger] checked.fields[i],
    ) by {
        assert(checked.fields[i].ty == raw.fields[i].ty);
    }
    lemma_first_where_none(checked.fields, unsupported());
    assert forall|i: int| 0 <= i < checked.fields.len() implies (
    #[trigger] checked.fields[i]).offset is None by {
        assert(raw.fields[i].annotation is None);
    }
    law_noop_without_offsets(checked);
}

/// Whether no two of `fields` bear the same name.
pub open spec fn names_distinct(fields: Seq<FieldModel>) -> bool {
    forall|i: int, j: int| 0 <= i < j < fields.len() ==> fields[i].name != fields[j].name
}

/// Whether `name` is the name of one of `fields`.
pub open spec fn is_declared_name(fields: Seq<FieldModel>, name: Seq<char>) -> bool {
    exists|i: int| 0 <= i < fields.len() && (#[trigger] fields[i]).name == name
}

/// Whether `name` is the name of a padding field with an index below
/// `count`.
pub open spec fn is_pad_name_below(count: nat, name: Seq<char>) -> bool {
    exists|j: nat| j < count && #[trigger] pad_name(j) == name
}

/// Every field of an augmented schema bears the name of a field of the
/// schema, or that of a padding field with an index below the number of
/// pinned fields.
proof fn lemma_augmented_names(fields: Seq<FieldModel>, k: int)
    requires
        0 <= k < augmented(fields).len(),
    ensures
        is_declared_name(fields, augmented(fields)[k].name) || is_pad_name_below(
            pinned_count(fields),
            augmented(fields)[k].name,
        ),
    decreases fields.len(),
{
    if fields.len() == 0 {
        assert(sized(fields).len() == 0);
        assert(augmented(fields).len() == 0);
    } else {
        let prev = fields.drop_last();
        let last = fields.last();
        let head = augmented(prev);
        let name = augmented(fields)[k].name;
        lemma_augmented_step(fields);
        if fields.len() > 1 {
            lemma_augmented_step(prev);
        } else {
            assert(sized(prev).len() == 0);
            assert(head.len() == 0);
            assert(pinned_count(prev) == 0);
        }
        if k < head.len() {
            lemma_augmented_names(prev, k);
            assert(augmented(fields)[k] == head[k]);
            if is_declared_name(prev, name) {
                let i = choose|i: int| 0 <= i < prev.len() && (#[trigger] prev[i]).name == name;
                assert(fields[i].name == name);
            } else {
                let j = choose|j: nat| j < pinned_count(prev) && #[trigger] pad_name(j) == name;
                assert(j < pinned_count(fields) && pad_name(j) == name);
            }
        } else if k == augmented(fields).len() - 1 {
            assert(fields[fields.len() - 1].name == name);
        } else {
            assert(last.offset is Some);
            let j = pinned_count(prev);
            assert(j < pinned_count(fields) && pad_name(j) == name);
        }
    }
}

/// Names stay unique: where no two fields of the schema bear the same name
/// and none bears a name of the padding convention, no two fields of the
/// augmented schema bear the same name.
pub proof fn law_names_stay_distinct(fields: Seq<FieldModel>)
    requires
        names_distinct(fields),
        forall|i: int| 0 <= i < fields.len() ==> !is_padding_name(#[trigger] fields[i].name),
    ensures
        names_distinct(augmented(fields)),
    decreases fields.len(),
{
    if fields.len() == 0 {
        assert(sized(fields).len() == 0);
        assert(augmented(fields).len() == 0);
    } else {
        let prev = fields.drop_last();
        let last = fields.last();
        let head = augmented(prev);
        let whole = augmented(fields);
        lemma_augmented_step(fields);
        if fields.len() > 1 {
            lemma_augmented_step(prev);
        } else {
            assert(sized(prev).len() == 0);
            assert(head.len() == 0);
            assert(pinned_count(prev) == 0);
        }
        assert forall|i: int| 0 <= i < prev.len() implies !is_padding_name(
            #[trigger] prev[i].name,
        ) by {
            assert(prev[i] == fields[i]);
        }
        assert(names_distinct(prev)) by {
            assert forall|i: int, j: int| 0 <= i < j < prev.len() implies prev[i].name
                != prev[j].name by {
                assert(prev[i] == fields[i] && prev[j] == fields[j]);
            }
        }
        law_names_stay_distinct(prev);
        let pads = pinned_count(prev);
        law_pad_name_is_reserved(pads);
        assert(!is_padding_name(fields[fields.len() - 1].name));
        assert forall|a: int, b: int| 0 <= a < b < whole.len() implies whole[a].name
            != whole[b].name by {
            if b < head.len() {
                assert(whole[a] == head[a] && whole[b] == head[b]);
            } else if a < head.len() {
                assert(whole[a] == head[a]);
                lemma_augmented_names(prev, a);
                let name = head[a].name;
                if is_declared_name(prev, name) {
                    let i = choose|i: int| 0 <= i < prev.len() && (#[trigger] prev[i]).name == name;
                    assert(prev[i] == fields[i]);
                    assert(!is_padding_name(fields[i].name));
                    assert(fields[i].name != fields[fields.len() - 1].name);
                } else {
                    let j = choose|j: nat| j < pads && #[trigger] pad_name(j) == name;
                    law_pad_name_is_reserved(j);
                    law_pad_names_distinct(j, pads);
                }
            }
        }
    }
}

} // verus!
