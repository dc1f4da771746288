//! Realization: the layout a schema has once every size is concrete.
//!
//! Realization lays out the fields that are there, one behind the other, and
//! does not read their offsets: it is meant for a schema that the transform
//! has augmented.

use vstd::prelude::*;
use crate::error::LayoutError;
use crate::resolve::{reduce_complex_type, resolved_size};
use crate::schema::{FieldModel, StructSchema};
use crate::size::{eval, Fault, SizeEnv, SizeTable};

verus! {

/// Where one field lies.
#[derive(Debug, PartialEq, Eq)]
pub struct Placement {
    pub name: String,
    /// The offset of the field's first byte.
    pub offset: usize,
    /// The number of bytes the field takes.
    pub size: usize,
}

/// Mathematical model of a [`Placement`].
pub struct PlacementModel {
    pub name: Seq<char>,
    pub offset: nat,
    pub size: nat,
}

impl View for Placement {
    type V = PlacementModel;

    open spec fn view(&self) -> PlacementModel {
        PlacementModel { name: self.name@, offset: self.offset as nat, size: self.size as nat }
    }
}

impl DeepView for Placement {
    type V = PlacementModel;

    open spec fn deep_view(&self) -> PlacementModel {
        self@
    }
}

/// The realized layout of a schema: its fields in order, and its size.
#[derive(Debug, PartialEq, Eq)]
pub struct Layout {
    pub fields: Vec<Placement>,
    pub size: usize,
}

/// Mathematical model of a [`Layout`].
pub struct LayoutModel {
    pub fields: Seq<PlacementModel>,
    pub size: nat,
}

impl View for Layout {
    type V = LayoutModel;

    open spec fn view(&self) -> LayoutModel {
        LayoutModel { fields: self.fields.deep_view(), size: self.size as nat }
    }
}

/// The layout with one more field placed right behind the others. The
/// field is refused where it has no size expression, where that expression
/// has no value, or where the field would end beyond `usize::MAX`;
/// `position` is the field's place in the schema.
pub open spec fn place_next(
    before: LayoutModel,
    field: FieldModel,
    position: nat,
    env: SizeEnv,
) -> Result<LayoutModel, LayoutError> {
    match resolved_size(field) {
        None => Err(LayoutError::UnsupportedOptionalPayload { field: position as usize }),
        Some(term) => match eval(term, env) {
            Err(Fault::Unknown) => Err(LayoutError::UnknownTypeSize { field: position as usize }),
            Err(Fault::OutOfRange) => Err(
                LayoutError::NegativeOrOverflowingPadding { field: position as usize },
            ),
            Ok(size) => if before.size + size <= usize::MAX {
                Ok(
                    LayoutModel {
                        fields: before.fields.push(
                            PlacementModel { name: field.name, offset: before.size, size },
                        ),
                        size: before.size + size,
                    },
                )
            } else {
                Err(LayoutError::NegativeOrOverflowingPadding { field: position as usize })
            },
        },
    }
}

/// The strictly packed layout of `fields` under `env`: the fields follow
/// each other from offset zero, and the first field that cannot be placed
/// names the error.
pub open spec fn realized(fields: Seq<FieldModel>, env: SizeEnv) -> Result<
    LayoutModel,
    LayoutError,
>
    decreases fields.len(),
{
    if fields.len() == 0 {
        Ok(LayoutModel { fields: Seq::empty(), size: 0 })
    } else {
        match realized(fields.drop_last(), env) {
            Ok(before) => place_next(before, fields.last(), (fields.len() - 1) as nat, env),
            Err(e) => Err(e),
        }
    }
}

/// Evaluates the size of every field against the host's concrete sizes and
/// lays the fields out one behind the other.
pub fn realize(schema: &StructSchema, table: &SizeTable) -> (r: Result<Layout, LayoutError>)
    ensures
        match r {
            Ok(layout) => realized(schema@.fields, table@) == Ok::<LayoutModel, LayoutError>(
                layout@,
            ),
            Err(e) => realized(schema@.fields, table@) == Err::<LayoutModel, LayoutError>(e),
        },
{
    let ghost fields = schema@.fields;
    let mut placed: Vec<Placement> = Vec::new();
    let mut end: usize = 0;
    let mut i: usize = 0;
    assert(fields.take(0) =~= Seq::<FieldModel>::empty());
    assert(placed.deep_view() =~= Seq::<PlacementModel>::empty());
    while i < schema.fields.len()
        invariant
            i <= schema.fields.len(),
            fields == schema.fields.deep_view(),
            placed.len() == i,
            realized(fields.take(i as int), table@) == Ok::<LayoutModel, LayoutError>(
                LayoutModel { fields: placed.deep_view(), size: end as nat },
            ),
        decreases schema.fields.len() - i,
    {
        let field = &schema.fields[i];
        let ghost before = placed.deep_view();
        proof {
            assert(fields[i as int] == field@);
            assert(fields.take(i + 1).drop_last() =~= fields.take(i as int));
            assert(fields.take(i + 1).last() == field@);
            lemma_realized_error_stays(fields, table@, i + 1);
        }
        let fault = match reduce_complex_type(field) {
            None => Some(LayoutError::UnsupportedOptionalPayload { field: i }),
            Some(expr) => match expr.eval(table) {
                Err(Fault::Unknown) => Some(LayoutError::UnknownTypeSize { field: i }),
                Err(Fault::OutOfRange) => Some(
                    LayoutError::NegativeOrOverflowingPadding { field: i },
                ),
                Ok(size) => match end.checked_add(size) {
                    None => Some(LayoutError::NegativeOrOverflowingPadding { field: i }),
                    Some(next) => {
                        placed.push(Placement { name: field.name.clone(), offset: end, size });
                        end = next;
                        None
                    },
                },
            },
        };
        if let Some(e) = fault {
            return Err(e);
        }
        proof {
            assert(placed.deep_view() =~= before.push(placed[i as int]@));
        }
        i += 1;
    }
    assert(fields.take(i as int) =~= fields);
    Ok(Layout { fields: placed, size: end })
}

/// A prefix that cannot be laid out keeps the whole from being laid out,
/// with the same error.
pub proof fn lemma_realized_error_stays(fields: Seq<FieldModel>, env: SizeEnv, n: int)
    requires
        0 <= n <= fields.len(),
    ensures
        realized(fields.take(n), env) matches Err(e) ==> realized(fields, env) == Err::<
            LayoutModel,
            LayoutError,
        >(e),
    decreases fields.len() - n,
{
    if n < fields.len() {
        lemma_realized_error_stays(fields, env, n + 1);
        assert(fields.take(n + 1).drop_last() =~= fields.take(n));
    } else {
        assert(fields.take(n) =~= fields);
    }
}

} // verus!
