//! Padding synthesis for partially known, strictly packed struct layouts.
//!
//! A schema names some fields and pins a few of them to byte offsets. The
//! transform inserts byte-array padding before every pinned field so that,
//! once all type sizes are concrete, each pinned field lands on its offset.
//! Field sizes that are not yet known stay symbolic until realization.
//!
//! The pass runs in stages: [`validate::validate`] checks the shape, the
//! packing mode and the offset annotations of a raw schema;
//! [`resolve::map_field_type`] gives every field a size expression;
//! [`synth::synthesize`] emits the fields with padding in between;
//! [`synth::reassemble`] merges them into the final schema.
//! [`lazy_re`] runs them all. [`realize::realize`] evaluates a schema
//! against concrete sizes, and [`derive_helper_attr`] derives the debug view
//! that leaves the padding out. The module [`laws`] states what holds of
//! every schema.

pub mod error;
pub mod scan;
pub mod size;
pub mod type_desc;
pub mod schema;
pub mod offset;
pub mod validate;
pub mod resolve;
pub mod naming;
pub mod synth;
pub mod realize;
pub mod debug_view;
pub mod laws;

pub use debug_view::{derive_helper_attr, read_unaligned, render, DebugView, FieldValue};
pub use error::LayoutError;
pub use naming::{has_reserved_prefix, padding_name};
pub use offset::Offset;
pub use realize::{realize, Layout, Placement};
pub use resolve::{map_field_type, reduce_complex_type, SizedField};
pub use schema::{AttrToken, FieldDecl, PackingMode, RawField, RawSchema, Shape, StructSchema};
pub use size::{Fault, KnownSize, SizeExpr, SizeTable};
pub use synth::{lazy_re, reassemble, synthesize, transform, PaddingField, StreamItem};
pub use type_desc::{PathArgs, TypeDesc, TypePath};
pub use validate::{get_fields, validate};
