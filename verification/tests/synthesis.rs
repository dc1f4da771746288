use lazy_re::{
    lazy_re, padding_name, reassemble, synthesize, transform, validate, AttrToken, FieldDecl,
    LayoutError, PackingMode, PaddingField, PathArgs, RawField, RawSchema, Shape, SizeExpr,
    SizedField, StreamItem, StructSchema, TypeDesc, TypePath,
};

fn named(name: &str) -> TypeDesc {
    TypeDesc::Path(TypePath { qualified: false, name: name.to_string(), args: PathArgs::Absent })
}

fn option_of(first: TypeDesc) -> TypeDesc {
    TypeDesc::Path(TypePath {
        qualified: false,
        name: "Option".to_string(),
        args: PathArgs::AngleBracketed(Some(Box::new(first))),
    })
}

fn offset(literal: &str) -> Option<Vec<AttrToken>> {
    Some(vec![
        AttrToken::Ident("offset".to_string()),
        AttrToken::Punct('='),
        AttrToken::Literal(literal.to_string()),
    ])
}

fn raw(name: &str, ty: TypeDesc, annotation: Option<Vec<AttrToken>>) -> RawField {
    RawField { name: name.to_string(), ty, annotation }
}

fn packed(fields: Vec<RawField>) -> RawSchema {
    RawSchema {
        name: "S".to_string(),
        shape: Shape::NamedStruct,
        packing: PackingMode::StrictPacked,
        fields,
    }
}

fn decl(name: &str, ty: TypeDesc, offset: Option<usize>) -> FieldDecl {
    FieldDecl { name: name.to_string(), ty, offset }
}

fn word(name: &str, offset: Option<usize>) -> SizedField {
    SizedField { field: decl(name, named("usize"), offset), size: SizeExpr::Bytes(8) }
}

fn bytes(n: usize) -> Box<SizeExpr> {
    Box::new(SizeExpr::Bytes(n))
}

fn type_of(name: &str) -> Box<SizeExpr> {
    Box::new(SizeExpr::TypeOf(name.to_string()))
}

fn padding(index: &str, size: SizeExpr) -> StreamItem {
    StreamItem::Padding(PaddingField { name: format!("__pad{}", index), size })
}

fn pad_field(index: &str, size: SizeExpr) -> FieldDecl {
    decl(&format!("__pad{}", index), TypeDesc::Bytes(size), None)
}

#[test]
fn padding_names_have_at_least_three_digits() {
    assert_eq!(padding_name(0), "__pad000");
    assert_eq!(padding_name(7), "__pad007");
    assert_eq!(padding_name(9), "__pad009");
    assert_eq!(padding_name(10), "__pad010");
    assert_eq!(padding_name(42), "__pad042");
    assert_eq!(padding_name(99), "__pad099");
    assert_eq!(padding_name(100), "__pad100");
    assert_eq!(padding_name(999), "__pad999");
    assert_eq!(padding_name(1000), "__pad1000");
    assert_eq!(padding_name(usize::MAX), format!("__pad{}", usize::MAX));
}

#[test]
fn two_pinned_fields_get_two_paddings() {
    let stream = synthesize(&vec![word("other_member", Some(0x42)), word("foo", Some(0x90))]);
    assert_eq!(
        stream,
        vec![
            padding("000", SizeExpr::Diff(bytes(0x42), bytes(0))),
            StreamItem::Declared(decl("other_member", named("usize"), Some(0x42))),
            padding(
                "001",
                SizeExpr::Diff(bytes(0x90), Box::new(SizeExpr::Sum(bytes(0x42), bytes(8)))),
            ),
            StreamItem::Declared(decl("foo", named("usize"), Some(0x90))),
        ]
    );
}

#[test]
fn padding_goes_between_free_and_pinned_field() {
    let stream = synthesize(&vec![word("no_offset", None), word("offset_field", Some(0x42))]);
    assert_eq!(
        stream,
        vec![
            StreamItem::Declared(decl("no_offset", named("usize"), None)),
            padding(
                "000",
                SizeExpr::Diff(bytes(0x42), Box::new(SizeExpr::Sum(bytes(0), bytes(8)))),
            ),
            StreamItem::Declared(decl("offset_field", named("usize"), Some(0x42))),
        ]
    );
}

#[test]
fn decreasing_offsets_are_synthesized_unchecked() {
    let stream = synthesize(&vec![
        word("a", Some(0x20)),
        word("b", None),
        word("c", None),
        word("d", Some(0x28)),
    ]);
    assert_eq!(stream.len(), 6);
    assert_eq!(
        stream[4],
        padding(
            "001",
            SizeExpr::Diff(
                bytes(0x28),
                Box::new(SizeExpr::Sum(
                    Box::new(SizeExpr::Sum(Box::new(SizeExpr::Sum(bytes(0x20), bytes(8))), bytes(8))),
                    bytes(8),
                )),
            ),
        )
    );
}

#[test]
fn empty_schema_gives_empty_stream() {
    assert_eq!(synthesize(&vec![]), vec![]);
    let out = lazy_re(&packed(vec![])).unwrap();
    assert_eq!(out, StructSchema { name: "S".to_string(), fields: vec![] });
}

#[test]
fn reassembly_strips_offsets_and_types_padding() {
    let stream = vec![
        padding("000", SizeExpr::Diff(bytes(4), bytes(0))),
        StreamItem::Declared(decl("a", named("u8"), Some(4))),
        StreamItem::Declared(decl("b", named("u8"), None)),
    ];
    let schema = reassemble(&"Pair".to_string(), &stream);
    assert_eq!(
        schema,
        StructSchema {
            name: "Pair".to_string(),
            fields: vec![
                pad_field("000", SizeExpr::Diff(bytes(4), bytes(0))),
                decl("a", named("u8"), None),
                decl("b", named("u8"), None),
            ],
        }
    );
}

#[test]
fn whole_pass_keeps_sizes_symbolic() {
    let schema = packed(vec![
        raw("other_member", named("usize"), offset("0x42")),
        raw("foo", named("usize"), offset("0x90")),
    ]);
    let out = lazy_re(&schema).unwrap();
    assert_eq!(
        out.fields,
        vec![
            pad_field("000", SizeExpr::Diff(bytes(0x42), bytes(0))),
            decl("other_member", named("usize"), None),
            pad_field(
                "001",
                SizeExpr::Diff(
                    bytes(0x90),
                    Box::new(SizeExpr::Sum(bytes(0x42), type_of("other_member"))),
                ),
            ),
            decl("foo", named("usize"), None),
        ]
    );
}

#[test]
fn validation_reads_offsets() {
    let schema = packed(vec![
        raw("a", named("u8"), None),
        raw("b", named("u8"), offset("0x10")),
    ]);
    assert_eq!(
        validate(&schema),
        Ok(StructSchema {
            name: "S".to_string(),
            fields: vec![decl("a", named("u8"), None), decl("b", named("u8"), Some(0x10))],
        })
    );
}

#[test]
fn order_is_kept_when_padding_is_taken_out() {
    let schema = packed(vec![
        raw("a", named("u8"), offset("1")),
        raw("b", named("u8"), None),
        raw("c", named("u8"), offset("8")),
        raw("d", named("u8"), offset("16")),
        raw("e", named("u8"), None),
    ]);
    let out = lazy_re(&schema).unwrap();
    let names: Vec<&str> = out.fields.iter().map(|f| f.name.as_str()).collect();
    assert_eq!(names, vec!["__pad000", "a", "b", "__pad001", "c", "__pad002", "d", "e"]);
    let kept: Vec<&str> = names.iter().copied().filter(|name| !name.starts_with("__pad")).collect();
    assert_eq!(kept, vec!["a", "b", "c", "d", "e"]);
    assert!(out.fields.iter().all(|f| f.offset.is_none()));
}

#[test]
fn transform_is_a_no_op_on_its_own_result() {
    let schema = validate(&packed(vec![
        raw("a", named("u8"), None),
        raw("b", named("u8"), offset("0x10")),
        raw("c", option_of(TypeDesc::Reference(Box::new(named("T")))), offset("0x20")),
    ]))
    .unwrap();
    let once = transform(&schema).unwrap();
    assert_eq!(once.fields.len(), 5);
    let twice = transform(&once).unwrap();
    assert_eq!(twice, once);
}

#[test]
fn pass_is_a_no_op_without_annotations() {
    let schema = packed(vec![raw("a", named("u8"), None), raw("b", named("T"), None)]);
    assert_eq!(
        lazy_re(&schema),
        Ok(StructSchema {
            name: "S".to_string(),
            fields: vec![decl("a", named("u8"), None), decl("b", named("T"), None)],
        })
    );
}

#[test]
fn shape_is_checked_before_anything_else() {
    for shape in [Shape::TupleStruct, Shape::UnitStruct, Shape::Enum, Shape::Union, Shape::Function]
    {
        for packing in [PackingMode::StrictPacked, PackingMode::Other] {
            let schema = RawSchema {
                name: "S".to_string(),
                shape,
                packing,
                fields: vec![
                    raw("a", option_of(named("f32")), offset("oops")),
                    raw("b", named("u8"), offset("0x10")),
                ],
            };
            assert_eq!(lazy_re(&schema), Err(LayoutError::ShapeMismatch));
        }
    }
}

#[test]
fn packing_is_checked_before_the_fields() {
    let schema = RawSchema {
        name: "S".to_string(),
        shape: Shape::NamedStruct,
        packing: PackingMode::Other,
        fields: vec![
            raw("a", option_of(named("f32")), offset("oops")),
            raw("b", named("u8"), offset("0x10")),
        ],
    };
    assert_eq!(lazy_re(&schema), Err(LayoutError::MissingPackingAttribute));
    let empty = RawSchema {
        name: "S".to_string(),
        shape: Shape::NamedStruct,
        packing: PackingMode::Other,
        fields: vec![],
    };
    assert_eq!(lazy_re(&empty), Err(LayoutError::MissingPackingAttribute));
}

#[test]
fn annotations_are_checked_before_types() {
    let schema = packed(vec![
        raw("a", option_of(named("f32")), None),
        raw("b", named("u8"), offset("0x10")),
        raw("c", named("u8"), offset("1.0")),
        raw("d", named("u8"), offset("nope")),
    ]);
    assert_eq!(lazy_re(&schema), Err(LayoutError::InvalidOffsetLiteral { field: 2 }));
}

#[test]
fn optional_without_reference_is_refused_wherever_it_stands() {
    let last = packed(vec![
        raw("a", named("u8"), offset("0x10")),
        raw("b", option_of(named("f32")), None),
    ]);
    assert_eq!(lazy_re(&last), Err(LayoutError::UnsupportedOptionalPayload { field: 1 }));
    let pinned = packed(vec![raw("b", option_of(named("u64")), offset("0x10"))]);
    assert_eq!(lazy_re(&pinned), Err(LayoutError::UnsupportedOptionalPayload { field: 0 }));
    let alone = packed(vec![raw("b", option_of(named("u64")), None)]);
    assert_eq!(lazy_re(&alone), Err(LayoutError::UnsupportedOptionalPayload { field: 0 }));
}

#[test]
fn optional_reference_resolves_to_one_pointer() {
    let schema = packed(vec![
        raw("a", named("usize"), None),
        raw("b", option_of(TypeDesc::Reference(Box::new(named("T")))), None),
        raw("c", named("usize"), offset("0xBB")),
    ]);
    let out = lazy_re(&schema).unwrap();
    assert_eq!(
        out.fields[2],
        pad_field(
            "000",
            SizeExpr::Diff(
                bytes(0xBB),
                Box::new(SizeExpr::Sum(
                    Box::new(SizeExpr::Sum(bytes(0), type_of("a"))),
                    Box::new(SizeExpr::Pointer),
                )),
            ),
        )
    );
}
