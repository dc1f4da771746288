use lazy_re::{
    derive_helper_attr, lazy_re, realize, render, AttrToken, FieldDecl, KnownSize, LayoutError,
    PackingMode, PathArgs, RawField, RawSchema, Shape, SizeTable, StructSchema, TypeDesc, TypePath,
};

fn named(name: &str) -> TypeDesc {
    TypeDesc::Path(TypePath { qualified: false, name: name.to_string(), args: PathArgs::Absent })
}

fn generic(name: &str, first: Option<TypeDesc>) -> TypeDesc {
    TypeDesc::Path(TypePath {
        qualified: false,
        name: name.to_string(),
        args: PathArgs::AngleBracketed(first.map(Box::new)),
    })
}

fn reference(referent: TypeDesc) -> TypeDesc {
    TypeDesc::Reference(Box::new(referent))
}

fn offset(literal: &str) -> Option<Vec<AttrToken>> {
    Some(vec![
        AttrToken::Ident("offset".to_string()),
        AttrToken::Punct('='),
        AttrToken::Literal(literal.to_string()),
    ])
}

fn field(name: &str, ty: TypeDesc, annotation: Option<Vec<AttrToken>>) -> RawField {
    RawField { name: name.to_string(), ty, annotation }
}

fn repr(words: &[&str]) -> Vec<Vec<String>> {
    vec![words.iter().map(|word| word.to_string()).collect()]
}

fn item(name: &str, shape: Shape, reprs: Vec<Vec<String>>, fields: Vec<RawField>) -> RawSchema {
    RawSchema {
        name: name.to_string(),
        shape,
        packing: PackingMode::from_reprs(&reprs),
        fields,
    }
}

fn packed(name: &str, fields: Vec<RawField>) -> RawSchema {
    item(name, Shape::NamedStruct, repr(&["C", "packed"]), fields)
}

fn sizes(known: &[(&str, usize)]) -> SizeTable {
    SizeTable {
        pointer_size: std::mem::size_of::<usize>(),
        known: known
            .iter()
            .map(|(field, size)| KnownSize { field: field.to_string(), size: *size })
            .collect(),
    }
}

fn as_declared(schema: &StructSchema) -> RawSchema {
    let fields = schema
        .fields
        .iter()
        .map(|f: &FieldDecl| RawField { name: f.name.clone(), ty: f.ty.clone(), annotation: None })
        .collect();
    packed(&schema.name, fields)
}

fn foo() -> RawSchema {
    packed(
        "Foo",
        vec![
            field("other_member", named("usize"), offset("0x42")),
            field("foo", named("usize"), offset("0x90")),
        ],
    )
}

fn bar() -> RawSchema {
    packed(
        "Bar",
        vec![
            field("no_offset", named("usize"), None),
            field("offset", named("usize"), offset("0x42")),
        ],
    )
}

fn lights() -> RawSchema {
    packed(
        "Lights",
        vec![
            field("x", named("f32"), offset("0x10")),
            field("y", named("f32"), None),
            field("z", named("f32"), None),
        ],
    )
}

fn player_entity() -> RawSchema {
    packed(
        "PlayerEntity",
        vec![
            field("light", named("Lights"), offset("0x48")),
            field("player_x", named("f32"), offset("0x90")),
            field("player_y", named("f32"), None),
            field("player_z", named("f32"), None),
        ],
    )
}

fn quaz() -> RawSchema {
    packed(
        "Quaz",
        vec![
            field("a", reference(named("T")), None),
            field("b", reference(TypeDesc::TraitObject), None),
            field("c", reference(TypeDesc::Slice), None),
            field("d", reference(named("str")), None),
            field("e", generic("Box", Some(named("str"))), None),
            field("z", named("usize"), offset("0x80")),
        ],
    )
}

fn realized_size(schema: &RawSchema, table: &SizeTable) -> usize {
    realize(&lazy_re(schema).unwrap(), table).unwrap().size
}

#[test]
fn test_ui() {
    let word = std::mem::size_of::<usize>();

    // A struct that does not declare its packing.
    let no_repr = item(
        "Baz",
        Shape::NamedStruct,
        vec![],
        vec![
            field("no_offset", named("usize"), None),
            field("offset", named("usize"), offset("0x42")),
        ],
    );
    assert_eq!(lazy_re(&no_repr), Err(LayoutError::MissingPackingAttribute));

    // Anything but a struct with named fields.
    let tuple = item("Bar", Shape::TupleStruct, repr(&["C", "packed"]), vec![]);
    assert_eq!(lazy_re(&tuple), Err(LayoutError::ShapeMismatch));
    let enumeration = item("Baz", Shape::Enum, vec![], vec![]);
    assert_eq!(lazy_re(&enumeration), Err(LayoutError::ShapeMismatch));
    let union = item(
        "Bax",
        Shape::Union,
        vec![],
        vec![field("a", named("usize"), None), field("b", named("u64"), None)],
    );
    assert_eq!(lazy_re(&union), Err(LayoutError::ShapeMismatch));
    let function = item("foo", Shape::Function, vec![], vec![]);
    assert_eq!(lazy_re(&function), Err(LayoutError::ShapeMismatch));

    // An annotation without arguments.
    let empty = packed("Foo", vec![field("foo", named("usize"), Some(vec![]))]);
    assert_eq!(lazy_re(&empty), Err(LayoutError::InvalidOffsetLiteral { field: 0 }));

    // An annotation whose value is not an integer.
    let non_int = packed("Foo", vec![field("foo", named("usize"), offset("\"0x42\""))]);
    assert_eq!(lazy_re(&non_int), Err(LayoutError::InvalidOffsetLiteral { field: 0 }));

    // Offsets that decrease: the padding before `d` would be negative.
    let invalid_offsets = packed(
        "Foo",
        vec![
            field("a", named("usize"), offset("0x20")),
            field("b", named("usize"), None),
            field("c", named("usize"), None),
            field("d", named("usize"), offset("0x28")),
        ],
    );
    let augmented = lazy_re(&invalid_offsets).unwrap();
    let table = SizeTable {
        pointer_size: 8,
        known: ["a", "b", "c", "d"]
            .iter()
            .map(|field| KnownSize { field: field.to_string(), size: 8 })
            .collect(),
    };
    assert_eq!(
        realize(&augmented, &table),
        Err(LayoutError::NegativeOrOverflowingPadding { field: 4 })
    );

    // References to a generic parameter and to a trait object.
    let generic_pointer = packed(
        "Foo",
        vec![
            field("a", reference(named("T")), None),
            field("b", reference(TypeDesc::TraitObject), None),
            field("c", named("usize"), offset("0x42")),
        ],
    );
    let augmented = lazy_re(&generic_pointer).unwrap();
    let layout = realize(&augmented, &sizes(&[("c", word)])).unwrap();
    assert_eq!(layout.fields[3].name, "c");
    assert_eq!(layout.fields[3].offset, 0x42);
}

#[test]
fn test_struct_size() {
    let word = std::mem::size_of::<usize>();
    let float = std::mem::size_of::<f32>();
    assert_eq!(realized_size(&foo(), &sizes(&[("other_member", word), ("foo", word)])), 0x90 + word);
    assert_eq!(realized_size(&bar(), &sizes(&[("no_offset", word), ("offset", word)])), 0x42 + word);
    let lights_size = realized_size(&lights(), &sizes(&[("x", float), ("y", float), ("z", float)]));
    assert_eq!(
        realized_size(
            &player_entity(),
            &sizes(&[
                ("light", lights_size),
                ("player_x", float),
                ("player_y", float),
                ("player_z", float),
            ]),
        ),
        0x90 + float * 3
    );
    let table = sizes(&[("e", std::mem::size_of::<Box<str>>()), ("z", word)]);
    let layout = realize(&lazy_re(&quaz()).unwrap(), &table).unwrap();
    let z = layout.fields.iter().find(|placement| placement.name == "z").unwrap();
    assert_eq!(z.offset, 0x80);
}

#[test]
fn test_debig() {
    let word = std::mem::size_of::<usize>();
    let augmented = lazy_re(&bar()).unwrap();
    let view = derive_helper_attr(&as_declared(&augmented)).unwrap();
    let layout = realize(&augmented, &sizes(&[("no_offset", word), ("offset", word)])).unwrap();
    let zeroed = vec![0u8; layout.size];
    let values = render(&layout, &zeroed).unwrap();
    println!("{:?}", view);
    println!("{:?}", values);
    assert_eq!(view.name, "Bar");
    assert_eq!(view.fields, vec!["no_offset".to_string(), "offset".to_string()]);
    assert_eq!(values.len(), 2);
    assert_eq!(values[0].name, "no_offset");
    assert_eq!(values[0].bytes, vec![0u8; word]);
    assert_eq!(values[1].name, "offset");
    assert_eq!(values[1].bytes, vec![0u8; word]);
}

#[test]
fn ui_tests_ui() {
    let no_repr = item(
        "Baz",
        Shape::NamedStruct,
        vec![],
        vec![
            field("no_offset", named("usize"), None),
            field("offset", named("usize"), offset("0x42")),
        ],
    );
    assert_eq!(lazy_re(&no_repr), Err(LayoutError::MissingPackingAttribute));

    let tuple = item("Bar", Shape::TupleStruct, repr(&["C", "packed"]), vec![]);
    assert_eq!(lazy_re(&tuple), Err(LayoutError::ShapeMismatch));

    let empty = packed("Foo", vec![field("foo", named("usize"), Some(vec![]))]);
    assert_eq!(lazy_re(&empty), Err(LayoutError::InvalidOffsetLiteral { field: 0 }));

    let non_int = packed("Foo", vec![field("foo", named("usize"), offset("1.5"))]);
    assert_eq!(lazy_re(&non_int), Err(LayoutError::InvalidOffsetLiteral { field: 0 }));

    let invalid_offsets = packed(
        "Foo",
        vec![
            field("a", named("usize"), offset("0x20")),
            field("b", named("usize"), None),
            field("c", named("usize"), None),
            field("d", named("usize"), offset("0x28")),
        ],
    );
    let word = std::mem::size_of::<usize>();
    let table = sizes(&[("a", word), ("b", word), ("c", word), ("d", word)]);
    assert_eq!(
        realize(&lazy_re(&invalid_offsets).unwrap(), &table),
        Err(LayoutError::NegativeOrOverflowingPadding { field: 4 })
    );

    let generic_pointer = packed(
        "Foo",
        vec![
            field("a", reference(named("T")), None),
            field("b", reference(TypeDesc::TraitObject), None),
            field("c", named("usize"), offset("0x42")),
        ],
    );
    assert!(realize(&lazy_re(&generic_pointer).unwrap(), &sizes(&[("c", word)])).is_ok());

    let option_without_ref = packed(
        "Foo",
        vec![
            field("a", named("usize"), None),
            field("b", generic("Option", Some(named("f32"))), None),
            field("c", named("usize"), offset("0xBB")),
        ],
    );
    assert_eq!(
        lazy_re(&option_without_ref),
        Err(LayoutError::UnsupportedOptionalPayload { field: 1 })
    );
}

#[test]
fn nested_structs() {
    let word = std::mem::size_of::<usize>();
    let nested = packed(
        "Foo",
        vec![
            field("a", named("usize"), None),
            field("b", generic("Option", Some(reference(named("T")))), None),
            field("c", named("usize"), offset("0xBB")),
        ],
    );
    let augmented = lazy_re(&nested).unwrap();
    let layout = realize(&augmented, &sizes(&[("a", word), ("c", word)])).unwrap();
    assert_eq!(layout.fields[3].name, "c");
    assert_eq!(layout.fields[3].offset, 0xBB);
    assert_eq!(layout.size, 0xBB + word);
}
