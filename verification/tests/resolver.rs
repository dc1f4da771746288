use lazy_re::{
    map_field_type, reduce_complex_type, FieldDecl, LayoutError, PathArgs, SizeExpr, SizedField,
    TypeDesc, TypePath,
};

fn path(name: &str, qualified: bool, args: PathArgs) -> TypeDesc {
    TypeDesc::Path(TypePath { qualified, name: name.to_string(), args })
}

fn named(name: &str) -> TypeDesc {
    path(name, false, PathArgs::Absent)
}

fn option_of(first: Option<TypeDesc>) -> TypeDesc {
    path("Option", false, PathArgs::AngleBracketed(first.map(Box::new)))
}

fn reference(referent: TypeDesc) -> TypeDesc {
    TypeDesc::Reference(Box::new(referent))
}

fn field(name: &str, ty: TypeDesc) -> FieldDecl {
    FieldDecl { name: name.to_string(), ty, offset: None }
}

fn size_of(ty: TypeDesc) -> Option<SizeExpr> {
    reduce_complex_type(&field("f", ty))
}

fn pointer() -> SizeExpr {
    SizeExpr::Pointer
}

fn fat_pointer() -> SizeExpr {
    SizeExpr::Sum(Box::new(SizeExpr::Pointer), Box::new(SizeExpr::Pointer))
}

fn own_size() -> SizeExpr {
    SizeExpr::TypeOf("f".to_string())
}

#[test]
fn reference_to_sized_referent_is_one_pointer() {
    assert_eq!(size_of(reference(named("T"))), Some(pointer()));
    assert_eq!(size_of(reference(named("usize"))), Some(pointer()));
    assert_eq!(size_of(reference(TypeDesc::Other)), Some(pointer()));
    assert_eq!(size_of(reference(reference(TypeDesc::Slice))), Some(pointer()));
    assert_eq!(size_of(reference(option_of(Some(named("f32"))))), Some(pointer()));
}

#[test]
fn reference_to_dynamically_sized_referent_is_two_pointers() {
    assert_eq!(size_of(reference(TypeDesc::TraitObject)), Some(fat_pointer()));
    assert_eq!(size_of(reference(TypeDesc::Slice)), Some(fat_pointer()));
    assert_eq!(size_of(reference(named("str"))), Some(fat_pointer()));
}

#[test]
fn only_the_bare_word_str_is_dynamically_sized() {
    assert_eq!(size_of(reference(path("str", true, PathArgs::Absent))), Some(pointer()));
    assert_eq!(
        size_of(reference(path("str", false, PathArgs::AngleBracketed(None)))),
        Some(pointer())
    );
    assert_eq!(size_of(reference(path("str", false, PathArgs::Parenthesized))), Some(pointer()));
    assert_eq!(size_of(reference(named("string"))), Some(pointer()));
}

#[test]
fn option_of_reference_is_one_pointer() {
    assert_eq!(size_of(option_of(Some(reference(named("T"))))), Some(pointer()));
    assert_eq!(size_of(option_of(Some(reference(TypeDesc::Slice)))), Some(pointer()));
    assert_eq!(
        size_of(path(
            "Option",
            true,
            PathArgs::AngleBracketed(Some(Box::new(reference(named("T"))))),
        )),
        Some(pointer())
    );
}

#[test]
fn option_of_anything_else_is_refused() {
    assert_eq!(size_of(option_of(Some(named("f32")))), None);
    assert_eq!(size_of(option_of(Some(TypeDesc::Other))), None);
    assert_eq!(size_of(option_of(Some(option_of(Some(reference(named("T"))))))), None);
    assert_eq!(size_of(option_of(None)), None);
    assert_eq!(size_of(named("Option")), None);
    assert_eq!(size_of(path("Option", false, PathArgs::Parenthesized)), None);
}

#[test]
fn any_other_type_keeps_its_own_size() {
    assert_eq!(size_of(named("usize")), Some(own_size()));
    assert_eq!(size_of(named("T")), Some(own_size()));
    assert_eq!(size_of(named("str")), Some(own_size()));
    assert_eq!(
        size_of(path("Box", false, PathArgs::AngleBracketed(Some(Box::new(named("str")))))),
        Some(own_size())
    );
    assert_eq!(size_of(TypeDesc::Other), Some(own_size()));
    assert_eq!(size_of(TypeDesc::TraitObject), Some(own_size()));
    assert_eq!(size_of(TypeDesc::Slice), Some(own_size()));
}

#[test]
fn byte_array_is_as_long_as_it_says() {
    let len = SizeExpr::Diff(Box::new(SizeExpr::Bytes(0x42)), Box::new(SizeExpr::Bytes(0)));
    assert_eq!(size_of(TypeDesc::Bytes(len.clone())), Some(len));
}

#[test]
fn maps_every_field_in_order() {
    let fields = vec![
        field("a", reference(named("T"))),
        field("b", named("usize")),
        field("c", reference(TypeDesc::TraitObject)),
    ];
    let sized = map_field_type(&fields).unwrap();
    assert_eq!(
        sized,
        vec![
            SizedField { field: field("a", reference(named("T"))), size: pointer() },
            SizedField { field: field("b", named("usize")), size: SizeExpr::TypeOf("b".to_string()) },
            SizedField { field: field("c", reference(TypeDesc::TraitObject)), size: fat_pointer() },
        ]
    );
    assert_eq!(map_field_type(&vec![]), Ok(vec![]));
}

#[test]
fn names_the_first_refused_field() {
    let fields = vec![
        field("a", named("usize")),
        field("b", option_of(Some(named("f32")))),
        field("c", option_of(None)),
    ];
    assert_eq!(
        map_field_type(&fields),
        Err(LayoutError::UnsupportedOptionalPayload { field: 1 })
    );
}
