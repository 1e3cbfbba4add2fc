use enum_macros::ast::{EnumDecl, Fields, Ident, Meta, Path, TypeRef, Variant, Vis};
use enum_macros::common::EngineError;
use enum_macros::variant_wrapper::{doit, wrap_variant};

fn id(s: &str) -> Ident {
    Ident { name: s.to_string(), span: 0 }
}

fn path1(s: &str) -> Path {
    Path { segments: vec![id(s)], span: 0 }
}

fn bare(s: &str) -> Meta {
    Meta::Path(path1(s))
}

fn variant(name: &str, fields: Fields) -> Variant {
    Variant { attrs: vec![], ident: id(name), fields, disc: None }
}

/// `MyEnum { A, B(B) }`: a unit variant and a variant already wrapping
/// its payload type.
fn my_enum() -> EnumDecl {
    EnumDecl {
        attrs: vec![],
        vis: Vis::Inherited,
        ident: id("MyEnum"),
        variants: vec![
            variant("A", Fields::Unit),
            variant("B", Fields::Unnamed { tys: vec![TypeRef::Path(path1("B"))], span: 0 }),
        ],
    }
}

#[test]
fn wrapper_rewrites_unit_variants() {
    let out = doit(&vec![], &my_enum()).unwrap();
    assert_eq!(out.rewritten.ident, id("MyEnum"));
    assert_eq!(out.rewritten.variants.len(), 2);
    // the unit variant now wraps the synthetic unit type of its own name
    assert_eq!(
        out.rewritten.variants[0].fields,
        Fields::Unnamed { tys: vec![TypeRef::Path(path1("A"))], span: 0 }
    );
    assert_eq!(
        out.rewritten.variants[1].fields,
        Fields::Unnamed { tys: vec![TypeRef::Path(path1("B"))], span: 0 }
    );
}

#[test]
fn wrapper_emits_one_pair_per_variant() {
    let out = doit(&vec![], &my_enum()).unwrap();
    assert_eq!(out.conversions.len(), 2);
    assert_eq!(out.conversions[0].enum_ident, id("MyEnum"));
    assert_eq!(out.conversions[0].variant_ident, id("A"));
    assert_eq!(out.conversions[0].payload, TypeRef::Path(path1("A")));
    assert_eq!(out.conversions[1].variant_ident, id("B"));
    assert_eq!(out.conversions[1].payload, TypeRef::Path(path1("B")));
}

#[test]
fn wrapper_no_impl_suppresses_conversions() {
    let out = doit(&vec![bare("no_impl")], &my_enum()).unwrap();
    assert_eq!(out.rewritten.variants.len(), 2);
    assert_eq!(out.conversions.len(), 0);
}

#[test]
fn wrapper_no_impl_false_keeps_conversions() {
    let arg = Meta::NameValue {
        path: path1("no_impl"),
        value: enum_macros::ast::Lit::Bool { value: false, span: 0 },
        span: 0,
    };
    let out = doit(&vec![arg], &my_enum()).unwrap();
    assert_eq!(out.conversions.len(), 2);
}

#[test]
fn named_fields_are_unsupported() {
    let decl = EnumDecl {
        attrs: vec![],
        vis: Vis::Inherited,
        ident: id("E"),
        variants: vec![variant("C", Fields::Named { fields: vec![], span: 21 })],
    };
    let e = doit(&vec![], &decl).unwrap_err();
    assert_eq!(e, EngineError::NamedFieldsUnsupported { span: 21 });
}

#[test]
fn tuple_variant_needs_exactly_one_field() {
    let empty = variant("B", Fields::Unnamed { tys: vec![], span: 5 });
    let e = wrap_variant(&empty).unwrap_err();
    assert_eq!(e, EngineError::WrongUnnamedCount { span: 5 });

    let two = variant(
        "B",
        Fields::Unnamed { tys: vec![TypeRef::Path(path1("X")), TypeRef::Path(path1("Y"))], span: 6 },
    );
    let e2 = wrap_variant(&two).unwrap_err();
    assert_eq!(e2, EngineError::WrongUnnamedCount { span: 6 });
}

#[test]
fn classification_is_positional() {
    let w = wrap_variant(&variant("A", Fields::Unit)).unwrap();
    assert_eq!(w.id, id("A"));
    assert_eq!(w.ty, TypeRef::Path(path1("A")));
}

#[test]
fn wrapper_union_without_variants() {
    let decl = EnumDecl {
        attrs: vec![],
        vis: Vis::Inherited,
        ident: id("Never"),
        variants: vec![],
    };
    let out = doit(&vec![], &decl).unwrap();
    assert_eq!(out.rewritten.variants.len(), 0);
    assert_eq!(out.conversions.len(), 0);
}
