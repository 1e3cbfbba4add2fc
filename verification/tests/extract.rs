use enum_macros::ast::{EnumDecl, Fields, Ident, Lit, Meta, Path, TypeRef, Variant, Vis};
use enum_macros::common::EngineError;
use enum_macros::extract_variant::doit;

fn id(s: &str) -> Ident {
    Ident { name: s.to_string(), span: 0 }
}

fn path1(s: &str) -> Path {
    Path { segments: vec![id(s)], span: 0 }
}

fn bare(s: &str) -> Meta {
    Meta::Path(path1(s))
}

fn list(s: &str, args: Vec<Meta>) -> Meta {
    Meta::List { path: path1(s), args, span: 0 }
}

fn nv_str(k: &str, v: &str) -> Meta {
    Meta::NameValue {
        path: path1(k),
        value: Lit::Str { value: v.to_string(), span: 0 },
        span: 0,
    }
}

fn variant(name: &str, attrs: Vec<Meta>, fields: Fields) -> Variant {
    Variant { attrs, ident: id(name), fields, disc: None }
}

/// `MyEnum { A, B(), C {} }`, bare of attributes.
fn my_enum() -> EnumDecl {
    EnumDecl {
        attrs: vec![],
        vis: Vis::Inherited,
        ident: id("MyEnum"),
        variants: vec![
            variant("A", vec![], Fields::Unit),
            variant("B", vec![], Fields::Unnamed { tys: vec![], span: 0 }),
            variant("C", vec![], Fields::Named { fields: vec![], span: 0 }),
        ],
    }
}

fn wrapped_ty(name: &str) -> Fields {
    Fields::Unnamed { tys: vec![TypeRef::Path(path1(name))], span: 0 }
}

#[test]
fn curly() {
    let decl = EnumDecl {
        attrs: vec![list("derive", vec![bare("Debug")])],
        vis: Vis::Inherited,
        ident: id("MyEnum"),
        variants: vec![variant("C", vec![bare("something")], Fields::Named { fields: vec![], span: 0 })],
    };
    let s = doit(&vec![], &decl);
    assert!(s.is_ok());
}

#[test]
fn a() {
    let decl = EnumDecl {
        attrs: vec![],
        vis: Vis::Inherited,
        ident: id("MyEnum"),
        variants: vec![
            variant("A", vec![list("attribute", vec![list("derive", vec![bare("Debug")])])], Fields::Unit),
            variant(
                "B",
                vec![list("attribute", vec![list("derive", vec![bare("Debug"), bare("PartialEq"), bare("Eq")])])],
                Fields::Unnamed { tys: vec![], span: 0 },
            ),
            variant(
                "C",
                vec![list("attribute", vec![list("derive", vec![bare("Debug"), bare("Clone"), bare("Copy")])])],
                Fields::Named { fields: vec![], span: 0 },
            ),
        ],
    };
    let out = doit(&vec![], &decl).unwrap();
    // the record generated for `A` is the unit record `A`, deriving Debug
    assert_eq!(out.records[0].ident, id("A"));
    assert_eq!(out.records[0].fields, Fields::Unit);
    assert_eq!(out.records[0].attrs, vec![list("derive", vec![bare("Debug")])]);
}

#[test]
fn b() {
    let decl = EnumDecl {
        attrs: vec![],
        vis: Vis::Inherited,
        ident: id("MyEnum"),
        variants: vec![
            variant("A", vec![list("attribute", vec![list("derive", vec![bare("Debug")])])], Fields::Unit),
            variant(
                "B",
                vec![list("attribute", vec![list("derive", vec![bare("Debug"), bare("PartialEq"), bare("Eq")])])],
                Fields::Unnamed { tys: vec![], span: 0 },
            ),
        ],
    };
    let out = doit(&vec![], &decl).unwrap();
    // the record generated for `B` is the empty tuple record `B`,
    // deriving the equality it is compared by
    assert_eq!(out.records[1].ident, id("B"));
    assert_eq!(out.records[1].fields, Fields::Unnamed { tys: vec![], span: 0 });
    assert_eq!(
        out.records[1].attrs,
        vec![list("derive", vec![bare("Debug"), bare("PartialEq"), bare("Eq")])]
    );
}

#[test]
fn default_extraction() {
    let out = doit(&vec![], &my_enum()).unwrap();

    // the union is rewritten so each variant wraps its record
    assert_eq!(out.rewritten.ident, id("MyEnum"));
    assert_eq!(out.rewritten.variants.len(), 3);
    assert_eq!(out.rewritten.variants[0].ident, id("A"));
    assert_eq!(out.rewritten.variants[0].fields, wrapped_ty("A"));
    assert_eq!(out.rewritten.variants[1].fields, wrapped_ty("B"));
    assert_eq!(out.rewritten.variants[2].fields, wrapped_ty("C"));

    // standalone records keep the original field shapes
    assert_eq!(out.records.len(), 3);
    assert_eq!(out.records[0].ident, id("A"));
    assert_eq!(out.records[0].fields, Fields::Unit);
    assert_eq!(out.records[1].ident, id("B"));
    assert_eq!(out.records[1].fields, Fields::Unnamed { tys: vec![], span: 0 });
    assert_eq!(out.records[2].ident, id("C"));
    assert_eq!(out.records[2].fields, Fields::Named { fields: vec![], span: 0 });

    // three conversion pairs: six conversion functions
    assert_eq!(out.conversions.len(), 3);
    assert_eq!(out.conversions[0].enum_ident, id("MyEnum"));
    assert_eq!(out.conversions[0].variant_ident, id("A"));
    assert_eq!(out.conversions[0].payload, TypeRef::Path(path1("A")));
}

#[test]
fn prefixing() {
    let out = doit(&vec![list("prefix", vec![bare("Prefix")])], &my_enum()).unwrap();
    assert_eq!(out.records[0].ident, id("PrefixA"));
    assert_eq!(out.records[1].ident, id("PrefixB"));
    assert_eq!(out.records[2].ident, id("PrefixC"));
    assert_eq!(out.rewritten.variants[0].fields, wrapped_ty("PrefixA"));
    assert_eq!(out.rewritten.variants[0].ident, id("A"));
    assert_eq!(out.conversions[0].payload, TypeRef::Path(path1("PrefixA")));
    assert_eq!(out.conversions.len(), 3);
}

#[test]
fn suffix_string_literal() {
    let out = doit(
        &vec![Meta::NameValue {
            path: path1("suffix"),
            value: Lit::Str { value: "Suffix".to_string(), span: 0 },
            span: 0,
        }],
        &my_enum(),
    )
    .unwrap();
    assert_eq!(out.records[0].ident, id("ASuffix"));
    assert_eq!(out.rewritten.variants[0].fields, wrapped_ty("ASuffix"));
    assert_eq!(out.conversions[0].payload, TypeRef::Path(path1("ASuffix")));
}

#[test]
fn suppressed_conversions() {
    let out = doit(&vec![bare("no_impl")], &my_enum()).unwrap();
    assert_eq!(out.records.len(), 3);
    assert_eq!(out.rewritten.variants.len(), 3);
    assert_eq!(out.conversions.len(), 0);
}

#[test]
fn keep_style_leaves_variants_alone() {
    let out = doit(&vec![nv_str("style", "keep"), bare("no_impl")], &my_enum()).unwrap();
    assert_eq!(out.rewritten.variants, my_enum().variants);
    // the standalone records are still generated for external use
    assert_eq!(out.records.len(), 3);
    assert_eq!(out.conversions.len(), 0);
}

#[test]
fn derive_forwarding_and_exclusion() {
    let decl = EnumDecl {
        attrs: vec![list("derive", vec![bare("Debug"), bare("Clone")]), bare("non_exhaustive")],
        vis: Vis::Public,
        ident: id("MyEnum"),
        variants: vec![variant("A", vec![], Fields::Unit)],
    };
    let out = doit(&vec![list("derive_exclude", vec![bare("Clone")])], &decl).unwrap();
    // records carry the filtered derive list, the union keeps its own
    assert_eq!(out.records[0].attrs, vec![list("derive", vec![bare("Debug")])]);
    assert_eq!(out.records[0].vis, Vis::Public);
    assert_eq!(out.rewritten.attrs, decl.attrs);
}

fn doc_attr() -> Meta {
    Meta::NameValue {
        path: path1("doc"),
        value: Lit::Str { value: " a record".to_string(), span: 0 },
        span: 0,
    }
}

#[test]
fn doc_attributes_are_forwarded() {
    let decl = EnumDecl {
        attrs: vec![],
        vis: Vis::Inherited,
        ident: id("E"),
        variants: vec![variant("A", vec![doc_attr(), bare("something")], Fields::Unit)],
    };
    let out = doit(&vec![], &decl).unwrap();
    // documentation is kept, the unrelated marker is dropped
    assert_eq!(out.records[0].attrs, vec![doc_attr()]);
}

#[test]
fn malformed_forward_attribute_is_fatal() {
    let decl = EnumDecl {
        attrs: vec![],
        vis: Vis::Inherited,
        ident: id("E"),
        variants: vec![variant(
            "A",
            vec![Meta::NameValue {
                path: path1("attribute"),
                value: Lit::Str { value: "x".to_string(), span: 0 },
                span: 11,
            }],
            Fields::Unit,
        )],
    };
    let e = doit(&vec![], &decl).unwrap_err();
    assert_eq!(e, EngineError::BadForwardAttribute { span: 11 });
}

#[test]
fn malformed_derive_list_is_fatal() {
    let decl = EnumDecl {
        attrs: vec![Meta::List {
            path: path1("derive"),
            args: vec![Meta::Opaque { handle: 0, span: 13 }],
            span: 13,
        }],
        vis: Vis::Inherited,
        ident: id("E"),
        variants: vec![variant("A", vec![], Fields::Unit)],
    };
    let e = doit(&vec![], &decl).unwrap_err();
    assert_eq!(e, EngineError::MalformedDeriveList { span: 13 });
}

#[test]
fn config_error_surfaces_first() {
    let e = doit(&vec![bare("bogus")], &my_enum()).unwrap_err();
    assert_eq!(e, EngineError::UnknownKey { span: 0 });
}

#[test]
fn union_without_variants() {
    let decl = EnumDecl {
        attrs: vec![],
        vis: Vis::Inherited,
        ident: id("Never"),
        variants: vec![],
    };
    let out = doit(&vec![], &decl).unwrap();
    assert_eq!(out.rewritten.variants.len(), 0);
    assert_eq!(out.records.len(), 0);
    assert_eq!(out.conversions.len(), 0);
}
