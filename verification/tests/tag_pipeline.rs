use enum_macros::ast::{EnumDecl, Fields, Ident, Meta, Path, Variant, Vis};
use enum_macros::common::{ConfigKey, EngineError};
use enum_macros::config::TagSpec;
use enum_macros::tagged::doit;

fn id(s: &str) -> Ident {
    Ident { name: s.to_string(), span: 0 }
}

fn path1(s: &str) -> Path {
    Path { segments: vec![id(s)], span: 0 }
}

fn bare(s: &str) -> Meta {
    Meta::Path(path1(s))
}

fn list(s: &str, args: Vec<Meta>) -> Meta {
    Meta::List { path: path1(s), args, span: 0 }
}

fn variant(name: &str, fields: Fields) -> Variant {
    Variant { attrs: vec![], ident: id(name), fields, disc: None }
}

/// `MyEnum { A, B(), C {} }` carrying the given trigger attributes.
fn my_enum(attrs: Vec<Meta>) -> EnumDecl {
    EnumDecl {
        attrs,
        vis: Vis::Public,
        ident: id("MyEnum"),
        variants: vec![
            variant("A", Fields::Unit),
            variant("B", Fields::Unnamed { tys: vec![], span: 0 }),
            variant("C", Fields::Named { fields: vec![], span: 0 }),
        ],
    }
}

#[test]
fn tag_generation_default() {
    // no `tag(...)` argument, but the triggering attribute is present
    let out = doit(&my_enum(vec![list("tagged", vec![])])).unwrap();
    assert_eq!(out.binding.enum_ident, id("MyEnum"));
    assert_eq!(out.binding.tag, TagSpec::Generate(id("MyEnumTag")));
    let tag_enum = out.tag_enum.unwrap();
    assert_eq!(tag_enum.ident, id("MyEnumTag"));
    assert_eq!(tag_enum.vis, Vis::Public);
    assert_eq!(tag_enum.variants.len(), 3);
    assert_eq!(tag_enum.variants[0].ident, id("A"));
    assert_eq!(tag_enum.variants[0].fields, Fields::Unit);
    assert_eq!(tag_enum.variants[1].ident, id("B"));
    assert_eq!(tag_enum.variants[1].fields, Fields::Unit);
    assert_eq!(tag_enum.variants[2].ident, id("C"));
    assert_eq!(tag_enum.variants[2].fields, Fields::Unit);
}

#[test]
fn tag_generate_empty_defaults_too() {
    let attr = list("tagged", vec![list("tag", vec![list("generate", vec![])])]);
    let out = doit(&my_enum(vec![attr])).unwrap();
    assert_eq!(out.binding.tag, TagSpec::Generate(id("MyEnumTag")));
    assert!(out.tag_enum.is_some());
}

#[test]
fn tag_generate_named_enum() {
    let attr = list("tagged", vec![list("tag", vec![list("generate", vec![bare("X")])])]);
    let out = doit(&my_enum(vec![attr])).unwrap();
    assert_eq!(out.binding.tag, TagSpec::Generate(id("X")));
    assert_eq!(out.tag_enum.unwrap().ident, id("X"));
}

#[test]
fn tag_existing_enum_generates_nothing() {
    let attr = list("tagged", vec![list("tag", vec![bare("Tag")])]);
    let out = doit(&my_enum(vec![attr])).unwrap();
    assert_eq!(out.binding.tag, TagSpec::Existing(path1("Tag")));
    assert!(out.tag_enum.is_none());
}

#[test]
fn missing_trigger_attribute_is_fatal() {
    let e = doit(&my_enum(vec![bare("derive")])).unwrap_err();
    assert_eq!(e, EngineError::MissingTaggedAttribute);
}

#[test]
fn trigger_attribute_without_list_is_fatal() {
    let attr = Meta::Path(Path { segments: vec![Ident { name: "tagged".to_string(), span: 17 }], span: 17 });
    let e = doit(&my_enum(vec![attr])).unwrap_err();
    assert_eq!(e, EngineError::BadShape { key: ConfigKey::Tag, span: 17 });
}

#[test]
fn malformed_tag_argument_is_fatal() {
    let attr = list("tagged", vec![Meta::List { path: path1("tag"), args: vec![], span: 23 }]);
    let e = doit(&my_enum(vec![attr])).unwrap_err();
    assert_eq!(e, EngineError::BadShape { key: ConfigKey::Tag, span: 23 });
}
