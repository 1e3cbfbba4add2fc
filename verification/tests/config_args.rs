use enum_macros::ast::{Ident, Lit, Meta, Path};
use enum_macros::common::{ConfigKey, EngineError};
use enum_macros::config::{parse_config, serialize_config, serialize_tag, Style, TagSpec};

fn id(s: &str) -> Ident {
    Ident { name: s.to_string(), span: 0 }
}

fn id_at(s: &str, span: u32) -> Ident {
    Ident { name: s.to_string(), span }
}

fn path1(s: &str) -> Path {
    Path { segments: vec![id(s)], span: 0 }
}

fn bare(s: &str) -> Meta {
    Meta::Path(path1(s))
}

fn list(s: &str, args: Vec<Meta>) -> Meta {
    Meta::List { path: path1(s), args, span: 0 }
}

fn nv_str(k: &str, v: &str) -> Meta {
    Meta::NameValue {
        path: path1(k),
        value: Lit::Str { value: v.to_string(), span: 0 },
        span: 0,
    }
}

fn nv_bool(k: &str, v: bool) -> Meta {
    Meta::NameValue { path: path1(k), value: Lit::Bool { value: v, span: 0 }, span: 0 }
}

#[test]
fn test() {
    for input in [
        vec![],
        vec![bare("no_impl")],
        vec![nv_bool("no_impl", true)],
        vec![nv_bool("no_impl", false)],
    ] {
        let _ = parse_config(&input, false).unwrap();
    }
}

#[test]
fn empty_args_give_defaults() {
    let cfg = parse_config(&vec![], false).unwrap();
    assert_eq!(cfg.prefix, None);
    assert_eq!(cfg.suffix, None);
    assert!(!cfg.suppress_conversions);
    assert_eq!(cfg.style, Style::Wrap);
    assert!(cfg.derive_exclude.is_empty());
    assert_eq!(cfg.tag_spec, None);
}

#[test]
fn prefix_both_forms() {
    let a = parse_config(&vec![list("prefix", vec![bare("Pre")])], false).unwrap();
    assert_eq!(a.prefix, Some("Pre".to_string()));
    let b = parse_config(&vec![nv_str("prefix", "Pre")], false).unwrap();
    assert_eq!(b.prefix, Some("Pre".to_string()));
}

#[test]
fn suffix_both_forms() {
    let a = parse_config(&vec![list("suffix", vec![bare("Post")])], false).unwrap();
    assert_eq!(a.suffix, Some("Post".to_string()));
    let b = parse_config(&vec![nv_str("suffix", "Post")], false).unwrap();
    assert_eq!(b.suffix, Some("Post".to_string()));
}

#[test]
fn bare_prefix_is_rejected() {
    let e = parse_config(&vec![Meta::Path(Path { segments: vec![id_at("prefix", 7)], span: 7 })], false)
        .unwrap_err();
    assert_eq!(e, EngineError::BadShape { key: ConfigKey::Prefix, span: 7 });
}

#[test]
fn prefix_multi_segment_ident_is_rejected() {
    let arg = Meta::List {
        path: path1("prefix"),
        args: vec![Meta::Path(Path { segments: vec![id("a"), id("b")], span: 3 })],
        span: 3,
    };
    let e = parse_config(&vec![arg], false).unwrap_err();
    assert_eq!(e, EngineError::BadShape { key: ConfigKey::Prefix, span: 3 });
}

#[test]
fn no_impl_forms() {
    let a = parse_config(&vec![bare("no_impl")], false).unwrap();
    assert!(a.suppress_conversions);
    let b = parse_config(&vec![nv_bool("no_impl", true)], false).unwrap();
    assert!(b.suppress_conversions);
    let c = parse_config(&vec![nv_bool("no_impl", false)], false).unwrap();
    assert!(!c.suppress_conversions);
}

#[test]
fn no_impl_list_is_rejected() {
    let e = parse_config(&vec![Meta::List { path: path1("no_impl"), args: vec![], span: 9 }], false)
        .unwrap_err();
    assert_eq!(e, EngineError::BadShape { key: ConfigKey::NoImpl, span: 9 });
}

#[test]
fn no_impl_non_bool_is_rejected() {
    let e = parse_config(&vec![nv_str("no_impl", "yes")], false).unwrap_err();
    assert_eq!(e, EngineError::BadShape { key: ConfigKey::NoImpl, span: 0 });
}

#[test]
fn style_values() {
    let a = parse_config(&vec![nv_str("style", "wrap")], false).unwrap();
    assert_eq!(a.style, Style::Wrap);
    let b = parse_config(&vec![nv_str("style", "keep")], false).unwrap();
    assert_eq!(b.style, Style::Keep);
}

#[test]
fn style_other_value_is_rejected() {
    let arg = Meta::NameValue {
        path: path1("style"),
        value: Lit::Str { value: "folded".to_string(), span: 4 },
        span: 2,
    };
    let e = parse_config(&vec![arg], false).unwrap_err();
    assert_eq!(e, EngineError::BadShape { key: ConfigKey::Style, span: 4 });
}

#[test]
fn style_non_string_is_rejected() {
    let e = parse_config(&vec![nv_bool("style", true)], false).unwrap_err();
    assert_eq!(e, EngineError::BadShape { key: ConfigKey::Style, span: 0 });
}

#[test]
fn derive_exclude_collects_paths() {
    let arg = list(
        "derive_exclude",
        vec![bare("Debug"), Meta::Path(Path { segments: vec![id("serde"), id("Serialize")], span: 0 })],
    );
    let cfg = parse_config(&vec![arg], false).unwrap();
    assert_eq!(cfg.derive_exclude.len(), 2);
    assert_eq!(cfg.derive_exclude[0], path1("Debug"));
    assert_eq!(cfg.derive_exclude[1].segments.len(), 2);
}

#[test]
fn derive_exclude_non_list_is_rejected() {
    let e = parse_config(&vec![nv_str("derive_exclude", "Debug")], false).unwrap_err();
    assert_eq!(e, EngineError::BadShape { key: ConfigKey::DeriveExclude, span: 0 });
}

#[test]
fn unknown_key_is_rejected() {
    let e = parse_config(&vec![Meta::Path(Path { segments: vec![id_at("colour", 5)], span: 5 })], false)
        .unwrap_err();
    assert_eq!(e, EngineError::UnknownKey { span: 5 });
}

#[test]
fn key_must_be_bare_ident() {
    let arg = Meta::Path(Path { segments: vec![id("a"), id("b")], span: 6 });
    let e = parse_config(&vec![arg], false).unwrap_err();
    assert_eq!(e, EngineError::NotBareIdent { span: 6 });
}

#[test]
fn duplicate_prefix_fails_in_any_order() {
    let first = Meta::List { path: Path { segments: vec![id_at("prefix", 1)], span: 1 }, args: vec![bare("A")], span: 1 };
    let second = Meta::List { path: Path { segments: vec![id_at("prefix", 2)], span: 2 }, args: vec![bare("B")], span: 2 };
    let e = parse_config(&vec![first, second], false).unwrap_err();
    assert_eq!(e, EngineError::DuplicateKey { key: ConfigKey::Prefix, first_span: 1, second_span: 2 });
}

#[test]
fn duplicate_no_impl_fails_even_with_different_shapes() {
    let first = Meta::Path(Path { segments: vec![id_at("no_impl", 1)], span: 1 });
    let second = Meta::NameValue {
        path: Path { segments: vec![id_at("no_impl", 2)], span: 2 },
        value: Lit::Bool { value: false, span: 2 },
        span: 2,
    };
    let e = parse_config(&vec![first, second], false).unwrap_err();
    assert_eq!(e, EngineError::DuplicateKey { key: ConfigKey::NoImpl, first_span: 1, second_span: 2 });
}

#[test]
fn duplicate_tag_fails_in_tag_mode() {
    let a = Meta::List { path: Path { segments: vec![id_at("tag", 1)], span: 1 }, args: vec![bare("T")], span: 1 };
    let b = Meta::List { path: Path { segments: vec![id_at("tag", 2)], span: 2 }, args: vec![bare("U")], span: 2 };
    let e = parse_config(&vec![a, b], true).unwrap_err();
    assert_eq!(e, EngineError::DuplicateKey { key: ConfigKey::Tag, first_span: 1, second_span: 2 });
}

#[test]
fn tag_key_is_only_for_the_tag_pipeline() {
    let arg = list("tag", vec![bare("T")]);
    let e = parse_config(&vec![arg], false).unwrap_err();
    assert_eq!(e, EngineError::UnknownKey { span: 0 });
    let other = Meta::List { path: Path { segments: vec![id_at("prefix", 3)], span: 3 }, args: vec![bare("A")], span: 3 };
    let e2 = parse_config(&vec![other], true).unwrap_err();
    assert_eq!(e2, EngineError::UnknownKey { span: 3 });
}

#[test]
fn tag_existing_path() {
    let arg = list("tag", vec![Meta::Path(Path { segments: vec![id("m"), id("T")], span: 0 })]);
    let cfg = parse_config(&vec![arg], true).unwrap();
    match cfg.tag_spec {
        Some(TagSpec::Existing(p)) => assert_eq!(p.segments.len(), 2),
        other => panic!("unexpected tag spec: {:?}", other),
    }
}

#[test]
fn tag_generate_empty_means_absent() {
    let arg = list("tag", vec![list("generate", vec![])]);
    let cfg = parse_config(&vec![arg], true).unwrap();
    assert_eq!(cfg.tag_spec, None);
}

#[test]
fn tag_generate_named() {
    let arg = list("tag", vec![list("generate", vec![bare("X")])]);
    let cfg = parse_config(&vec![arg], true).unwrap();
    assert_eq!(cfg.tag_spec, Some(TagSpec::Generate(id("X"))));
}

#[test]
fn tag_other_shapes_are_rejected() {
    let bare_tag = Meta::Path(Path { segments: vec![id_at("tag", 8)], span: 8 });
    let e = parse_config(&vec![bare_tag], true).unwrap_err();
    assert_eq!(e, EngineError::BadShape { key: ConfigKey::Tag, span: 8 });

    let two = Meta::List { path: path1("tag"), args: vec![bare("A"), bare("B")], span: 4 };
    let e2 = parse_config(&vec![two], true).unwrap_err();
    assert_eq!(e2, EngineError::BadShape { key: ConfigKey::Tag, span: 4 });

    let not_generate = list("tag", vec![Meta::List { path: Path { segments: vec![id_at("make", 9)], span: 9 }, args: vec![], span: 9 }]);
    let e3 = parse_config(&vec![not_generate], true).unwrap_err();
    assert_eq!(e3, EngineError::BadShape { key: ConfigKey::Tag, span: 9 });
}

#[test]
fn reparse_of_serialization_is_identity() {
    let args = vec![
        list("prefix", vec![bare("Pre")]),
        nv_str("suffix", "Post"),
        bare("no_impl"),
        nv_str("style", "keep"),
        list("derive_exclude", vec![bare("Clone")]),
    ];
    let cfg = parse_config(&args, false).unwrap();
    let canonical = serialize_config(&cfg);
    let cfg2 = parse_config(&canonical, false).unwrap();
    assert_eq!(cfg, cfg2);
}

#[test]
fn reparse_of_default_serialization_is_identity() {
    let cfg = parse_config(&vec![], false).unwrap();
    let canonical = serialize_config(&cfg);
    assert!(canonical.is_empty());
    let cfg2 = parse_config(&canonical, false).unwrap();
    assert_eq!(cfg, cfg2);
}

#[test]
fn reparse_of_tag_serialization_is_identity() {
    let arg = list("tag", vec![list("generate", vec![bare("X")])]);
    let cfg = parse_config(&vec![arg], true).unwrap();
    let canonical = serialize_tag(cfg.tag_spec.as_ref().unwrap());
    let cfg2 = parse_config(&canonical, true).unwrap();
    assert_eq!(cfg.tag_spec, cfg2.tag_spec);
}

#[test]
fn map_ident_is_deterministic() {
    let a = enum_macros::common::map_ident(&"Pre".to_string(), &"Post".to_string(), &id("Name"));
    let b = enum_macros::common::map_ident(&"Pre".to_string(), &"Post".to_string(), &id("Name"));
    assert_eq!(a, b);
    assert_eq!(a.name, "PreNamePost");
}

#[test]
fn duplicate_check_precedes_shape_check() {
    // the second occurrence is itself ill-shaped, yet the duplicate is
    // what gets reported
    let first = Meta::List { path: Path { segments: vec![id_at("prefix", 1)], span: 1 }, args: vec![bare("A")], span: 1 };
    let second = Meta::Path(Path { segments: vec![id_at("prefix", 2)], span: 2 });
    let e = parse_config(&vec![first, second], false).unwrap_err();
    assert_eq!(e, EngineError::DuplicateKey { key: ConfigKey::Prefix, first_span: 1, second_span: 2 });
}

#[test]
fn earlier_malformed_argument_surfaces_first() {
    // left to right: a structurally invalid first occurrence is the
    // diagnostic, not the later duplicate
    let first = Meta::Path(Path { segments: vec![id_at("prefix", 1)], span: 1 });
    let second = Meta::List { path: Path { segments: vec![id_at("prefix", 2)], span: 2 }, args: vec![bare("A")], span: 2 };
    let e = parse_config(&vec![first, second], false).unwrap_err();
    assert_eq!(e, EngineError::BadShape { key: ConfigKey::Prefix, span: 1 });
}
