//! The configuration mini-language: a comma-separated argument list,
//! each argument a bare key, `key = literal` or `key(nested arguments)`,
//! folded left to right into a validated [`Configuration`].
//!
//! The fold fails fast on the first structurally invalid argument; each
//! key may appear at most once, and a second occurrence is a duplicate
//! error referencing both occurrences.

use vstd::prelude::*;

use crate::ast::{
    clone_path, lemma_view_meta_seq, view_meta, view_meta_seq, Ident, IdentView, Lit, LitView,
    Meta, MetaView, Path, PathView,
};
use crate::common::{
    ident, key_of, spec_ident_of, spec_key_of, spec_meta_span, ConfigKey, EngineError,
};

verus! {

/// How the rewritten union's variants relate to the extracted records:
/// `Wrap` makes each variant a one-field tuple holding the record,
/// `Keep` leaves each variant exactly as declared.
#[derive(Debug, PartialEq, Eq, Clone, Copy)]
pub enum Style {
    Wrap,
    Keep,
}

/// The tag specification: synthesize a new tag enum under the given
/// name, or bind to an already-declared enumeration.
#[derive(Debug, PartialEq, Eq)]
pub enum TagSpec {
    Generate(Ident),
    Existing(Path),
}

/// Mathematical value of a `TagSpec`.
#[verifier::ext_equal]
pub enum TagSpecView {
    Generate(IdentView),
    Existing(PathView),
}

impl View for TagSpec {
    type V = TagSpecView;

    open spec fn view(&self) -> TagSpecView {
        match self {
            TagSpec::Generate(id) => TagSpecView::Generate(id@),
            TagSpec::Existing(p) => TagSpecView::Existing(p@),
        }
    }
}

/// The validated result of parsing the argument list.  Built once per
/// invocation and immutable thereafter.
#[derive(Debug, PartialEq, Eq)]
pub struct Configuration {
    pub prefix: Option<String>,
    pub suffix: Option<String>,
    pub suppress_conversions: bool,
    pub style: Style,
    pub derive_exclude: Vec<Path>,
    pub tag_spec: Option<TagSpec>,
}

/// Mathematical value of a `Configuration`.
#[verifier::ext_equal]
pub struct ConfigurationView {
    pub prefix: Option<Seq<char>>,
    pub suffix: Option<Seq<char>>,
    pub suppress_conversions: bool,
    pub style: Style,
    pub derive_exclude: Seq<PathView>,
    pub tag_spec: Option<TagSpecView>,
}

impl View for Configuration {
    type V = ConfigurationView;

    open spec fn view(&self) -> ConfigurationView {
        ConfigurationView {
            prefix: match self.prefix {
                Option::Some(s) => Option::Some(s@),
                Option::None => Option::None,
            },
            suffix: match self.suffix {
                Option::Some(s) => Option::Some(s@),
                Option::None => Option::None,
            },
            suppress_conversions: self.suppress_conversions,
            style: self.style,
            derive_exclude: Seq::new(
                self.derive_exclude@.len(),
                |i: int| self.derive_exclude@[i]@,
            ),
            tag_spec: match self.tag_spec {
                Option::Some(t) => Option::Some(t@),
                Option::None => Option::None,
            },
        }
    }
}

/// The configuration every argument list starts from: all defaults.
pub open spec fn spec_default_config() -> ConfigurationView {
    ConfigurationView {
        prefix: Option::None,
        suffix: Option::None,
        suppress_conversions: false,
        style: Style::Wrap,
        derive_exclude: Seq::empty(),
        tag_spec: Option::None,
    }
}

/// A fresh default configuration.
pub fn default_config() -> (r: Configuration)
    ensures
        r@ == spec_default_config(),
{
    let r = Configuration {
        prefix: Option::None,
        suffix: Option::None,
        suppress_conversions: false,
        style: Style::Wrap,
        derive_exclude: Vec::new(),
        tag_spec: Option::None,
    };
    assert(r@ =~= spec_default_config());
    r
}

/// For each key, the span of its first occurrence, once seen.
#[derive(Debug, PartialEq, Eq, Clone, Copy)]
pub struct SeenKeys {
    pub prefix: Option<u32>,
    pub suffix: Option<u32>,
    pub no_impl: Option<u32>,
    pub style: Option<u32>,
    pub derive_exclude: Option<u32>,
    pub tag: Option<u32>,
}

/// No key seen yet.
pub open spec fn spec_no_keys_seen() -> SeenKeys {
    SeenKeys {
        prefix: Option::None,
        suffix: Option::None,
        no_impl: Option::None,
        style: Option::None,
        derive_exclude: Option::None,
        tag: Option::None,
    }
}

/// The recorded first occurrence of a key.
pub open spec fn spec_seen_get(seen: SeenKeys, key: ConfigKey) -> Option<u32> {
    match key {
        ConfigKey::Prefix => seen.prefix,
        ConfigKey::Suffix => seen.suffix,
        ConfigKey::NoImpl => seen.no_impl,
        ConfigKey::Style => seen.style,
        ConfigKey::DeriveExclude => seen.derive_exclude,
        ConfigKey::Tag => seen.tag,
    }
}

/// Records a key's first occurrence.
pub open spec fn spec_seen_set(seen: SeenKeys, key: ConfigKey, span: u32) -> SeenKeys {
    match key {
        ConfigKey::Prefix => SeenKeys { prefix: Option::Some(span), ..seen },
        ConfigKey::Suffix => SeenKeys { suffix: Option::Some(span), ..seen },
        ConfigKey::NoImpl => SeenKeys { no_impl: Option::Some(span), ..seen },
        ConfigKey::Style => SeenKeys { style: Option::Some(span), ..seen },
        ConfigKey::DeriveExclude => SeenKeys { derive_exclude: Option::Some(span), ..seen },
        ConfigKey::Tag => SeenKeys { tag: Option::Some(span), ..seen },
    }
}

/// Reads the recorded first occurrence of a key.
pub fn seen_get(seen: &SeenKeys, key: ConfigKey) -> (r: Option<u32>)
    ensures
        r == spec_seen_get(*seen, key),
{
    match key {
        ConfigKey::Prefix => seen.prefix,
        ConfigKey::Suffix => seen.suffix,
        ConfigKey::NoImpl => seen.no_impl,
        ConfigKey::Style => seen.style,
        ConfigKey::DeriveExclude => seen.derive_exclude,
        ConfigKey::Tag => seen.tag,
    }
}

/// Records a key's first occurrence.
pub fn seen_set(seen: SeenKeys, key: ConfigKey, span: u32) -> (r: SeenKeys)
    ensures
        r == spec_seen_set(seen, key, span),
{
    match key {
        ConfigKey::Prefix => SeenKeys { prefix: Option::Some(span), ..seen },
        ConfigKey::Suffix => SeenKeys { suffix: Option::Some(span), ..seen },
        ConfigKey::NoImpl => SeenKeys { no_impl: Option::Some(span), ..seen },
        ConfigKey::Style => SeenKeys { style: Option::Some(span), ..seen },
        ConfigKey::DeriveExclude => SeenKeys { derive_exclude: Option::Some(span), ..seen },
        ConfigKey::Tag => SeenKeys { tag: Option::Some(span), ..seen },
    }
}

/// In the tag-generation pipeline only the `tag` key is recognized; in
/// the other pipelines every key but `tag` is.
pub open spec fn spec_key_allowed(key: ConfigKey, tag_mode: bool) -> bool {
    if tag_mode {
        key is Tag
    } else {
        !(key is Tag)
    }
}

/// Grammar of `prefix` and `suffix`: `key(Ident)` or `key = "string"`.
pub open spec fn spec_ident_or_str_value(m: MetaView, key: ConfigKey) -> Result<
    Seq<char>,
    EngineError,
> {
    match m {
        MetaView::List { path: _, args, span } => {
            if args.len() == 1 {
                match args[0] {
                    MetaView::Path(p) => {
                        if p.segments.len() == 1 {
                            Result::Ok(p.segments[0].name)
                        } else {
                            Result::Err(EngineError::BadShape { key, span })
                        }
                    },
                    _ => Result::Err(EngineError::BadShape { key, span }),
                }
            } else {
                Result::Err(EngineError::BadShape { key, span })
            }
        },
        MetaView::NameValue { path: _, value, span } => {
            match value {
                LitView::Str { value: s, span: _ } => Result::Ok(s),
                _ => Result::Err(EngineError::BadShape { key, span }),
            }
        },
        _ => Result::Err(EngineError::BadShape { key, span: spec_meta_span(m) }),
    }
}

/// Reads a `prefix`/`suffix` value.
pub fn ident_or_str_value(arg: &Meta, key: ConfigKey) -> (r: Result<String, EngineError>)
    ensures
        match r {
            Result::Ok(s) => spec_ident_or_str_value(arg@, key) == Result::<
                Seq<char>,
                EngineError,
            >::Ok(s@),
            Result::Err(e) => spec_ident_or_str_value(arg@, key) == Result::<
                Seq<char>,
                EngineError,
            >::Err(e),
        },
{
    match arg {
        Meta::List { path: _, args, span } => {
            proof {
                lemma_view_meta_seq(args@);
            }
            if args.len() == 1 {
                match &args[0] {
                    Meta::Path(p) => {
                        if p.segments.len() == 1 {
                            Result::Ok(p.segments[0].name.clone())
                        } else {
                            Result::Err(EngineError::BadShape { key, span: *span })
                        }
                    },
                    _ => Result::Err(EngineError::BadShape { key, span: *span }),
                }
            } else {
                Result::Err(EngineError::BadShape { key, span: *span })
            }
        },
        Meta::NameValue { path: _, value, span } => {
            match value {
                Lit::Str { value: s, span: _ } => Result::Ok(s.clone()),
                _ => Result::Err(EngineError::BadShape { key, span: *span }),
            }
        },
        Meta::Path(p) => Result::Err(EngineError::BadShape { key, span: p.span }),
        Meta::Opaque { handle: _, span } => Result::Err(
            EngineError::BadShape { key, span: *span },
        ),
    }
}

/// Grammar of `no_impl`: the bare key means true; `no_impl = true` and
/// `no_impl = false` say so themselves; a list form is rejected.
pub open spec fn spec_no_impl_value(m: MetaView) -> Result<bool, EngineError> {
    match m {
        MetaView::Path(_) => Result::Ok(true),
        MetaView::NameValue { path: _, value, span } => {
            match value {
                LitView::Bool { value: b, span: _ } => Result::Ok(b),
                _ => Result::Err(EngineError::BadShape { key: ConfigKey::NoImpl, span }),
            }
        },
        _ => Result::Err(
            EngineError::BadShape { key: ConfigKey::NoImpl, span: spec_meta_span(m) },
        ),
    }
}

/// Reads a `no_impl` value.
pub fn no_impl_value(arg: &Meta) -> (r: Result<bool, EngineError>)
    ensures
        r == spec_no_impl_value(arg@),
{
    match arg {
        Meta::Path(_) => Result::Ok(true),
        Meta::NameValue { path: _, value, span } => {
            match value {
                Lit::Bool { value: b, span: _ } => Result::Ok(*b),
                _ => Result::Err(EngineError::BadShape { key: ConfigKey::NoImpl, span: *span }),
            }
        },
        Meta::List { path: _, args: _, span } => Result::Err(
            EngineError::BadShape { key: ConfigKey::NoImpl, span: *span },
        ),
        Meta::Opaque { handle: _, span } => Result::Err(
            EngineError::BadShape { key: ConfigKey::NoImpl, span: *span },
        ),
    }
}

/// Grammar of `style`: exactly `style = "wrap"` or `style = "keep"`.
pub open spec fn spec_style_value(m: MetaView) -> Result<Style, EngineError> {
    match m {
        MetaView::NameValue { path: _, value, span } => {
            match value {
                LitView::Str { value: s, span: lit_span } => {
                    if s == "wrap"@ {
                        Result::Ok(Style::Wrap)
                    } else if s == "keep"@ {
                        Result::Ok(Style::Keep)
                    } else {
                        Result::Err(
                            EngineError::BadShape { key: ConfigKey::Style, span: lit_span },
                        )
                    }
                },
                _ => Result::Err(EngineError::BadShape { key: ConfigKey::Style, span }),
            }
        },
        _ => Result::Err(
            EngineError::BadShape { key: ConfigKey::Style, span: spec_meta_span(m) },
        ),
    }
}

/// Reads a `style` value.
pub fn style_value(arg: &Meta) -> (r: Result<Style, EngineError>)
    ensures
        r == spec_style_value(arg@),
{
    match arg {
        Meta::NameValue { path: _, value, span } => {
            match value {
                Lit::Str { value: s, span: lit_span } => {
                    if crate::common::str_is(s, "wrap") {
                        Result::Ok(Style::Wrap)
                    } else if crate::common::str_is(s, "keep") {
                        Result::Ok(Style::Keep)
                    } else {
                        Result::Err(
                            EngineError::BadShape { key: ConfigKey::Style, span: *lit_span },
                        )
                    }
                },
                _ => Result::Err(EngineError::BadShape { key: ConfigKey::Style, span: *span }),
            }
        },
        Meta::Path(p) => Result::Err(EngineError::BadShape { key: ConfigKey::Style, span: p.span }),
        Meta::List { path: _, args: _, span } => Result::Err(
            EngineError::BadShape { key: ConfigKey::Style, span: *span },
        ),
        Meta::Opaque { handle: _, span } => Result::Err(
            EngineError::BadShape { key: ConfigKey::Style, span: *span },
        ),
    }
}

/// The paths of a list whose arguments are all bare paths, if they are.
pub open spec fn spec_paths_of(args: Seq<MetaView>) -> Option<Seq<PathView>>
    decreases args.len(),
{
    if args.len() == 0 {
        Option::Some(Seq::empty())
    } else {
        match args[0] {
            MetaView::Path(p) => {
                match spec_paths_of(args.drop_first()) {
                    Option::Some(rest) => Option::Some(seq![p] + rest),
                    Option::None => Option::None,
                }
            },
            _ => Option::None,
        }
    }
}

/// Grammar of `derive_exclude`: exactly `derive_exclude(Path0, Path1, ...)`.
pub open spec fn spec_derive_exclude_value(m: MetaView) -> Result<Seq<PathView>, EngineError> {
    match m {
        MetaView::List { path: _, args, span } => {
            match spec_paths_of(args) {
                Option::Some(paths) => Result::Ok(paths),
                Option::None => Result::Err(
                    EngineError::BadShape { key: ConfigKey::DeriveExclude, span },
                ),
            }
        },
        _ => Result::Err(
            EngineError::BadShape { key: ConfigKey::DeriveExclude, span: spec_meta_span(m) },
        ),
    }
}

/// Reads a `derive_exclude` value.
#[verifier::loop_isolation(false)]
pub fn derive_exclude_value(arg: &Meta) -> (r: Result<Vec<Path>, EngineError>)
    ensures
        match r {
            Result::Ok(paths) => spec_derive_exclude_value(arg@) == Result::<
                Seq<PathView>,
                EngineError,
            >::Ok(Seq::new(paths@.len(), |i: int| paths@[i]@)),
            Result::Err(e) => spec_derive_exclude_value(arg@) == Result::<
                Seq<PathView>,
                EngineError,
            >::Err(e),
        },
{
    match arg {
        Meta::List { path: _, args, span } => {
            let mut out: Vec<Path> = Vec::new();
            let mut k: usize = 0;
            proof {
                lemma_view_meta_seq(args@);
            }
            while k < args.len()
                invariant
                    k <= args.len(),
                    out@.len() == k,
                    forall|j: int| 0 <= j < args@.len() ==> view_meta_seq(args@)[j] == view_meta(
                        args@[j],
                    ),
                    view_meta_seq(args@).len() == args@.len(),
                    forall|j: int| 0 <= j < k ==> #[trigger] args@[j] matches Meta::Path(_),
                    forall|j: int|
                        0 <= j < k ==> (#[trigger] view_meta(args@[j]) matches MetaView::Path(p)
                            && out@[j]@ == p),
                decreases args.len() - k,
            {
                match &args[k] {
                    Meta::Path(p) => {
                        out.push(clone_path(p));
                    },
                    _ => {
                        proof {
                            lemma_paths_of_bad(view_meta_seq(args@), k as int);
                        }
                        return Result::Err(
                            EngineError::BadShape { key: ConfigKey::DeriveExclude, span: *span },
                        );
                    },
                }
                k += 1;
            }
            proof {
                let pv = Seq::new(out@.len(), |i: int| out@[i]@);
                assert forall|j: int| 0 <= j < view_meta_seq(args@).len() implies (
                #[trigger] view_meta_seq(args@)[j] matches MetaView::Path(p) && pv[j] == p) by {
                    assert(view_meta_seq(args@)[j] == view_meta(args@[j]));
                    assert(view_meta(args@[j]) matches MetaView::Path(q) && out@[j]@ == q);
                }
                lemma_paths_of_all(view_meta_seq(args@), pv);
                assert(Seq::new(out@.len(), |i: int| out@[i]@) =~= pv);
            }
            Result::Ok(out)
        },
        Meta::Path(p) => Result::Err(
            EngineError::BadShape { key: ConfigKey::DeriveExclude, span: p.span },
        ),
        Meta::NameValue { path: _, value: _, span } => Result::Err(
            EngineError::BadShape { key: ConfigKey::DeriveExclude, span: *span },
        ),
        Meta::Opaque { handle: _, span } => Result::Err(
            EngineError::BadShape { key: ConfigKey::DeriveExclude, span: *span },
        ),
    }
}

/// A non-path argument anywhere in the list makes `spec_paths_of` fail.
pub proof fn lemma_paths_of_bad(args: Seq<MetaView>, k: int)
    requires
        0 <= k < args.len(),
        !(args[k] matches MetaView::Path(_)),
    ensures
        spec_paths_of(args) is None,
    decreases args.len(),
{
    if k > 0 {
        match args[0] {
            MetaView::Path(_) => {
                lemma_paths_of_bad(args.drop_first(), k - 1);
            },
            _ => {},
        }
    }
}

/// Grammar of `tag`: exactly `tag(PathTo::ExistingEnum)`, `tag(generate())`
/// or `tag(generate(NewEnumName))`; `tag(generate())` leaves the
/// specification absent, to be defaulted from the union's own name.
pub open spec fn spec_tag_value(m: MetaView) -> Result<Option<TagSpecView>, EngineError> {
    match m {
        MetaView::List { path: _, args, span } => {
            if args.len() != 1 {
                Result::Err(EngineError::BadShape { key: ConfigKey::Tag, span })
            } else {
                match args[0] {
                    MetaView::Path(p) => Result::Ok(
                        Option::Some(TagSpecView::Existing(p)),
                    ),
                    MetaView::List { path: p2, args: a2, span: s2 } => {
                        if p2.segments.len() == 1 && p2.segments[0].name == "generate"@ {
                            if a2.len() == 0 {
                                Result::Ok(Option::None)
                            } else if a2.len() == 1 {
                                match a2[0] {
                                    MetaView::Path(p3) => {
                                        if p3.segments.len() == 1 {
                                            Result::Ok(
                                                Option::Some(
                                                    TagSpecView::Generate(p3.segments[0]),
                                                ),
                                            )
                                        } else {
                                            Result::Err(
                                                EngineError::NotBareIdent { span: p3.span },
                                            )
                                        }
                                    },
                                    _ => Result::Err(
                                        EngineError::BadShape { key: ConfigKey::Tag, span: s2 },
                                    ),
                                }
                            } else {
                                Result::Err(
                                    EngineError::BadShape { key: ConfigKey::Tag, span: s2 },
                                )
                            }
                        } else {
                            Result::Err(
                                EngineError::BadShape { key: ConfigKey::Tag, span: p2.span },
                            )
                        }
                    },
                    _ => Result::Err(
                        EngineError::BadShape {
                            key: ConfigKey::Tag,
                            span: spec_meta_span(args[0]),
                        },
                    ),
                }
            }
        },
        _ => Result::Err(
            EngineError::BadShape { key: ConfigKey::Tag, span: spec_meta_span(m) },
        ),
    }
}

/// Reads a `tag` value.
pub fn tag_value(arg: &Meta) -> (r: Result<Option<TagSpec>, EngineError>)
    ensures
        match r {
            Result::Ok(t) => spec_tag_value(arg@) == Result::<
                Option<TagSpecView>,
                EngineError,
            >::Ok(
                match t {
                    Option::Some(ts) => Option::Some(ts@),
                    Option::None => Option::None,
                },
            ),
            Result::Err(e) => spec_tag_value(arg@) == Result::<
                Option<TagSpecView>,
                EngineError,
            >::Err(e),
        },
{
    match arg {
        Meta::List { path: _, args, span } => {
            proof {
                lemma_view_meta_seq(args@);
            }
            if args.len() != 1 {
                return Result::Err(EngineError::BadShape { key: ConfigKey::Tag, span: *span });
            }
            match &args[0] {
                Meta::Path(p) => Result::Ok(Option::Some(TagSpec::Existing(clone_path(p)))),
                Meta::List { path: p2, args: a2, span: s2 } => {
                    proof {
                        lemma_view_meta_seq(a2@);
                    }
                    let generate_key = p2.segments.len() == 1 && crate::common::str_is(
                        &p2.segments[0].name,
                        "generate",
                    );
                    if generate_key {
                        if a2.len() == 0 {
                            Result::Ok(Option::None)
                        } else if a2.len() == 1 {
                            match &a2[0] {
                                Meta::Path(p3) => {
                                    if p3.segments.len() == 1 {
                                        Result::Ok(
                                            Option::Some(
                                                TagSpec::Generate(
                                                    crate::ast::clone_ident(&p3.segments[0]),
                                                ),
                                            ),
                                        )
                                    } else {
                                        Result::Err(EngineError::NotBareIdent { span: p3.span })
                                    }
                                },
                                _ => Result::Err(
                                    EngineError::BadShape { key: ConfigKey::Tag, span: *s2 },
                                ),
                            }
                        } else {
                            Result::Err(
                                EngineError::BadShape { key: ConfigKey::Tag, span: *s2 },
                            )
                        }
                    } else {
                        Result::Err(
                            EngineError::BadShape { key: ConfigKey::Tag, span: p2.span },
                        )
                    }
                },
                Meta::NameValue { path: _, value: _, span: s } => Result::Err(
                    EngineError::BadShape { key: ConfigKey::Tag, span: *s },
                ),
                Meta::Opaque { handle: _, span: s } => Result::Err(
                    EngineError::BadShape { key: ConfigKey::Tag, span: *s },
                ),
            }
        },
        Meta::Path(p) => Result::Err(EngineError::BadShape { key: ConfigKey::Tag, span: p.span }),
        Meta::NameValue { path: _, value: _, span } => Result::Err(
            EngineError::BadShape { key: ConfigKey::Tag, span: *span },
        ),
        Meta::Opaque { handle: _, span } => Result::Err(
            EngineError::BadShape { key: ConfigKey::Tag, span: *span },
        ),
    }
}

/// The parser's fold state: the configuration so far, and which keys
/// were already supplied.
#[verifier::ext_equal]
pub struct ParseStateView {
    pub cfg: ConfigurationView,
    pub seen: SeenKeys,
}

/// The state every parse starts from.
pub open spec fn spec_init_state() -> ParseStateView {
    ParseStateView { cfg: spec_default_config(), seen: spec_no_keys_seen() }
}

/// One step of the fold: key extraction, recognition, the
/// duplicate check, then the key's own grammar.
#[verifier::opaque]
pub open spec fn spec_apply_arg(st: ParseStateView, m: MetaView, tag_mode: bool) -> Result<
    ParseStateView,
    EngineError,
> {
    match spec_ident_of(m) {
        Result::Err(e) => Result::Err(e),
        Result::Ok(id) => match spec_key_of(id.name) {
            Option::None => Result::Err(EngineError::UnknownKey { span: id.span }),
            Option::Some(key) => {
                if !spec_key_allowed(key, tag_mode) {
                    Result::Err(EngineError::UnknownKey { span: id.span })
                } else {
                    match spec_seen_get(st.seen, key) {
                        Option::Some(first) => Result::Err(
                            EngineError::DuplicateKey {
                                key,
                                first_span: first,
                                second_span: id.span,
                            },
                        ),
                        Option::None => {
                            let seen = spec_seen_set(st.seen, key, id.span);
                            match key {
                                ConfigKey::Prefix => match spec_ident_or_str_value(m, key) {
                                    Result::Ok(v) => Result::Ok(
                                        ParseStateView {
                                            cfg: ConfigurationView {
                                                prefix: Option::Some(v),
                                                ..st.cfg
                                            },
                                            seen,
                                        },
                                    ),
                                    Result::Err(e) => Result::Err(e),
                                },
                                ConfigKey::Suffix => match spec_ident_or_str_value(m, key) {
                                    Result::Ok(v) => Result::Ok(
                                        ParseStateView {
                                            cfg: ConfigurationView {
                                                suffix: Option::Some(v),
                                                ..st.cfg
                                            },
                                            seen,
                                        },
                                    ),
                                    Result::Err(e) => Result::Err(e),
                                },
                                ConfigKey::NoImpl => match spec_no_impl_value(m) {
                                    Result::Ok(b) => Result::Ok(
                                        ParseStateView {
                                            cfg: ConfigurationView {
                                                suppress_conversions: b,
                                                ..st.cfg
                                            },
                                            seen,
                                        },
                                    ),
                                    Result::Err(e) => Result::Err(e),
                                },
                                ConfigKey::Style => match spec_style_value(m) {
                                    Result::Ok(s) => Result::Ok(
                                        ParseStateView {
                                            cfg: ConfigurationView { style: s, ..st.cfg },
                                            seen,
                                        },
                                    ),
                                    Result::Err(e) => Result::Err(e),
                                },
                                ConfigKey::DeriveExclude => match spec_derive_exclude_value(m) {
                                    Result::Ok(paths) => Result::Ok(
                                        ParseStateView {
                                            cfg: ConfigurationView {
                                                derive_exclude: st.cfg.derive_exclude + paths,
                                                ..st.cfg
                                            },
                                            seen,
                                        },
                                    ),
                                    Result::Err(e) => Result::Err(e),
                                },
                                ConfigKey::Tag => match spec_tag_value(m) {
                                    Result::Ok(t) => Result::Ok(
                                        ParseStateView {
                                            cfg: ConfigurationView { tag_spec: t, ..st.cfg },
                                            seen,
                                        },
                                    ),
                                    Result::Err(e) => Result::Err(e),
                                },
                            }
                        },
                    }
                }
            },
        },
    }
}

/// The whole fold, left to right, failing fast.
pub open spec fn spec_parse_args(
    args: Seq<MetaView>,
    st: ParseStateView,
    tag_mode: bool,
) -> Result<ParseStateView, EngineError>
    decreases args.len(),
{
    if args.len() == 0 {
        Result::Ok(st)
    } else {
        match spec_apply_arg(st, args[0], tag_mode) {
            Result::Ok(st2) => spec_parse_args(args.drop_first(), st2, tag_mode),
            Result::Err(e) => Result::Err(e),
        }
    }
}

/// What parsing an argument list yields: the validated configuration,
/// or the first diagnostic, in argument order.
pub open spec fn spec_parse_config(args: Seq<MetaView>, tag_mode: bool) -> Result<
    ConfigurationView,
    EngineError,
> {
    match spec_parse_args(args, spec_init_state(), tag_mode) {
        Result::Ok(st) => Result::Ok(st.cfg),
        Result::Err(e) => Result::Err(e),
    }
}

/// Performs one step of the fold.
pub fn apply_arg(cfg: Configuration, seen: SeenKeys, arg: &Meta, tag_mode: bool) -> (r: Result<
    (Configuration, SeenKeys),
    EngineError,
>)
    ensures
        match r {
            Result::Ok(p) => spec_apply_arg(
                ParseStateView { cfg: cfg@, seen },
                arg@,
                tag_mode,
            ) == Result::<ParseStateView, EngineError>::Ok(
                ParseStateView { cfg: p.0@, seen: p.1 },
            ),
            Result::Err(e) => spec_apply_arg(
                ParseStateView { cfg: cfg@, seen },
                arg@,
                tag_mode,
            ) == Result::<ParseStateView, EngineError>::Err(e),
        },
{
    proof {
        reveal(spec_apply_arg);
    }
    let id = match ident(arg) {
        Result::Ok(id) => id,
        Result::Err(e) => {
            return Result::Err(e);
        },
    };
    let key = match key_of(&id.name) {
        Option::Some(k) => k,
        Option::None => {
            return Result::Err(EngineError::UnknownKey { span: id.span });
        },
    };
    let allowed = if tag_mode {
        matches!(key, ConfigKey::Tag)
    } else {
        !matches!(key, ConfigKey::Tag)
    };
    if !allowed {
        return Result::Err(EngineError::UnknownKey { span: id.span });
    }
    match seen_get(&seen, key) {
        Option::Some(first) => {
            return Result::Err(
                EngineError::DuplicateKey { key, first_span: first, second_span: id.span },
            );
        },
        Option::None => {},
    }
    let seen2 = seen_set(seen, key, id.span);
    let mut cfg = cfg;
    match key {
        ConfigKey::Prefix => {
            let v = match ident_or_str_value(arg, ConfigKey::Prefix) {
                Result::Ok(v) => v,
                Result::Err(e) => {
                    return Result::Err(e);
                },
            };
            cfg.prefix = Option::Some(v);
        },
        ConfigKey::Suffix => {
            let v = match ident_or_str_value(arg, ConfigKey::Suffix) {
                Result::Ok(v) => v,
                Result::Err(e) => {
                    return Result::Err(e);
                },
            };
            cfg.suffix = Option::Some(v);
        },
        ConfigKey::NoImpl => {
            let b = match no_impl_value(arg) {
                Result::Ok(b) => b,
                Result::Err(e) => {
                    return Result::Err(e);
                },
            };
            cfg.suppress_conversions = b;
        },
        ConfigKey::Style => {
            let s = match style_value(arg) {
                Result::Ok(s) => s,
                Result::Err(e) => {
                    return Result::Err(e);
                },
            };
            cfg.style = s;
        },
        ConfigKey::DeriveExclude => {
            let mut v = match derive_exclude_value(arg) {
                Result::Ok(v) => v,
                Result::Err(e) => {
                    return Result::Err(e);
                },
            };
            let ghost old_de = cfg@.derive_exclude;
            let ghost added = Seq::new(v@.len(), |i: int| v@[i]@);
            cfg.derive_exclude.append(&mut v);
            proof {
                assert(cfg@.derive_exclude =~= old_de + added);
            }
        },
        ConfigKey::Tag => {
            let t = match tag_value(arg) {
                Result::Ok(t) => t,
                Result::Err(e) => {
                    return Result::Err(e);
                },
            };
            cfg.tag_spec = t;
        },
    }
    Result::Ok((cfg, seen2))
}

/// Parses the whole argument list into a validated configuration, or
/// the first diagnostic in argument order.  With `tag_mode` set, the
/// grammar of the tag-generation pipeline applies instead.
#[verifier::loop_isolation(false)]
pub fn parse_config(args: &Vec<Meta>, tag_mode: bool) -> (r: Result<Configuration, EngineError>)
    ensures
        match r {
            Result::Ok(c) => spec_parse_config(view_meta_seq(args@), tag_mode) == Result::<
                ConfigurationView,
                EngineError,
            >::Ok(c@),
            Result::Err(e) => spec_parse_config(view_meta_seq(args@), tag_mode) == Result::<
                ConfigurationView,
                EngineError,
            >::Err(e),
        },
{
    let mut cfg = default_config();
    let mut seen = SeenKeys {
        prefix: Option::None,
        suffix: Option::None,
        no_impl: Option::None,
        style: Option::None,
        derive_exclude: Option::None,
        tag: Option::None,
    };
    let mut k: usize = 0;
    proof {
        lemma_view_meta_seq(args@);
        assert(view_meta_seq(args@).skip(0) =~= view_meta_seq(args@));
    }
    while k < args.len()
        invariant
            k <= args.len(),
            spec_parse_args(view_meta_seq(args@), spec_init_state(), tag_mode)
                == spec_parse_args(
                view_meta_seq(args@).skip(k as int),
                ParseStateView { cfg: cfg@, seen },
                tag_mode,
            ),
        decreases args.len() - k,
    {
        proof {
            assert(view_meta_seq(args@).skip(k as int)[0] == view_meta(args@[k as int]));
            assert(view_meta_seq(args@).skip(k as int).drop_first() =~= view_meta_seq(
                args@,
            ).skip(k as int + 1));
        }
        match apply_arg(cfg, seen, &args[k], tag_mode) {
            Result::Ok(p) => {
                cfg = p.0;
                seen = p.1;
            },
            Result::Err(e) => {
                return Result::Err(e);
            },
        }
        k += 1;
    }
    proof {
        assert(view_meta_seq(args@).skip(args@.len() as int) =~= Seq::<MetaView>::empty());
    }
    Result::Ok(cfg)
}

/// A keyword identifier, with a synthetic span.
pub open spec fn spec_kw_ident(name: Seq<char>) -> IdentView {
    IdentView { name, span: 0 }
}

/// A one-segment keyword path, with a synthetic span.
pub open spec fn spec_kw_path(name: Seq<char>) -> PathView {
    PathView { segments: seq![spec_kw_ident(name)], span: 0 }
}

/// Canonical form of a set prefix: `prefix(Name)`; likewise for suffix.
pub open spec fn spec_ser_opt_name(key: Seq<char>, v: Option<Seq<char>>) -> Seq<MetaView> {
    match v {
        Option::Some(s) => seq![
            MetaView::List {
                path: spec_kw_path(key),
                args: seq![
                    MetaView::Path(PathView { segments: seq![IdentView { name: s, span: 0 }], span: 0 })
                ],
                span: 0,
            }
        ],
        Option::None => Seq::empty(),
    }
}

/// Canonical form of suppressed conversions: the bare key.
pub open spec fn spec_ser_no_impl(c: ConfigurationView) -> Seq<MetaView> {
    if c.suppress_conversions {
        seq![MetaView::Path(spec_kw_path("no_impl"@))]
    } else {
        Seq::empty()
    }
}

/// Canonical form of the style: only the non-default one is written.
pub open spec fn spec_ser_style(c: ConfigurationView) -> Seq<MetaView> {
    match c.style {
        Style::Keep => seq![
            MetaView::NameValue {
                path: spec_kw_path("style"@),
                value: LitView::Str { value: "keep"@, span: 0 },
                span: 0,
            }
        ],
        Style::Wrap => Seq::empty(),
    }
}

/// Canonical form of the exclusion set: one list of its paths.
pub open spec fn spec_ser_derive_exclude(c: ConfigurationView) -> Seq<MetaView> {
    if c.derive_exclude.len() == 0 {
        Seq::empty()
    } else {
        seq![
            MetaView::List {
                path: spec_kw_path("derive_exclude"@),
                args: Seq::new(c.derive_exclude.len(), |i: int| MetaView::Path(c.derive_exclude[i])),
                span: 0,
            }
        ]
    }
}

/// The canonical re-serialization of a configuration: each non-default
/// field as one argument, in a fixed order.  The tag specification
/// belongs to the tag pipeline and is serialized by
/// [`spec_ser_tag`] instead.
pub open spec fn spec_serialize_config(c: ConfigurationView) -> Seq<MetaView> {
    spec_ser_opt_name("prefix"@, c.prefix) + spec_ser_opt_name("suffix"@, c.suffix)
        + spec_ser_no_impl(c) + spec_ser_style(c) + spec_ser_derive_exclude(c)
}

/// The canonical form of a tag specification: one `tag(...)` argument.
pub open spec fn spec_ser_tag(ts: TagSpecView) -> Seq<MetaView> {
    seq![
        MetaView::List {
            path: spec_kw_path("tag"@),
            args: seq![
                match ts {
                    TagSpecView::Existing(p) => MetaView::Path(p),
                    TagSpecView::Generate(id) => MetaView::List {
                        path: spec_kw_path("generate"@),
                        args: seq![MetaView::Path(PathView { segments: seq![id], span: 0 })],
                        span: 0,
                    },
                }
            ],
            span: 0,
        }
    ]
}

/// A keyword identifier.
pub fn kw_ident(name: &str) -> (r: Ident)
    ensures
        r@ == spec_kw_ident(name@),
{
    Ident { name: String::from_str(name), span: 0 }
}

/// A one-segment keyword path.
pub fn kw_path(name: &str) -> (r: Path)
    ensures
        r@ == spec_kw_path(name@),
{
    let mut segments: Vec<Ident> = Vec::new();
    segments.push(kw_ident(name));
    let r = Path { segments, span: 0 };
    assert(r@.segments =~= spec_kw_path(name@).segments);
    r
}

/// Writes a configuration back in its canonical form, the one that
/// re-parses to the same configuration.
pub fn serialize_config(c: &Configuration) -> (v: Vec<Meta>)
    ensures
        view_meta_seq(v@) == spec_serialize_config(c@),
{
    let mut out: Vec<Meta> = Vec::new();
    if let Option::Some(s) = &c.prefix {
        let mut seg: Vec<Ident> = Vec::new();
        seg.push(Ident { name: s.clone(), span: 0 });
        let mut args: Vec<Meta> = Vec::new();
        args.push(Meta::Path(Path { segments: seg, span: 0 }));
        let ghost gargs = args@;
        out.push(Meta::List { path: kw_path("prefix"), args, span: 0 });
        proof {
            lemma_view_meta_seq(gargs);
            let piece = spec_ser_opt_name("prefix"@, c@.prefix);
            assert(view_meta(gargs[0]) =~~= piece[0]->List_args[0]);
            assert(view_meta_seq(gargs) =~~= piece[0]->List_args);
            assert(view_meta(out@[0]) =~~= piece[0]);
        }
    }
    proof {
        lemma_view_meta_seq(out@);
        assert(view_meta_seq(out@) =~~= spec_ser_opt_name("prefix"@, c@.prefix));
    }
    let ghost done1 = view_meta_seq(out@);
    let ghost len1 = out@.len();
    if let Option::Some(s) = &c.suffix {
        let mut seg: Vec<Ident> = Vec::new();
        seg.push(Ident { name: s.clone(), span: 0 });
        let mut args: Vec<Meta> = Vec::new();
        args.push(Meta::Path(Path { segments: seg, span: 0 }));
        let ghost gargs = args@;
        out.push(Meta::List { path: kw_path("suffix"), args, span: 0 });
        proof {
            lemma_view_meta_seq(gargs);
            let piece = spec_ser_opt_name("suffix"@, c@.suffix);
            assert(view_meta(gargs[0]) =~~= piece[0]->List_args[0]);
            assert(view_meta_seq(gargs) =~~= piece[0]->List_args);
            assert(view_meta(out@[len1 as int]) =~~= piece[0]);
        }
    }
    proof {
        lemma_view_meta_seq(out@);
        assert(view_meta_seq(out@) =~~= done1 + spec_ser_opt_name("suffix"@, c@.suffix));
    }
    let ghost done2 = view_meta_seq(out@);
    let ghost len2 = out@.len();
    if c.suppress_conversions {
        out.push(Meta::Path(kw_path("no_impl")));
        proof {
            assert(view_meta(out@[len2 as int]) =~~= spec_ser_no_impl(c@)[0]);
        }
    }
    proof {
        lemma_view_meta_seq(out@);
        assert(view_meta_seq(out@) =~~= done2 + spec_ser_no_impl(c@));
    }
    let ghost done3 = view_meta_seq(out@);
    let ghost len3 = out@.len();
    if let Style::Keep = c.style {
        out.push(Meta::NameValue {
            path: kw_path("style"),
            value: Lit::Str { value: String::from_str("keep"), span: 0 },
            span: 0,
        });
        proof {
            assert(view_meta(out@[len3 as int]) =~~= spec_ser_style(c@)[0]);
        }
    }
    proof {
        lemma_view_meta_seq(out@);
        assert(view_meta_seq(out@) =~~= done3 + spec_ser_style(c@));
    }
    let ghost done4 = view_meta_seq(out@);
    let ghost len4 = out@.len();
    if c.derive_exclude.len() > 0 {
        let mut args: Vec<Meta> = Vec::new();
        let mut k: usize = 0;
        while k < c.derive_exclude.len()
            invariant
                k <= c.derive_exclude.len(),
                args@.len() == k,
                forall|j: int|
                    0 <= j < k ==> #[trigger] view_meta(args@[j]) == MetaView::Path(
                        c.derive_exclude@[j]@,
                    ),
            decreases c.derive_exclude.len() - k,
        {
            args.push(Meta::Path(clone_path(&c.derive_exclude[k])));
            k += 1;
        }
        let ghost gargs = args@;
        out.push(Meta::List { path: kw_path("derive_exclude"), args, span: 0 });
        proof {
            lemma_view_meta_seq(gargs);
            let piece = spec_ser_derive_exclude(c@);
            assert(view_meta_seq(gargs) =~~= piece[0]->List_args);
            assert(view_meta(out@[len4 as int]) =~~= piece[0]);
        }
    }
    proof {
        lemma_view_meta_seq(out@);
        assert(view_meta_seq(out@) =~~= done4 + spec_ser_derive_exclude(c@));
        assert(view_meta_seq(out@) =~~= spec_serialize_config(c@));
    }
    out
}


/// Writes a tag specification back in its canonical form, the one
/// `tag(...)` argument that re-parses to the same specification.
pub fn serialize_tag(ts: &TagSpec) -> (v: Vec<Meta>)
    ensures
        view_meta_seq(v@) == spec_ser_tag(ts@),
{
    let inner: Meta = match ts {
        TagSpec::Existing(p) => {
            let m = Meta::Path(clone_path(p));
            proof {
                assert(view_meta(m) =~~= spec_ser_tag(ts@)[0]->List_args[0]);
            }
            m
        },
        TagSpec::Generate(id) => {
            let mut seg: Vec<Ident> = Vec::new();
            seg.push(crate::ast::clone_ident(id));
            let mut gen_args: Vec<Meta> = Vec::new();
            gen_args.push(Meta::Path(Path { segments: seg, span: 0 }));
            let ghost g = gen_args@;
            let m = Meta::List { path: kw_path("generate"), args: gen_args, span: 0 };
            proof {
                lemma_view_meta_seq(g);
                assert(view_meta(g[0]) =~~= spec_ser_tag(ts@)[0]->List_args[0]->List_args[0]);
                assert(view_meta_seq(g) =~~= spec_ser_tag(ts@)[0]->List_args[0]->List_args);
                assert(view_meta(m) =~~= spec_ser_tag(ts@)[0]->List_args[0]);
            }
            m
        },
    };
    let ghost ginner = inner;
    let mut args: Vec<Meta> = Vec::new();
    args.push(inner);
    proof {
        lemma_view_meta_seq(args@);
        assert(view_meta(ginner) =~~= spec_ser_tag(ts@)[0]->List_args[0]);
    }
    let mut out: Vec<Meta> = Vec::new();
    out.push(Meta::List { path: kw_path("tag"), args, span: 0 });
    proof {
        lemma_view_meta_seq(out@);
        assert(view_meta_seq(out@) =~~= spec_ser_tag(ts@));
    }
    out
}

/// Parsing a singleton argument list is applying its one argument.
pub proof fn lemma_parse_single(m: MetaView, st: ParseStateView, tag_mode: bool)
    ensures
        spec_parse_args(seq![m], st, tag_mode) == spec_apply_arg(st, m, tag_mode),
{
    let s = seq![m];
    assert(s.drop_first() =~= Seq::<MetaView>::empty());
    match spec_apply_arg(st, m, tag_mode) {
        Result::Ok(st2) => {
            assert(spec_parse_args(s.drop_first(), st2, tag_mode) == Result::<
                ParseStateView,
                EngineError,
            >::Ok(st2));
        },
        Result::Err(_) => {},
    }
}

/// The fold over a concatenation is the fold over the first part,
/// continued over the second.
pub proof fn lemma_parse_args_append(
    a: Seq<MetaView>,
    b: Seq<MetaView>,
    st: ParseStateView,
    tag_mode: bool,
)
    ensures
        spec_parse_args(a + b, st, tag_mode) == match spec_parse_args(a, st, tag_mode) {
            Result::Ok(st2) => spec_parse_args(b, st2, tag_mode),
            Result::Err(e) => Result::Err(e),
        },
    decreases a.len(),
{
    if a.len() == 0 {
        assert(a + b =~= b);
    } else {
        assert((a + b)[0] == a[0]);
        assert((a + b).len() > 0);
        match spec_apply_arg(st, a[0], tag_mode) {
            Result::Ok(st2) => {
                assert((a + b).drop_first() =~= a.drop_first() + b);
                lemma_parse_args_append(a.drop_first(), b, st2, tag_mode);
            },
            Result::Err(_) => {},
        }
    }
}





/// Evaluates the key recognition on each canonical keyword, and tells
/// the two style values apart.
proof fn lemma_keyword_facts()
    ensures
        spec_key_of("prefix"@) == Option::Some(ConfigKey::Prefix),
        spec_key_of("suffix"@) == Option::Some(ConfigKey::Suffix),
        spec_key_of("no_impl"@) == Option::Some(ConfigKey::NoImpl),
        spec_key_of("style"@) == Option::Some(ConfigKey::Style),
        spec_key_of("derive_exclude"@) == Option::Some(ConfigKey::DeriveExclude),
        spec_key_of("tag"@) == Option::Some(ConfigKey::Tag),
        "keep"@ != "wrap"@,
{
    reveal_strlit("prefix");
    reveal_strlit("suffix");
    reveal_strlit("no_impl");
    reveal_strlit("style");
    reveal_strlit("derive_exclude");
    reveal_strlit("tag");
    reveal_strlit("wrap");
    reveal_strlit("keep");
    assert("prefix"@.len() == 6);
    assert("suffix"@.len() == 6);
    assert("no_impl"@.len() == 7);
    assert("style"@.len() == 5);
    assert("derive_exclude"@.len() == 14);
    assert("tag"@.len() == 3);
    assert("wrap"@.len() == 4);
    assert("keep"@.len() == 4);
    assert("prefix"@[0] == 'p');
    assert("suffix"@[0] == 's');
    assert("wrap"@[0] == 'w');
    assert("keep"@[0] == 'k');
    assert("suffix"@ != "prefix"@);
    assert("no_impl"@ != "prefix"@ && "no_impl"@ != "suffix"@);
    assert("style"@ != "prefix"@ && "style"@ != "suffix"@ && "style"@ != "no_impl"@);
    assert("derive_exclude"@ != "prefix"@ && "derive_exclude"@ != "suffix"@
        && "derive_exclude"@ != "no_impl"@ && "derive_exclude"@ != "style"@);
    assert("tag"@ != "prefix"@ && "tag"@ != "suffix"@ && "tag"@ != "no_impl"@ && "tag"@
        != "style"@ && "tag"@ != "derive_exclude"@);
    assert("keep"@ != "wrap"@);
}

/// One canonical `prefix(...)` argument sets exactly the prefix.
proof fn lemma_apply_prefix(st: ParseStateView, v: Seq<char>)
    requires
        spec_seen_get(st.seen, ConfigKey::Prefix) is None,
    ensures
        spec_apply_arg(st, spec_ser_opt_name("prefix"@, Option::Some(v))[0], false) == Result::<
            ParseStateView,
            EngineError,
        >::Ok(
            ParseStateView {
                cfg: ConfigurationView { prefix: Option::Some(v), ..st.cfg },
                seen: spec_seen_set(st.seen, ConfigKey::Prefix, 0),
            },
        ),
{
    reveal(spec_apply_arg);
    lemma_keyword_facts();
    let m = spec_ser_opt_name("prefix"@, Option::Some(v))[0];
    assert(spec_ident_of(m) == Result::<IdentView, EngineError>::Ok(spec_kw_ident("prefix"@)));
    assert(spec_ident_or_str_value(m, ConfigKey::Prefix) == Result::<Seq<char>, EngineError>::Ok(
        v,
    ));
}

/// One canonical `suffix(...)` argument sets exactly the suffix.
proof fn lemma_apply_suffix(st: ParseStateView, v: Seq<char>)
    requires
        spec_seen_get(st.seen, ConfigKey::Suffix) is None,
    ensures
        spec_apply_arg(st, spec_ser_opt_name("suffix"@, Option::Some(v))[0], false) == Result::<
            ParseStateView,
            EngineError,
        >::Ok(
            ParseStateView {
                cfg: ConfigurationView { suffix: Option::Some(v), ..st.cfg },
                seen: spec_seen_set(st.seen, ConfigKey::Suffix, 0),
            },
        ),
{
    reveal(spec_apply_arg);
    lemma_keyword_facts();
    let m = spec_ser_opt_name("suffix"@, Option::Some(v))[0];
    assert(spec_ident_of(m) == Result::<IdentView, EngineError>::Ok(spec_kw_ident("suffix"@)));
    assert(spec_key_of("suffix"@) == Option::Some(ConfigKey::Suffix));
    assert(spec_ident_or_str_value(m, ConfigKey::Suffix) == Result::<Seq<char>, EngineError>::Ok(
        v,
    ));
}

/// One canonical bare `no_impl` argument suppresses the conversions.
proof fn lemma_apply_no_impl(st: ParseStateView)
    requires
        spec_seen_get(st.seen, ConfigKey::NoImpl) is None,
    ensures
        spec_apply_arg(st, MetaView::Path(spec_kw_path("no_impl"@)), false) == Result::<
            ParseStateView,
            EngineError,
        >::Ok(
            ParseStateView {
                cfg: ConfigurationView { suppress_conversions: true, ..st.cfg },
                seen: spec_seen_set(st.seen, ConfigKey::NoImpl, 0),
            },
        ),
{
    reveal(spec_apply_arg);
    lemma_keyword_facts();
    let m = MetaView::Path(spec_kw_path("no_impl"@));
    assert(spec_ident_of(m) == Result::<IdentView, EngineError>::Ok(spec_kw_ident("no_impl"@)));
    assert(spec_key_of("no_impl"@) == Option::Some(ConfigKey::NoImpl));
    assert(spec_no_impl_value(m) == Result::<bool, EngineError>::Ok(true));
}

/// One canonical `style = "keep"` argument sets the style.
proof fn lemma_apply_style_keep(st: ParseStateView)
    requires
        spec_seen_get(st.seen, ConfigKey::Style) is None,
    ensures
        spec_apply_arg(
            st,
            MetaView::NameValue {
                path: spec_kw_path("style"@),
                value: LitView::Str { value: "keep"@, span: 0 },
                span: 0,
            },
            false,
        ) == Result::<ParseStateView, EngineError>::Ok(
            ParseStateView {
                cfg: ConfigurationView { style: Style::Keep, ..st.cfg },
                seen: spec_seen_set(st.seen, ConfigKey::Style, 0),
            },
        ),
{
    reveal(spec_apply_arg);
    lemma_keyword_facts();
    let m = MetaView::NameValue {
        path: spec_kw_path("style"@),
        value: LitView::Str { value: "keep"@, span: 0 },
        span: 0,
    };
    assert(spec_ident_of(m) == Result::<IdentView, EngineError>::Ok(spec_kw_ident("style"@)));
    assert(spec_key_of("style"@) == Option::Some(ConfigKey::Style));
    assert(spec_style_value(m) == Result::<Style, EngineError>::Ok(Style::Keep));
}

/// One canonical `derive_exclude(...)` argument extends the exclusion
/// set by exactly its paths.
proof fn lemma_apply_derive_exclude(st: ParseStateView, paths: Seq<PathView>)
    requires
        spec_seen_get(st.seen, ConfigKey::DeriveExclude) is None,
        paths.len() > 0,
    ensures
        spec_apply_arg(
            st,
            MetaView::List {
                path: spec_kw_path("derive_exclude"@),
                args: Seq::new(paths.len(), |i: int| MetaView::Path(paths[i])),
                span: 0,
            },
            false,
        ) == Result::<ParseStateView, EngineError>::Ok(
            ParseStateView {
                cfg: ConfigurationView {
                    derive_exclude: st.cfg.derive_exclude + paths,
                    ..st.cfg
                },
                seen: spec_seen_set(st.seen, ConfigKey::DeriveExclude, 0),
            },
        ),
{
    reveal(spec_apply_arg);
    lemma_keyword_facts();
    let m = MetaView::List {
        path: spec_kw_path("derive_exclude"@),
        args: Seq::new(paths.len(), |i: int| MetaView::Path(paths[i])),
        span: 0,
    };
    assert(spec_ident_of(m) == Result::<IdentView, EngineError>::Ok(
        spec_kw_ident("derive_exclude"@),
    ));
    assert(spec_key_of("derive_exclude"@) == Option::Some(ConfigKey::DeriveExclude));
    lemma_paths_of_all(Seq::new(paths.len(), |i: int| MetaView::Path(paths[i])), paths);
    assert(spec_derive_exclude_value(m) == Result::<Seq<PathView>, EngineError>::Ok(paths));
}

/// One canonical `tag(...)` argument, under the tag pipeline's grammar,
/// sets exactly the tag specification.
proof fn lemma_apply_tag(st: ParseStateView, ts: TagSpecView)
    requires
        spec_seen_get(st.seen, ConfigKey::Tag) is None,
    ensures
        spec_apply_arg(st, spec_ser_tag(ts)[0], true) == Result::<
            ParseStateView,
            EngineError,
        >::Ok(
            ParseStateView {
                cfg: ConfigurationView { tag_spec: Option::Some(ts), ..st.cfg },
                seen: spec_seen_set(st.seen, ConfigKey::Tag, 0),
            },
        ),
{
    reveal(spec_apply_arg);
    lemma_keyword_facts();
    let m = spec_ser_tag(ts)[0];
    assert(spec_ident_of(m) == Result::<IdentView, EngineError>::Ok(spec_kw_ident("tag"@)));
    assert(spec_key_of("tag"@) == Option::Some(ConfigKey::Tag));
    match ts {
        TagSpecView::Existing(_) => {},
        TagSpecView::Generate(id) => {
            let inner = m->List_args[0];
            assert(inner matches MetaView::List { path, args, span } && path.segments.len() == 1
                && path.segments[0].name == "generate"@ && args.len() == 1);
        },
    }
    assert(spec_tag_value(m) == Result::<Option<TagSpecView>, EngineError>::Ok(
        Option::Some(ts),
    ));
}

/// Re-parsing the canonical re-serialization of a configuration yields
/// exactly that configuration back.  The tag specification is the tag
/// pipeline's own argument; see `lemma_parse_serialize_tag_roundtrip`
/// for its half of the round trip.
pub proof fn lemma_parse_serialize_roundtrip(c: ConfigurationView)
    requires
        c.tag_spec is None,
    ensures
        spec_parse_config(spec_serialize_config(c), false) == Result::<
            ConfigurationView,
            EngineError,
        >::Ok(c),
{
    let s1 = spec_ser_opt_name("prefix"@, c.prefix);
    let s2 = spec_ser_opt_name("suffix"@, c.suffix);
    let s3 = spec_ser_no_impl(c);
    let s4 = spec_ser_style(c);
    let s5 = spec_ser_derive_exclude(c);
    let st0 = spec_init_state();

    let cfg1 = ConfigurationView { prefix: c.prefix, ..spec_default_config() };
    let seen1 = if c.prefix is Some {
        spec_seen_set(st0.seen, ConfigKey::Prefix, 0)
    } else {
        st0.seen
    };
    let st1 = ParseStateView { cfg: cfg1, seen: seen1 };
    match c.prefix {
        Option::Some(v) => {
            lemma_parse_single(s1[0], st0, false);
            lemma_apply_prefix(st0, v);
            assert(ParseStateView {
                cfg: ConfigurationView { prefix: Option::Some(v), ..st0.cfg },
                seen: spec_seen_set(st0.seen, ConfigKey::Prefix, 0),
            } =~= st1);
        },
        Option::None => {
            assert(s1 =~= Seq::<MetaView>::empty());
            assert(st0 =~= st1);
        },
    }
    assert(spec_parse_args(s1, st0, false) == Result::<ParseStateView, EngineError>::Ok(st1));

    let cfg2 = ConfigurationView { suffix: c.suffix, ..cfg1 };
    let seen2 = if c.suffix is Some {
        spec_seen_set(st1.seen, ConfigKey::Suffix, 0)
    } else {
        st1.seen
    };
    let st2 = ParseStateView { cfg: cfg2, seen: seen2 };
    match c.suffix {
        Option::Some(v) => {
            lemma_parse_single(s2[0], st1, false);
            lemma_apply_suffix(st1, v);
            assert(ParseStateView {
                cfg: ConfigurationView { suffix: Option::Some(v), ..st1.cfg },
                seen: spec_seen_set(st1.seen, ConfigKey::Suffix, 0),
            } =~= st2);
        },
        Option::None => {
            assert(s2 =~= Seq::<MetaView>::empty());
            assert(st1 =~= st2);
        },
    }
    assert(spec_parse_args(s2, st1, false) == Result::<ParseStateView, EngineError>::Ok(st2));

    let cfg3 = ConfigurationView { suppress_conversions: c.suppress_conversions, ..cfg2 };
    let seen3 = if c.suppress_conversions {
        spec_seen_set(st2.seen, ConfigKey::NoImpl, 0)
    } else {
        st2.seen
    };
    let st3 = ParseStateView { cfg: cfg3, seen: seen3 };
    if c.suppress_conversions {
        lemma_parse_single(s3[0], st2, false);
        lemma_apply_no_impl(st2);
        assert(ParseStateView {
            cfg: ConfigurationView { suppress_conversions: true, ..st2.cfg },
            seen: spec_seen_set(st2.seen, ConfigKey::NoImpl, 0),
        } =~= st3);
    } else {
        assert(s3 =~= Seq::<MetaView>::empty());
        assert(st2 =~= st3);
    }
    assert(spec_parse_args(s3, st2, false) == Result::<ParseStateView, EngineError>::Ok(st3));

    let cfg4 = ConfigurationView { style: c.style, ..cfg3 };
    let seen4 = if c.style is Keep {
        spec_seen_set(st3.seen, ConfigKey::Style, 0)
    } else {
        st3.seen
    };
    let st4 = ParseStateView { cfg: cfg4, seen: seen4 };
    match c.style {
        Style::Keep => {
            lemma_parse_single(s4[0], st3, false);
            lemma_apply_style_keep(st3);
            assert(ParseStateView {
                cfg: ConfigurationView { style: Style::Keep, ..st3.cfg },
                seen: spec_seen_set(st3.seen, ConfigKey::Style, 0),
            } =~= st4);
        },
        Style::Wrap => {
            assert(s4 =~= Seq::<MetaView>::empty());
            assert(st3 =~= st4);
        },
    }
    assert(spec_parse_args(s4, st3, false) == Result::<ParseStateView, EngineError>::Ok(st4));

    let cfg5 = ConfigurationView { derive_exclude: c.derive_exclude, ..cfg4 };
    let seen5 = if c.derive_exclude.len() > 0 {
        spec_seen_set(st4.seen, ConfigKey::DeriveExclude, 0)
    } else {
        st4.seen
    };
    let st5 = ParseStateView { cfg: cfg5, seen: seen5 };
    if c.derive_exclude.len() > 0 {
        lemma_parse_single(s5[0], st4, false);
        lemma_apply_derive_exclude(st4, c.derive_exclude);
        assert(cfg4.derive_exclude + c.derive_exclude =~= c.derive_exclude);
        assert(ParseStateView {
            cfg: ConfigurationView {
                derive_exclude: st4.cfg.derive_exclude + c.derive_exclude,
                ..st4.cfg
            },
            seen: spec_seen_set(st4.seen, ConfigKey::DeriveExclude, 0),
        } =~= st5);
    } else {
        assert(s5 =~= Seq::<MetaView>::empty());
        assert(cfg5.derive_exclude =~= c.derive_exclude);
        assert(st4 =~= st5);
    }
    assert(spec_parse_args(s5, st4, false) == Result::<ParseStateView, EngineError>::Ok(st5));

    assert(spec_serialize_config(c) =~= s1 + (s2 + (s3 + (s4 + s5))));
    lemma_parse_args_append(s1, s2 + (s3 + (s4 + s5)), st0, false);
    lemma_parse_args_append(s2, s3 + (s4 + s5), st1, false);
    lemma_parse_args_append(s3, s4 + s5, st2, false);
    lemma_parse_args_append(s4, s5, st3, false);
    assert(spec_parse_args(spec_serialize_config(c), st0, false) == Result::<
        ParseStateView,
        EngineError,
    >::Ok(st5));
    assert(st5.cfg =~= c);
}

/// Re-parsing the canonical form of a tag specification, under the tag
/// pipeline's grammar, yields a configuration holding exactly it.
pub proof fn lemma_parse_serialize_tag_roundtrip(ts: TagSpecView)
    ensures
        spec_parse_config(spec_ser_tag(ts), true) == Result::<
            ConfigurationView,
            EngineError,
        >::Ok(ConfigurationView { tag_spec: Option::Some(ts), ..spec_default_config() }),
{
    let m = spec_ser_tag(ts)[0];
    let st0 = spec_init_state();
    lemma_parse_single(m, st0, true);
    assert(spec_ser_tag(ts) =~= seq![m]);
    lemma_apply_tag(st0, ts);
    let expected = ConfigurationView { tag_spec: Option::Some(ts), ..spec_default_config() };
    assert(ConfigurationView { tag_spec: Option::Some(ts), ..st0.cfg } =~= expected);
}

/// The key of an argument, where its key is a recognized bare
/// identifier.
pub open spec fn spec_arg_key(m: MetaView) -> Option<ConfigKey> {
    match spec_ident_of(m) {
        Result::Ok(id) => spec_key_of(id.name),
        Result::Err(_) => Option::None,
    }
}

/// An argument that is, on its own, acceptable to the grammar of the
/// given pipeline: keyed by a recognized bare identifier, in a shape
/// that key's grammar accepts.
pub open spec fn spec_arg_wellformed(m: MetaView, tag_mode: bool) -> bool {
    match spec_ident_of(m) {
        Result::Ok(id) => match spec_key_of(id.name) {
            Option::Some(key) => spec_key_allowed(key, tag_mode) && (match key {
                ConfigKey::Prefix => spec_ident_or_str_value(m, key) is Ok,
                ConfigKey::Suffix => spec_ident_or_str_value(m, key) is Ok,
                ConfigKey::NoImpl => spec_no_impl_value(m) is Ok,
                ConfigKey::Style => spec_style_value(m) is Ok,
                ConfigKey::DeriveExclude => spec_derive_exclude_value(m) is Ok,
                ConfigKey::Tag => spec_tag_value(m) is Ok,
            }),
            Option::None => false,
        },
        Result::Err(_) => false,
    }
}

/// A parse outcome that is the duplicate-parameter diagnostic.
pub open spec fn spec_is_duplicate_error(r: Result<ConfigurationView, EngineError>) -> bool {
    r matches Result::Err(e) && e is DuplicateKey
}

/// Applying a well-formed argument either reports a duplicate of its
/// key, or succeeds and records exactly that key as seen.
proof fn lemma_apply_wellformed(st: ParseStateView, m: MetaView, tag_mode: bool)
    requires
        spec_arg_wellformed(m, tag_mode),
    ensures
        spec_arg_key(m) is Some,
        spec_seen_get(st.seen, spec_arg_key(m)->0) is Some ==> (spec_apply_arg(
            st,
            m,
            tag_mode,
        ) matches Result::Err(e) && e is DuplicateKey),
        spec_seen_get(st.seen, spec_arg_key(m)->0) is None ==> (spec_apply_arg(
            st,
            m,
            tag_mode,
        ) matches Result::Ok(st2) && spec_seen_get(st2.seen, spec_arg_key(m)->0) is Some
            && (forall|k2: ConfigKey|
            k2 != spec_arg_key(m)->0 ==> #[trigger] spec_seen_get(st2.seen, k2)
                == spec_seen_get(st.seen, k2))),
{
    reveal(spec_apply_arg);
}

/// An argument whose key is recognized, allowed and already seen is
/// reported as a duplicate before its own shape is even examined.
proof fn lemma_apply_seen_duplicate(st: ParseStateView, m: MetaView, tag_mode: bool)
    requires
        spec_arg_key(m) is Some,
        spec_key_allowed(spec_arg_key(m)->0, tag_mode),
        spec_seen_get(st.seen, spec_arg_key(m)->0) is Some,
    ensures
        spec_apply_arg(st, m, tag_mode) matches Result::Err(e) && e is DuplicateKey,
{
    reveal(spec_apply_arg);
}

/// Once a key is already recorded as seen, an argument list that
/// supplies that key again — well-formed up to that occurrence — always
/// fails as a duplicate.
proof fn lemma_run_seen(args: Seq<MetaView>, st: ParseStateView, tag_mode: bool, j: int)
    requires
        forall|i: int| 0 <= i < j ==> spec_arg_wellformed(#[trigger] args[i], tag_mode),
        0 <= j < args.len(),
        spec_arg_key(args[j]) is Some,
        spec_key_allowed(spec_arg_key(args[j])->0, tag_mode),
        spec_seen_get(st.seen, spec_arg_key(args[j])->0) is Some,
    ensures
        spec_parse_args(args, st, tag_mode) matches Result::Err(e) && e is DuplicateKey,
    decreases args.len(),
{
    let m0 = args[0];
    if j == 0 {
        lemma_apply_seen_duplicate(st, m0, tag_mode);
    } else {
        assert(spec_arg_wellformed(m0, tag_mode));
        lemma_apply_wellformed(st, m0, tag_mode);
        let k0 = spec_arg_key(m0)->0;
        if spec_seen_get(st.seen, k0) is Some {
            // the first argument itself trips the duplicate check
        } else {
            let st2 = spec_apply_arg(st, m0, tag_mode)->Ok_0;
            lemma_run_seen(args.drop_first(), st2, tag_mode, j - 1);
        }
    }
}

/// The generalization of `lemma_duplicate_key_rejected` over any fold
/// state.
proof fn lemma_run_dup(args: Seq<MetaView>, st: ParseStateView, tag_mode: bool, i: int, j: int)
    requires
        forall|k: int| 0 <= k < j ==> spec_arg_wellformed(#[trigger] args[k], tag_mode),
        0 <= i < j < args.len(),
        spec_arg_key(args[j]) is Some,
        spec_key_allowed(spec_arg_key(args[j])->0, tag_mode),
        spec_arg_key(args[i]) == spec_arg_key(args[j]),
    ensures
        spec_parse_args(args, st, tag_mode) matches Result::Err(e) && e is DuplicateKey,
    decreases args.len(),
{
    let m0 = args[0];
    assert(spec_arg_wellformed(m0, tag_mode));
    lemma_apply_wellformed(st, m0, tag_mode);
    let k0 = spec_arg_key(m0)->0;
    if spec_seen_get(st.seen, k0) is Some {
        // the first argument itself trips the duplicate check
    } else {
        let st2 = spec_apply_arg(st, m0, tag_mode)->Ok_0;
        if i == 0 {
            lemma_run_seen(args.drop_first(), st2, tag_mode, j - 1);
        } else {
            lemma_run_dup(args.drop_first(), st2, tag_mode, i - 1, j - 1);
        }
    }
}

/// Supplying the same recognized key twice, whatever the key and in
/// whatever order the arguments stand, always fails with the
/// duplicate-parameter diagnostic — provided every argument before the
/// second occurrence is on its own acceptable to the grammar, since an
/// earlier structurally invalid argument surfaces its own diagnostic
/// first.  The second occurrence itself need not be well shaped: the
/// duplicate check precedes the shape check.
pub proof fn lemma_duplicate_key_rejected(args: Seq<MetaView>, tag_mode: bool, i: int, j: int)
    requires
        forall|k: int| 0 <= k < j ==> spec_arg_wellformed(#[trigger] args[k], tag_mode),
        0 <= i < j < args.len(),
        spec_arg_key(args[j]) is Some,
        spec_key_allowed(spec_arg_key(args[j])->0, tag_mode),
        spec_arg_key(args[i]) == spec_arg_key(args[j]),
    ensures
        spec_is_duplicate_error(spec_parse_config(args, tag_mode)),
{
    lemma_run_dup(args, spec_init_state(), tag_mode, i, j);
}

/// All-path arguments make `spec_paths_of` return exactly those paths.
pub proof fn lemma_paths_of_all(args: Seq<MetaView>, paths: Seq<PathView>)
    requires
        paths.len() == args.len(),
        forall|j: int|
            0 <= j < args.len() ==> (#[trigger] args[j] matches MetaView::Path(p) && paths[j]
                == p),
    ensures
        spec_paths_of(args) == Option::Some(paths),
    decreases args.len(),
{
    if args.len() == 0 {
        assert(paths =~= Seq::<PathView>::empty());
    } else {
        lemma_paths_of_all(args.drop_first(), paths.drop_first());
        match args[0] {
            MetaView::Path(p) => {
                assert(paths =~= seq![p] + paths.drop_first());
            },
            _ => {},
        }
    }
}


} // verus!
