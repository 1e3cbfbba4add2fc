//! The extraction pipeline: each variant's field shape is extracted
//! into a brand-new standalone record, and the union is rewritten so
//! each variant wraps the record named after it (or, in the `keep`
//! style, stays exactly as declared).  The union's derive list is
//! forwarded to every record with the excluded traits removed, marked
//! and documentation attributes are forwarded from each variant, and
//! one conversion pair per variant is emitted unless suppressed.

use vstd::prelude::*;

use crate::ast::{
    clone_fields, clone_ident, clone_meta, clone_metas, clone_path, clone_variant,
    lemma_view_meta_seq, view_meta, view_meta_seq, EnumDecl, EnumDeclView, Fields, FieldsView,
    Ident, IdentView, Meta, MetaView, Path, PathView, RecordDecl, RecordDeclView, TypeRef,
    TypeRefView, Variant, VariantView, Vis,
};
use crate::common::{
    generate_conversion_impl, map_ident, meta_path_is, path_in, spec_map_ident, spec_meta_is,
    spec_meta_span, spec_path_in, ConversionPair, ConversionPairView, EngineError,
};
use crate::config::{
    lemma_paths_of_all, lemma_paths_of_bad, parse_config, spec_parse_config, spec_paths_of,
    ConfigurationView, Style,
};

verus! {

/// The prefix the configuration supplies for generated names, or
/// nothing.
pub open spec fn spec_prefix_of(cfg: ConfigurationView) -> Seq<char> {
    match cfg.prefix {
        Option::Some(s) => s,
        Option::None => Seq::empty(),
    }
}

/// The suffix the configuration supplies for generated names, or
/// nothing.
pub open spec fn spec_suffix_of(cfg: ConfigurationView) -> Seq<char> {
    match cfg.suffix {
        Option::Some(s) => s,
        Option::None => Seq::empty(),
    }
}

/// The identifier of the record generated for one variant.
pub open spec fn spec_gen_ident(cfg: ConfigurationView, id: IdentView) -> IdentView {
    IdentView {
        name: spec_map_ident(spec_prefix_of(cfg), spec_suffix_of(cfg), id.name),
        span: 0,
    }
}

/// Paths written back as list arguments.
pub open spec fn spec_paths_as_metas(ps: Seq<PathView>) -> Seq<MetaView> {
    Seq::new(ps.len(), |i: int| MetaView::Path(ps[i]))
}

/// The derive paths kept once the exclusion set is removed, in order.
pub open spec fn spec_filtered_derives(ps: Seq<PathView>, excl: Seq<PathView>) -> Seq<PathView>
    decreases ps.len(),
{
    if ps.len() == 0 {
        Seq::empty()
    } else {
        let rest = spec_filtered_derives(ps.drop_first(), excl);
        if spec_path_in(excl, ps[0]) {
            rest
        } else {
            seq![ps[0]] + rest
        }
    }
}

/// Filtering one more path at the end keeps it exactly when it is not
/// excluded.
pub proof fn lemma_filtered_snoc(ps: Seq<PathView>, x: PathView, excl: Seq<PathView>)
    ensures
        spec_filtered_derives(ps.push(x), excl) == spec_filtered_derives(ps, excl) + (
        if spec_path_in(excl, x) {
            Seq::<PathView>::empty()
        } else {
            seq![x]
        }),
    decreases ps.len(),
{
    reveal_with_fuel(spec_filtered_derives, 3);
    if ps.len() == 0 {
        assert(ps.push(x)[0] == x);
        assert(ps.push(x).drop_first() =~= Seq::<PathView>::empty());
        if spec_path_in(excl, x) {
            assert(spec_filtered_derives(ps, excl) + Seq::<PathView>::empty() =~= Seq::<
                PathView,
            >::empty());
        } else {
            assert(spec_filtered_derives(ps, excl) + seq![x] =~= seq![x] + Seq::<
                PathView,
            >::empty());
        }
    } else {
        assert(ps.push(x)[0] == ps[0]);
        assert(ps.push(x).drop_first() =~= ps.drop_first().push(x));
        lemma_filtered_snoc(ps.drop_first(), x, excl);
        let restx = spec_filtered_derives(ps.drop_first().push(x), excl);
        let rest = spec_filtered_derives(ps.drop_first(), excl);
        if spec_path_in(excl, ps[0]) {
        } else {
            if spec_path_in(excl, x) {
                assert(seq![ps[0]] + (rest + Seq::<PathView>::empty()) =~= (seq![ps[0]] + rest)
                    + Seq::<PathView>::empty());
            } else {
                assert(seq![ps[0]] + (rest + seq![x]) =~= (seq![ps[0]] + rest) + seq![x]);
            }
        }
    }
}

/// One union-level derive attribute with the exclusion set removed.  A
/// derive list that is not a comma-separated sequence of paths is a
/// fatal error; a derive attribute of another shape is kept as it is.
pub open spec fn spec_filter_derive(m: MetaView, excl: Seq<PathView>) -> Result<
    MetaView,
    EngineError,
> {
    match m {
        MetaView::List { path, args, span } => match spec_paths_of(args) {
            Option::Some(ps) => Result::Ok(
                MetaView::List {
                    path,
                    args: spec_paths_as_metas(spec_filtered_derives(ps, excl)),
                    span,
                },
            ),
            Option::None => Result::Err(EngineError::MalformedDeriveList { span }),
        },
        _ => Result::Ok(m),
    }
}

/// Removes the exclusion set from one derive attribute.
#[verifier::loop_isolation(false)]
pub fn filter_derive(m: &Meta, excl: &Vec<Path>) -> (r: Result<Meta, EngineError>)
    ensures
        match r {
            Result::Ok(out) => spec_filter_derive(
                m@,
                Seq::new(excl@.len(), |i: int| excl@[i]@),
            ) == Result::<MetaView, EngineError>::Ok(out@),
            Result::Err(e) => spec_filter_derive(
                m@,
                Seq::new(excl@.len(), |i: int| excl@[i]@),
            ) == Result::<MetaView, EngineError>::Err(e),
        },
{
    let ghost exclv = Seq::new(excl@.len(), |i: int| excl@[i]@);
    match m {
        Meta::List { path, args, span } => {
            proof {
                lemma_view_meta_seq(args@);
            }
            let mut kept: Vec<Meta> = Vec::new();
            let ghost mut psg = Seq::<PathView>::empty();
            let mut k: usize = 0;
            while k < args.len()
                invariant
                    k <= args.len(),
                    psg.len() == k,
                    forall|j: int|
                        0 <= j < k ==> #[trigger] view_meta(args@[j]) == MetaView::Path(psg[j]),
                    Seq::new(kept@.len(), |i: int| view_meta(kept@[i])) == spec_paths_as_metas(
                        spec_filtered_derives(psg, exclv),
                    ),
                decreases args.len() - k,
            {
                match &args[k] {
                    Meta::Path(p) => {
                        let ghost kept0 = Seq::new(kept@.len(), |i: int| view_meta(kept@[i]));
                        proof {
                            lemma_filtered_snoc(psg, p@, exclv);
                        }
                        if !path_in(excl, p) {
                            kept.push(Meta::Path(clone_path(p)));
                            proof {
                                assert(Seq::new(kept@.len(), |i: int| view_meta(kept@[i])) =~=
                                    kept0 + seq![MetaView::Path(p@)]);
                                assert(spec_paths_as_metas(
                                    spec_filtered_derives(psg.push(p@), exclv),
                                ) =~= kept0 + seq![MetaView::Path(p@)]);
                            }
                        } else {
                            proof {
                                assert(spec_filtered_derives(psg, exclv) + Seq::<
                                    PathView,
                                >::empty() =~= spec_filtered_derives(psg, exclv));
                            }
                        }
                        proof {
                            psg = psg.push(p@);
                        }
                    },
                    _ => {
                        proof {
                            lemma_paths_of_bad(view_meta_seq(args@), k as int);
                        }
                        return Result::Err(EngineError::MalformedDeriveList { span: *span });
                    },
                }
                k += 1;
            }
            proof {
                lemma_paths_of_all(view_meta_seq(args@), psg);
            }
            let out = Meta::List { path: clone_path(path), args: kept, span: *span };
            proof {
                lemma_view_meta_seq(kept@);
                assert(view_meta_seq(kept@) =~= Seq::new(
                    kept@.len(),
                    |i: int| view_meta(kept@[i]),
                ));
                assert(out@ matches MetaView::List { path: p2, args: a2, span: s2 } && p2 == path@
                    && a2 == view_meta_seq(kept@) && s2 == span);
            }
            Result::Ok(out)
        },
        _ => Result::Ok(clone_meta(m)),
    }
}

/// The union's derive attributes, each with the exclusion set removed,
/// in order; other union attributes contribute nothing here.
pub open spec fn spec_global_derive(attrs: Seq<MetaView>, excl: Seq<PathView>) -> Result<
    Seq<MetaView>,
    EngineError,
>
    decreases attrs.len(),
{
    if attrs.len() == 0 {
        Result::Ok(Seq::empty())
    } else if spec_meta_is(attrs[0], "derive"@) {
        match spec_filter_derive(attrs[0], excl) {
            Result::Err(e) => Result::Err(e),
            Result::Ok(m) => match spec_global_derive(attrs.drop_first(), excl) {
                Result::Err(e) => Result::Err(e),
                Result::Ok(rest) => Result::Ok(seq![m] + rest),
            },
        }
    } else {
        spec_global_derive(attrs.drop_first(), excl)
    }
}

/// Collects the union's filtered derive attributes.
#[verifier::loop_isolation(false)]
pub fn global_derive(attrs: &Vec<Meta>, excl: &Vec<Path>) -> (r: Result<Vec<Meta>, EngineError>)
    ensures
        match r {
            Result::Ok(out) => spec_global_derive(
                view_meta_seq(attrs@),
                Seq::new(excl@.len(), |i: int| excl@[i]@),
            ) == Result::<Seq<MetaView>, EngineError>::Ok(view_meta_seq(out@)),
            Result::Err(e) => spec_global_derive(
                view_meta_seq(attrs@),
                Seq::new(excl@.len(), |i: int| excl@[i]@),
            ) == Result::<Seq<MetaView>, EngineError>::Err(e),
        },
{
    let ghost exclv = Seq::new(excl@.len(), |i: int| excl@[i]@);
    let ghost full = view_meta_seq(attrs@);
    proof {
        lemma_view_meta_seq(attrs@);
        assert(full.skip(0) =~= full);
    }
    let mut out: Vec<Meta> = Vec::new();
    let mut k: usize = 0;
    while k < attrs.len()
        invariant
            k <= attrs.len(),
            spec_global_derive(full, exclv) == match spec_global_derive(
                full.skip(k as int),
                exclv,
            ) {
                Result::Ok(rest) => Result::<Seq<MetaView>, EngineError>::Ok(
                    Seq::new(out@.len(), |i: int| view_meta(out@[i])) + rest,
                ),
                Result::Err(e) => Result::<Seq<MetaView>, EngineError>::Err(e),
            },
        decreases attrs.len() - k,
    {
        proof {
            assert(full.skip(k as int)[0] == view_meta(attrs@[k as int]));
            assert(full.skip(k as int).drop_first() =~= full.skip(k as int + 1));
        }
        let ghost out0 = Seq::new(out@.len(), |i: int| view_meta(out@[i]));
        if meta_path_is(&attrs[k], "derive") {
            match filter_derive(&attrs[k], excl) {
                Result::Ok(m) => {
                    let ghost mv = m@;
                    out.push(m);
                    proof {
                        assert(Seq::new(out@.len(), |i: int| view_meta(out@[i])) =~= out0 + seq![
                            mv,
                        ]);
                        match spec_global_derive(full.skip(k as int + 1), exclv) {
                            Result::Ok(rest) => {
                                assert((out0 + seq![mv]) + rest =~= out0 + (seq![mv] + rest));
                            },
                            Result::Err(_) => {},
                        }
                    }
                },
                Result::Err(e) => {
                    return Result::Err(e);
                },
            }
        }
        k += 1;
    }
    proof {
        assert(full.skip(attrs@.len() as int) =~= Seq::<MetaView>::empty());
        assert(Seq::new(out@.len(), |i: int| view_meta(out@[i])) + Seq::<MetaView>::empty()
            =~= Seq::new(out@.len(), |i: int| view_meta(out@[i])));
        lemma_view_meta_seq(out@);
        assert(view_meta_seq(out@) =~= Seq::new(out@.len(), |i: int| view_meta(out@[i])));
    }
    Result::Ok(out)
}

/// What one variant attribute contributes to the generated record: the
/// inner argument of an `attribute(...)` marker, a documentation
/// attribute verbatim, and nothing from anything else.
pub open spec fn spec_forward_attr(m: MetaView) -> Result<Option<MetaView>, EngineError> {
    if spec_meta_is(m, "attribute"@) {
        match m {
            MetaView::List { path: _, args, span } => {
                if args.len() == 1 && !(args[0] is Opaque) {
                    Result::Ok(Option::Some(args[0]))
                } else {
                    Result::Err(EngineError::BadForwardAttribute { span })
                }
            },
            _ => Result::Err(
                EngineError::BadForwardAttribute { span: spec_meta_span(m) },
            ),
        }
    } else if spec_meta_is(m, "doc"@) {
        Result::Ok(Option::Some(m))
    } else {
        Result::Ok(Option::None)
    }
}

/// Reads what one variant attribute forwards to the record.
pub fn forward_attr(m: &Meta) -> (r: Result<Option<Meta>, EngineError>)
    ensures
        match r {
            Result::Ok(out) => spec_forward_attr(m@) == Result::<
                Option<MetaView>,
                EngineError,
            >::Ok(
                match out {
                    Option::Some(a) => Option::Some(a@),
                    Option::None => Option::None,
                },
            ),
            Result::Err(e) => spec_forward_attr(m@) == Result::<
                Option<MetaView>,
                EngineError,
            >::Err(e),
        },
{
    if meta_path_is(m, "attribute") {
        match m {
            Meta::List { path: _, args, span } => {
                proof {
                    lemma_view_meta_seq(args@);
                }
                if args.len() == 1 {
                    match &args[0] {
                        Meta::Opaque { .. } => Result::Err(
                            EngineError::BadForwardAttribute { span: *span },
                        ),
                        _ => Result::Ok(Option::Some(clone_meta(&args[0]))),
                    }
                } else {
                    Result::Err(EngineError::BadForwardAttribute { span: *span })
                }
            },
            Meta::Path(p) => Result::Err(EngineError::BadForwardAttribute { span: p.span }),
            Meta::NameValue { path: _, value: _, span } => Result::Err(
                EngineError::BadForwardAttribute { span: *span },
            ),
            Meta::Opaque { handle: _, span } => Result::Err(
                EngineError::BadForwardAttribute { span: *span },
            ),
        }
    } else if meta_path_is(m, "doc") {
        Result::Ok(Option::Some(clone_meta(m)))
    } else {
        Result::Ok(Option::None)
    }
}

/// The attributes one variant hands its generated record, in order.
pub open spec fn spec_variant_attrs(attrs: Seq<MetaView>) -> Result<Seq<MetaView>, EngineError>
    decreases attrs.len(),
{
    if attrs.len() == 0 {
        Result::Ok(Seq::empty())
    } else {
        match spec_forward_attr(attrs[0]) {
            Result::Err(e) => Result::Err(e),
            Result::Ok(Option::None) => spec_variant_attrs(attrs.drop_first()),
            Result::Ok(Option::Some(m)) => match spec_variant_attrs(attrs.drop_first()) {
                Result::Err(e) => Result::Err(e),
                Result::Ok(rest) => Result::Ok(seq![m] + rest),
            },
        }
    }
}

/// Collects the attributes one variant hands its generated record.
#[verifier::loop_isolation(false)]
pub fn variant_attrs(attrs: &Vec<Meta>) -> (r: Result<Vec<Meta>, EngineError>)
    ensures
        match r {
            Result::Ok(out) => spec_variant_attrs(view_meta_seq(attrs@)) == Result::<
                Seq<MetaView>,
                EngineError,
            >::Ok(view_meta_seq(out@)),
            Result::Err(e) => spec_variant_attrs(view_meta_seq(attrs@)) == Result::<
                Seq<MetaView>,
                EngineError,
            >::Err(e),
        },
{
    let ghost full = view_meta_seq(attrs@);
    proof {
        lemma_view_meta_seq(attrs@);
        assert(full.skip(0) =~= full);
    }
    let mut out: Vec<Meta> = Vec::new();
    let mut k: usize = 0;
    while k < attrs.len()
        invariant
            k <= attrs.len(),
            spec_variant_attrs(full) == match spec_variant_attrs(full.skip(k as int)) {
                Result::Ok(rest) => Result::<Seq<MetaView>, EngineError>::Ok(
                    Seq::new(out@.len(), |i: int| view_meta(out@[i])) + rest,
                ),
                Result::Err(e) => Result::<Seq<MetaView>, EngineError>::Err(e),
            },
        decreases attrs.len() - k,
    {
        proof {
            assert(full.skip(k as int)[0] == view_meta(attrs@[k as int]));
            assert(full.skip(k as int).drop_first() =~= full.skip(k as int + 1));
        }
        let ghost out0 = Seq::new(out@.len(), |i: int| view_meta(out@[i]));
        match forward_attr(&attrs[k]) {
            Result::Ok(Option::Some(m)) => {
                let ghost mv = m@;
                out.push(m);
                proof {
                    assert(Seq::new(out@.len(), |i: int| view_meta(out@[i])) =~= out0 + seq![mv]);
                    match spec_variant_attrs(full.skip(k as int + 1)) {
                        Result::Ok(rest) => {
                            assert((out0 + seq![mv]) + rest =~= out0 + (seq![mv] + rest));
                        },
                        Result::Err(_) => {},
                    }
                }
            },
            Result::Ok(Option::None) => {},
            Result::Err(e) => {
                return Result::Err(e);
            },
        }
        k += 1;
    }
    proof {
        assert(full.skip(attrs@.len() as int) =~= Seq::<MetaView>::empty());
        assert(Seq::new(out@.len(), |i: int| view_meta(out@[i])) + Seq::<MetaView>::empty()
            =~= Seq::new(out@.len(), |i: int| view_meta(out@[i])));
        lemma_view_meta_seq(out@);
        assert(view_meta_seq(out@) =~= Seq::new(out@.len(), |i: int| view_meta(out@[i])));
    }
    Result::Ok(out)
}

/// The record generated for one variant: the forwarded variant
/// attributes followed by the union's filtered derive list, the
/// union's own visibility, the synthesized name, and the variant's
/// field shape exactly as declared.
pub open spec fn spec_record(
    v: VariantView,
    cfg: ConfigurationView,
    vis: Vis,
    gd: Seq<MetaView>,
) -> Result<RecordDeclView, EngineError> {
    match spec_variant_attrs(v.attrs) {
        Result::Err(e) => Result::Err(e),
        Result::Ok(fwd) => Result::Ok(
            RecordDeclView {
                attrs: fwd + gd,
                vis,
                ident: spec_gen_ident(cfg, v.ident),
                fields: v.fields,
            },
        ),
    }
}

/// The records for all variants, in declaration order, stopping at the
/// first malformed forwarding attribute.
pub open spec fn spec_records(
    vs: Seq<VariantView>,
    cfg: ConfigurationView,
    vis: Vis,
    gd: Seq<MetaView>,
) -> Result<Seq<RecordDeclView>, EngineError>
    decreases vs.len(),
{
    if vs.len() == 0 {
        Result::Ok(Seq::empty())
    } else {
        match spec_record(vs[0], cfg, vis, gd) {
            Result::Err(e) => Result::Err(e),
            Result::Ok(r) => match spec_records(vs.drop_first(), cfg, vis, gd) {
                Result::Err(e) => Result::Err(e),
                Result::Ok(rest) => Result::Ok(seq![r] + rest),
            },
        }
    }
}

/// The rewritten form of one variant in the `wrap` style: the bare
/// identifier wrapping the generated record type, attributes and
/// discriminant dropped.
pub open spec fn spec_wrap_rewritten(v: VariantView, cfg: ConfigurationView) -> VariantView {
    VariantView {
        attrs: Seq::empty(),
        ident: v.ident,
        fields: FieldsView::Unnamed {
            tys: seq![
                TypeRefView::Path(
                    PathView { segments: seq![spec_gen_ident(cfg, v.ident)], span: 0 },
                )
            ],
            span: 0,
        },
        disc: Option::None,
    }
}

/// The rewritten union's variants: wrapped in the `wrap` style, kept
/// exactly as declared in the `keep` style.
pub open spec fn spec_rewritten_variants(vs: Seq<VariantView>, cfg: ConfigurationView) -> Seq<
    VariantView,
> {
    match cfg.style {
        Style::Keep => vs,
        Style::Wrap => Seq::new(vs.len(), |i: int| spec_wrap_rewritten(vs[i], cfg)),
    }
}

/// The conversion pairs, one per variant in order, each converting
/// between the union and the generated record type; none when the
/// configuration suppresses conversions.
pub open spec fn spec_extract_conversions(d: EnumDeclView, cfg: ConfigurationView) -> Seq<
    ConversionPairView,
> {
    if cfg.suppress_conversions {
        Seq::empty()
    } else {
        Seq::new(
            d.variants.len(),
            |i: int| ConversionPairView {
                enum_ident: d.ident,
                variant_ident: d.variants[i].ident,
                payload: TypeRefView::Path(
                    PathView {
                        segments: seq![spec_gen_ident(cfg, d.variants[i].ident)],
                        span: 0,
                    },
                ),
            },
        )
    }
}

/// The extraction pipeline's whole output: the rewritten union, the
/// generated records in variant order, and the conversion pairs.
#[derive(Debug, PartialEq, Eq)]
pub struct ExtractOutput {
    pub rewritten: EnumDecl,
    pub records: Vec<RecordDecl>,
    pub conversions: Vec<ConversionPair>,
}

/// Mathematical value of an `ExtractOutput`.
#[verifier::ext_equal]
pub struct ExtractOutputView {
    pub rewritten: EnumDeclView,
    pub records: Seq<RecordDeclView>,
    pub conversions: Seq<ConversionPairView>,
}

impl View for ExtractOutput {
    type V = ExtractOutputView;

    open spec fn view(&self) -> ExtractOutputView {
        ExtractOutputView {
            rewritten: self.rewritten@,
            records: Seq::new(self.records@.len(), |i: int| self.records@[i]@),
            conversions: Seq::new(self.conversions@.len(), |i: int| self.conversions@[i]@),
        }
    }
}

/// What the extraction pipeline emits for an argument list and a union
/// declaration: the first configuration, derive-list or forwarding
/// diagnostic in source order, or the full rewritten fragment.
pub open spec fn spec_extract_doit(args: Seq<MetaView>, d: EnumDeclView) -> Result<
    ExtractOutputView,
    EngineError,
> {
    match spec_parse_config(args, false) {
        Result::Err(e) => Result::Err(e),
        Result::Ok(cfg) => match spec_global_derive(d.attrs, cfg.derive_exclude) {
            Result::Err(e) => Result::Err(e),
            Result::Ok(gd) => match spec_records(d.variants, cfg, d.vis, gd) {
                Result::Err(e) => Result::Err(e),
                Result::Ok(recs) => Result::Ok(
                    ExtractOutputView {
                        rewritten: EnumDeclView {
                            attrs: d.attrs,
                            vis: d.vis,
                            ident: d.ident,
                            variants: spec_rewritten_variants(d.variants, cfg),
                        },
                        records: recs,
                        conversions: spec_extract_conversions(d, cfg),
                    },
                ),
            },
        },
    }
}

/// Runs the extraction pipeline on an argument list and a union
/// declaration.  Conversions for the `keep` style are a deliberate
/// gap, so a configuration selecting that style must also suppress
/// conversions.
#[verifier::loop_isolation(false)]
pub fn doit(args: &Vec<Meta>, decl: &EnumDecl) -> (r: Result<ExtractOutput, EngineError>)
    requires
        spec_parse_config(view_meta_seq(args@), false) matches Result::Ok(cfg) ==> ((
        cfg.style is Keep) ==> cfg.suppress_conversions),
    ensures
        match r {
            Result::Ok(out) => spec_extract_doit(view_meta_seq(args@), decl@) == Result::<
                ExtractOutputView,
                EngineError,
            >::Ok(out@),
            Result::Err(e) => spec_extract_doit(view_meta_seq(args@), decl@) == Result::<
                ExtractOutputView,
                EngineError,
            >::Err(e),
        },
{
    let cfg = match parse_config(args, false) {
        Result::Ok(c) => c,
        Result::Err(e) => {
            return Result::Err(e);
        },
    };
    let gd = match global_derive(&decl.attrs, &cfg.derive_exclude) {
        Result::Ok(g) => g,
        Result::Err(e) => {
            return Result::Err(e);
        },
    };
    let prefix_s: String = match &cfg.prefix {
        Option::Some(s) => s.clone(),
        Option::None => String::new(),
    };
    let suffix_s: String = match &cfg.suffix {
        Option::Some(s) => s.clone(),
        Option::None => String::new(),
    };
    proof {
        assert(prefix_s@ == spec_prefix_of(cfg@));
        assert(suffix_s@ == spec_suffix_of(cfg@));
    }

    // the generated records, one per variant
    let ghost vars = decl@.variants;
    proof {
        assert(vars.skip(0) =~= vars);
    }
    let mut records: Vec<RecordDecl> = Vec::new();
    let mut k: usize = 0;
    while k < decl.variants.len()
        invariant
            k <= decl.variants.len(),
            records@.len() == k,
            spec_records(vars, cfg@, decl@.vis, view_meta_seq(gd@)) == match spec_records(
                vars.skip(k as int),
                cfg@,
                decl@.vis,
                view_meta_seq(gd@),
            ) {
                Result::Ok(rest) => Result::<Seq<RecordDeclView>, EngineError>::Ok(
                    Seq::new(records@.len(), |i: int| records@[i]@) + rest,
                ),
                Result::Err(e) => Result::<Seq<RecordDeclView>, EngineError>::Err(e),
            },
        decreases decl.variants.len() - k,
    {
        proof {
            assert(vars.skip(k as int)[0] == vars[k as int]);
            assert(vars.skip(k as int).drop_first() =~= vars.skip(k as int + 1));
        }
        let v = &decl.variants[k];
        let mut attrs = match variant_attrs(&v.attrs) {
            Result::Ok(a) => a,
            Result::Err(e) => {
                return Result::Err(e);
            },
        };
        let ghost a0 = attrs@;
        let mut tail = clone_metas(&gd);
        let ghost t0 = tail@;
        attrs.append(&mut tail);
        proof {
            lemma_view_meta_seq(attrs@);
            lemma_view_meta_seq(a0);
            lemma_view_meta_seq(t0);
            assert(view_meta_seq(attrs@) =~= view_meta_seq(a0) + view_meta_seq(t0));
            assert(view_meta_seq(attrs@) =~= view_meta_seq(a0) + view_meta_seq(gd@));
        }
        let rec = RecordDecl {
            attrs,
            vis: decl.vis,
            ident: map_ident(&prefix_s, &suffix_s, &v.ident),
            fields: clone_fields(&v.fields),
        };
        let ghost out0 = Seq::new(records@.len(), |i: int| records@[i]@);
        let ghost recv = rec@;
        proof {
            assert(recv.attrs =~= view_meta_seq(a0) + view_meta_seq(gd@));
            assert(recv =~= spec_record(vars[k as int], cfg@, decl@.vis, view_meta_seq(gd@))->Ok_0);
        }
        records.push(rec);
        proof {
            assert(Seq::new(records@.len(), |i: int| records@[i]@) =~= out0 + seq![recv]);
            match spec_records(vars.skip(k as int + 1), cfg@, decl@.vis, view_meta_seq(gd@)) {
                Result::Ok(rest) => {
                    assert((out0 + seq![recv]) + rest =~= out0 + (seq![recv] + rest));
                },
                Result::Err(_) => {},
            }
        }
        k += 1;
    }
    proof {
        assert(vars.skip(decl.variants@.len() as int) =~= Seq::<VariantView>::empty());
        assert(Seq::new(records@.len(), |i: int| records@[i]@) + Seq::<RecordDeclView>::empty()
            =~= Seq::new(records@.len(), |i: int| records@[i]@));
    }

    // the rewritten union
    let mut variants: Vec<Variant> = Vec::new();
    let mut k: usize = 0;
    while k < decl.variants.len()
        invariant
            k <= decl.variants.len(),
            variants@.len() == k,
            forall|j: int|
                0 <= j < k ==> #[trigger] variants@[j]@ == spec_rewritten_variants(vars, cfg@)[j],
        decreases decl.variants.len() - k,
    {
        let v = &decl.variants[k];
        let nv: Variant = match cfg.style {
            Style::Keep => clone_variant(v),
            Style::Wrap => {
                let mut segments: Vec<Ident> = Vec::new();
                segments.push(map_ident(&prefix_s, &suffix_s, &v.ident));
                let mut tys: Vec<TypeRef> = Vec::new();
                tys.push(TypeRef::Path(Path { segments, span: 0 }));
                let nv = Variant {
                    attrs: Vec::new(),
                    ident: clone_ident(&v.ident),
                    fields: Fields::Unnamed { tys, span: 0 },
                    disc: Option::None,
                };
                proof {
                    assert(nv@.attrs =~= Seq::<MetaView>::empty());
                    assert(nv@.fields->Unnamed_tys =~~= seq![
                        TypeRefView::Path(
                            PathView {
                                segments: seq![spec_gen_ident(cfg@, vars[k as int].ident)],
                                span: 0,
                            },
                        )
                    ]);
                    assert(nv@ =~~= spec_wrap_rewritten(vars[k as int], cfg@));
                }
                nv
            },
        };
        variants.push(nv);
        k += 1;
    }

    // the conversion pairs
    let mut conversions: Vec<ConversionPair> = Vec::new();
    if !cfg.suppress_conversions {
        let mut k: usize = 0;
        while k < decl.variants.len()
            invariant
                k <= decl.variants.len(),
                conversions@.len() == k,
                !cfg@.suppress_conversions,
                forall|j: int|
                    0 <= j < k ==> #[trigger] conversions@[j]@ == spec_extract_conversions(
                        decl@,
                        cfg@,
                    )[j],
            decreases decl.variants.len() - k,
        {
            let v = &decl.variants[k];
            let mut segments: Vec<Ident> = Vec::new();
            segments.push(map_ident(&prefix_s, &suffix_s, &v.ident));
            let ty = TypeRef::Path(Path { segments, span: 0 });
            proof {
                assert(ty@ =~~= TypeRefView::Path(
                    PathView {
                        segments: seq![spec_gen_ident(cfg@, vars[k as int].ident)],
                        span: 0,
                    },
                ));
            }
            conversions.push(generate_conversion_impl(&decl.ident, &v.ident, &ty));
            k += 1;
        }
    }

    let out = ExtractOutput {
        rewritten: EnumDecl {
            attrs: clone_metas(&decl.attrs),
            vis: decl.vis,
            ident: clone_ident(&decl.ident),
            variants,
        },
        records,
        conversions,
    };
    proof {
        assert(out@.rewritten.variants =~= spec_rewritten_variants(vars, cfg@));
        assert(out@.conversions =~= spec_extract_conversions(decl@, cfg@));
        assert(out@.records =~= spec_records(vars, cfg@, decl@.vis, view_meta_seq(gd@))->Ok_0);
        assert(spec_extract_doit(view_meta_seq(args@), decl@) matches Result::Ok(o) && o =~~=
            out@);
    }
    Result::Ok(out)
}


} // verus!
