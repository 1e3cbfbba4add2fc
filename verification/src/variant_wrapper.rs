//! The wrapper pipeline: the union's variants already carry their
//! intended payload types, each a unit variant or a single unnamed
//! field.  The union is rewritten so each variant wraps its payload,
//! and one conversion pair per variant is emitted unless the
//! configuration suppresses conversions.  No records are generated.

use vstd::prelude::*;

use crate::ast::{
    clone_ident, clone_metas, view_meta_seq, EnumDecl, EnumDeclView, FieldsView, Ident, Meta,
    MetaView, Path, PathView, TypeRef, TypeRefView, Variant, VariantView,
};
use crate::common::{
    generate_conversion_impl, ConversionPair, ConversionPairView, EngineError, WrappedVariant,
    WrappedVariantView,
};
use crate::config::{parse_config, spec_parse_config, ConfigurationView};

verus! {

/// Canonical shape of one variant, per the classification rules: a
/// variant with named fields is rejected; a tuple-like variant must
/// have exactly one field, which is its payload; a unit variant's
/// payload is the synthetic unit type named after the variant itself.
pub open spec fn spec_wrap_variant(v: VariantView) -> Result<WrappedVariantView, EngineError> {
    match v.fields {
        FieldsView::Named { fields: _, span } => Result::Err(
            EngineError::NamedFieldsUnsupported { span },
        ),
        FieldsView::Unnamed { tys, span } => {
            if tys.len() != 1 {
                Result::Err(EngineError::WrongUnnamedCount { span })
            } else {
                Result::Ok(WrappedVariantView { id: v.ident, ty: tys[0] })
            }
        },
        FieldsView::Unit => Result::Ok(
            WrappedVariantView {
                id: v.ident,
                ty: TypeRefView::Path(
                    PathView { segments: seq![v.ident], span: v.ident.span },
                ),
            },
        ),
    }
}

/// Classifies one variant into its canonical shape.
pub fn wrap_variant(v: &Variant) -> (r: Result<WrappedVariant, EngineError>)
    ensures
        match r {
            Result::Ok(w) => spec_wrap_variant(v@) == Result::<
                WrappedVariantView,
                EngineError,
            >::Ok(w@),
            Result::Err(e) => spec_wrap_variant(v@) == Result::<
                WrappedVariantView,
                EngineError,
            >::Err(e),
        },
{
    match &v.fields {
        crate::ast::Fields::Named { fields: _, span } => Result::Err(
            EngineError::NamedFieldsUnsupported { span: *span },
        ),
        crate::ast::Fields::Unnamed { tys, span } => {
            if tys.len() != 1 {
                Result::Err(EngineError::WrongUnnamedCount { span: *span })
            } else {
                let r = WrappedVariant {
                    id: clone_ident(&v.ident),
                    ty: crate::ast::clone_typeref(&tys[0]),
                };
                assert(v@.fields->Unnamed_tys[0] == tys@[0]@);
                Result::Ok(r)
            }
        },
        crate::ast::Fields::Unit => {
            let mut segments: Vec<Ident> = Vec::new();
            segments.push(clone_ident(&v.ident));
            let path = Path { segments, span: v.ident.span };
            assert(path@.segments =~= seq![v.ident@]);
            Result::Ok(
                WrappedVariant { id: clone_ident(&v.ident), ty: TypeRef::Path(path) },
            )
        },
    }
}

/// Canonical shapes of all variants, in declaration order, stopping at
/// the first rejected shape.
pub open spec fn spec_wrap_variants(vs: Seq<VariantView>) -> Result<
    Seq<WrappedVariantView>,
    EngineError,
>
    decreases vs.len(),
{
    if vs.len() == 0 {
        Result::Ok(Seq::empty())
    } else {
        match spec_wrap_variant(vs[0]) {
            Result::Err(e) => Result::Err(e),
            Result::Ok(w) => match spec_wrap_variants(vs.drop_first()) {
                Result::Err(e) => Result::Err(e),
                Result::Ok(rest) => Result::Ok(seq![w] + rest),
            },
        }
    }
}

/// Classifying a list of variants whose first `k` are already known to
/// classify cleanly continues from position `k`.
pub proof fn lemma_wrap_variants_prefix(vs: Seq<VariantView>, k: int, ws: Seq<WrappedVariantView>)
    requires
        0 <= k <= vs.len(),
        ws.len() == k,
        forall|j: int|
            0 <= j < k ==> spec_wrap_variant(#[trigger] vs[j]) == Result::<
                WrappedVariantView,
                EngineError,
            >::Ok(ws[j]),
    ensures
        spec_wrap_variants(vs) == match spec_wrap_variants(vs.skip(k)) {
            Result::Ok(rest) => Result::<Seq<WrappedVariantView>, EngineError>::Ok(ws + rest),
            Result::Err(e) => Result::<Seq<WrappedVariantView>, EngineError>::Err(e),
        },
    decreases k,
{
    if k == 0 {
        assert(vs.skip(0) =~= vs);
        match spec_wrap_variants(vs) {
            Result::Ok(rest) => {
                assert(ws + rest =~= rest);
            },
            Result::Err(_) => {},
        }
    } else {
        lemma_wrap_variants_prefix(vs, k - 1, ws.take(k - 1));
        assert(vs.skip(k - 1).len() > 0);
        assert(vs.skip(k - 1)[0] == vs[k - 1]);
        assert(vs.skip(k - 1).drop_first() =~= vs.skip(k));
        match spec_wrap_variants(vs.skip(k)) {
            Result::Ok(rest) => {
                assert(ws.take(k - 1) + (seq![ws[k - 1]] + rest) =~= ws + rest);
            },
            Result::Err(_) => {},
        }
    }
}

/// The wrapper pipeline's whole output: the rewritten union and its
/// conversion pairs, in variant order.
#[derive(Debug, PartialEq, Eq)]
pub struct WrapperOutput {
    pub rewritten: EnumDecl,
    pub conversions: Vec<ConversionPair>,
}

/// Mathematical value of a `WrapperOutput`.
#[verifier::ext_equal]
pub struct WrapperOutputView {
    pub rewritten: EnumDeclView,
    pub conversions: Seq<ConversionPairView>,
}

impl View for WrapperOutput {
    type V = WrapperOutputView;

    open spec fn view(&self) -> WrapperOutputView {
        WrapperOutputView {
            rewritten: self.rewritten@,
            conversions: Seq::new(self.conversions@.len(), |i: int| self.conversions@[i]@),
        }
    }
}

/// The rewritten form of one canonically shaped variant: the bare
/// identifier wrapping its payload type, with no attributes and no
/// discriminant.
pub open spec fn spec_wrapped_as_variant(w: WrappedVariantView) -> VariantView {
    VariantView {
        attrs: Seq::empty(),
        ident: w.id,
        fields: FieldsView::Unnamed { tys: seq![w.ty], span: 0 },
        disc: Option::None,
    }
}

/// What the wrapper pipeline emits for an argument list and a union
/// declaration: the first configuration or shape diagnostic, or the
/// union rewritten variant by variant with one conversion pair per
/// variant — none when conversions are suppressed.
pub open spec fn spec_wrapper_doit(args: Seq<MetaView>, d: EnumDeclView) -> Result<
    WrapperOutputView,
    EngineError,
> {
    match spec_parse_config(args, false) {
        Result::Err(e) => Result::Err(e),
        Result::Ok(cfg) => match spec_wrap_variants(d.variants) {
            Result::Err(e) => Result::Err(e),
            Result::Ok(ws) => Result::Ok(
                WrapperOutputView {
                    rewritten: EnumDeclView {
                        attrs: d.attrs,
                        vis: d.vis,
                        ident: d.ident,
                        variants: Seq::new(ws.len(), |i: int| spec_wrapped_as_variant(ws[i])),
                    },
                    conversions: if cfg.suppress_conversions {
                        Seq::empty()
                    } else {
                        Seq::new(
                            ws.len(),
                            |i: int| ConversionPairView {
                                enum_ident: d.ident,
                                variant_ident: ws[i].id,
                                payload: ws[i].ty,
                            },
                        )
                    },
                },
            ),
        },
    }
}

/// Runs the wrapper pipeline on an argument list and a union
/// declaration.
#[verifier::loop_isolation(false)]
pub fn doit(args: &Vec<Meta>, decl: &EnumDecl) -> (r: Result<WrapperOutput, EngineError>)
    ensures
        match r {
            Result::Ok(out) => spec_wrapper_doit(view_meta_seq(args@), decl@) == Result::<
                WrapperOutputView,
                EngineError,
            >::Ok(out@),
            Result::Err(e) => spec_wrapper_doit(view_meta_seq(args@), decl@) == Result::<
                WrapperOutputView,
                EngineError,
            >::Err(e),
        },
{
    let cfg = match parse_config(args, false) {
        Result::Ok(c) => c,
        Result::Err(e) => {
            return Result::Err(e);
        },
    };
    let mut ws: Vec<WrappedVariant> = Vec::new();
    let mut k: usize = 0;
    while k < decl.variants.len()
        invariant
            k <= decl.variants.len(),
            ws@.len() == k,
            forall|j: int|
                0 <= j < k ==> spec_wrap_variant(#[trigger] decl@.variants[j]) == Result::<
                    WrappedVariantView,
                    EngineError,
                >::Ok(ws@[j]@),
        decreases decl.variants.len() - k,
    {
        match wrap_variant(&decl.variants[k]) {
            Result::Ok(w) => {
                ws.push(w);
            },
            Result::Err(e) => {
                proof {
                    lemma_wrap_variants_prefix(
                        decl@.variants,
                        k as int,
                        Seq::new(ws@.len(), |i: int| ws@[i]@),
                    );
                    assert(decl@.variants.skip(k as int)[0] == decl@.variants[k as int]);
                }
                return Result::Err(e);
            },
        }
        k += 1;
    }
    proof {
        lemma_wrap_variants_prefix(
            decl@.variants,
            decl.variants@.len() as int,
            Seq::new(ws@.len(), |i: int| ws@[i]@),
        );
        assert(decl@.variants.skip(decl.variants@.len() as int) =~= Seq::<VariantView>::empty());
        assert(spec_wrap_variants(decl@.variants) == Result::<
            Seq<WrappedVariantView>,
            EngineError,
        >::Ok(Seq::new(ws@.len(), |i: int| ws@[i]@))) by {
            assert(Seq::new(ws@.len(), |i: int| ws@[i]@) + Seq::<WrappedVariantView>::empty()
                =~= Seq::new(ws@.len(), |i: int| ws@[i]@));
        }
    }
    let mut variants: Vec<Variant> = Vec::new();
    let mut conversions: Vec<ConversionPair> = Vec::new();
    let mut k: usize = 0;
    while k < ws.len()
        invariant
            k <= ws.len(),
            variants@.len() == k,
            forall|j: int|
                0 <= j < k ==> #[trigger] variants@[j]@ == spec_wrapped_as_variant(ws@[j]@),
            conversions@.len() == (if cfg.suppress_conversions {
                0int
            } else {
                k as int
            }),
            forall|j: int|
                0 <= j < conversions@.len() ==> #[trigger] conversions@[j]@
                    == (ConversionPairView {
                    enum_ident: decl@.ident,
                    variant_ident: ws@[j]@.id,
                    payload: ws@[j]@.ty,
                }),
        decreases ws.len() - k,
    {
        let w = &ws[k];
        if !cfg.suppress_conversions {
            conversions.push(generate_conversion_impl(&decl.ident, &w.id, &w.ty));
        }
        let mut tys: Vec<TypeRef> = Vec::new();
        tys.push(crate::ast::clone_typeref(&w.ty));
        let nv = Variant {
            attrs: Vec::new(),
            ident: clone_ident(&w.id),
            fields: crate::ast::Fields::Unnamed { tys, span: 0 },
            disc: Option::None,
        };
        proof {
            assert(nv@.fields->Unnamed_tys =~= seq![ws@[k as int]@.ty]);
            assert(nv@.attrs =~= Seq::<MetaView>::empty());
            assert(nv@ =~= spec_wrapped_as_variant(ws@[k as int]@));
        }
        variants.push(nv);
        k += 1;
    }
    let out = WrapperOutput {
        rewritten: EnumDecl {
            attrs: clone_metas(&decl.attrs),
            vis: decl.vis,
            ident: clone_ident(&decl.ident),
            variants,
        },
        conversions,
    };
    proof {
        let wsv = Seq::new(ws@.len(), |i: int| ws@[i]@);
        assert(out@.rewritten.variants =~= Seq::new(wsv.len(), |i: int| spec_wrapped_as_variant(
            wsv[i],
        )));
        if !cfg.suppress_conversions {
            assert(out@.conversions =~= Seq::new(
                wsv.len(),
                |i: int| ConversionPairView {
                    enum_ident: decl@.ident,
                    variant_ident: wsv[i].id,
                    payload: wsv[i].ty,
                },
            ));
        } else {
            assert(out@.conversions =~= Seq::<ConversionPairView>::empty());
        }
        assert(out@.rewritten.attrs == decl@.attrs);
        assert(spec_wrapper_doit(view_meta_seq(args@), decl@) matches Result::Ok(o) && o =~~= out@);
    }
    Result::Ok(out)
}

/// Takes anything that lends a number, and does nothing with it.
pub fn f(cow: impl AsRef<i32>) {
}

} // verus!
