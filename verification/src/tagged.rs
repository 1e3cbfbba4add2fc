//! The tag pipeline: independent of the wrap and extraction paths, it
//! binds or synthesizes a companion tag enumeration for a union and
//! declares the union's "has a tag type" capability.  It reads only the
//! variant identifiers, never the payload shapes.

use vstd::prelude::*;
use vstd::string::StringExecFns;

use crate::ast::{
    clone_ident, view_meta, view_meta_seq, EnumDecl, EnumDeclView, Fields, FieldsView, Ident,
    IdentView, Meta, MetaView, Variant, VariantView,
};
use crate::common::{meta_path_is, spec_meta_is, spec_meta_span, EngineError};
use crate::config::{parse_config, spec_parse_config, TagSpec, TagSpecView};

verus! {

/// The capability binding the pipeline emits: the union implements the
/// tagged interface, with the given enumeration as its tag type.
#[derive(Debug, PartialEq, Eq)]
pub struct TagBinding {
    pub enum_ident: Ident,
    pub tag: TagSpec,
}

/// Mathematical value of a `TagBinding`.
#[verifier::ext_equal]
pub struct TagBindingView {
    pub enum_ident: IdentView,
    pub tag: TagSpecView,
}

impl View for TagBinding {
    type V = TagBindingView;

    open spec fn view(&self) -> TagBindingView {
        TagBindingView { enum_ident: self.enum_ident@, tag: self.tag@ }
    }
}

/// The tag pipeline's whole output: the capability binding, and the
/// synthesized tag enumeration where one is generated.
#[derive(Debug, PartialEq, Eq)]
pub struct TagOutput {
    pub binding: TagBinding,
    pub tag_enum: Option<EnumDecl>,
}

/// Mathematical value of a `TagOutput`.
#[verifier::ext_equal]
pub struct TagOutputView {
    pub binding: TagBindingView,
    pub tag_enum: Option<EnumDeclView>,
}

impl View for TagOutput {
    type V = TagOutputView;

    open spec fn view(&self) -> TagOutputView {
        TagOutputView {
            binding: self.binding@,
            tag_enum: match &self.tag_enum {
                Option::Some(e) => Option::Some(e@),
                Option::None => Option::None,
            },
        }
    }
}

/// The name a generated tag enumeration defaults to: the union's own
/// name with `Tag` appended.
pub open spec fn spec_default_tag_name(id: IdentView) -> IdentView {
    IdentView { name: id.name + "Tag"@, span: 0 }
}

/// The tag specification after defaulting: absent means generating a
/// tag enumeration under the default name.
pub open spec fn spec_resolve_tag(ts: Option<TagSpecView>, enum_ident: IdentView) -> TagSpecView {
    match ts {
        Option::Some(t) => t,
        Option::None => TagSpecView::Generate(spec_default_tag_name(enum_ident)),
    }
}

/// The synthesized tag enumeration: the union's visibility, the chosen
/// name, and one bare case per variant identifier, in order.
pub open spec fn spec_tag_enum(d: EnumDeclView, name: IdentView) -> EnumDeclView {
    EnumDeclView {
        attrs: Seq::empty(),
        vis: d.vis,
        ident: name,
        variants: Seq::new(
            d.variants.len(),
            |i: int| VariantView {
                attrs: Seq::empty(),
                ident: d.variants[i].ident,
                fields: FieldsView::Unit,
                disc: Option::None,
            },
        ),
    }
}

/// The first attribute that triggers the tag pipeline, if any.
pub open spec fn spec_find_tagged(attrs: Seq<MetaView>) -> Option<MetaView>
    decreases attrs.len(),
{
    if attrs.len() == 0 {
        Option::None
    } else if spec_meta_is(attrs[0], "tagged"@) {
        Option::Some(attrs[0])
    } else {
        spec_find_tagged(attrs.drop_first())
    }
}

/// What the tag pipeline emits for a union declaration: a diagnostic
/// when the triggering attribute is missing or malformed, else the
/// capability binding, together with the generated tag enumeration
/// unless an existing one was named.
pub open spec fn spec_tagged_doit(d: EnumDeclView) -> Result<TagOutputView, EngineError> {
    match spec_find_tagged(d.attrs) {
        Option::None => Result::Err(EngineError::MissingTaggedAttribute),
        Option::Some(m) => match m {
            MetaView::List { path: _, args, span: _ } => match spec_parse_config(args, true) {
                Result::Err(e) => Result::Err(e),
                Result::Ok(cfg) => {
                    let tag = spec_resolve_tag(cfg.tag_spec, d.ident);
                    Result::Ok(
                        TagOutputView {
                            binding: TagBindingView { enum_ident: d.ident, tag },
                            tag_enum: match tag {
                                TagSpecView::Generate(name) => Option::Some(
                                    spec_tag_enum(d, name),
                                ),
                                TagSpecView::Existing(_) => Option::None,
                            },
                        },
                    )
                },
            },
            _ => Result::Err(
                EngineError::BadShape {
                    key: crate::common::ConfigKey::Tag,
                    span: spec_meta_span(m),
                },
            ),
        },
    }
}

/// Appends `Tag` to the union's name to form the default tag name.
pub fn default_tag_name(id: &Ident) -> (r: Ident)
    ensures
        r@ == spec_default_tag_name(id@),
{
    let mut name = id.name.clone();
    name.append("Tag");
    Ident { name, span: 0 }
}

/// Finds the first attribute that triggers the tag pipeline.
#[verifier::loop_isolation(false)]
fn find_tagged(attrs: &Vec<Meta>) -> (r: Option<usize>)
    ensures
        match r {
            Option::Some(i) => i < attrs@.len() && spec_find_tagged(view_meta_seq(attrs@))
                == Option::Some(view_meta(attrs@[i as int])),
            Option::None => spec_find_tagged(view_meta_seq(attrs@)) is None,
        },
{
    let ghost full = view_meta_seq(attrs@);
    proof {
        crate::ast::lemma_view_meta_seq(attrs@);
        assert(full.skip(0) =~= full);
    }
    let mut k: usize = 0;
    while k < attrs.len()
        invariant
            k <= attrs.len(),
            spec_find_tagged(full) == spec_find_tagged(full.skip(k as int)),
        decreases attrs.len() - k,
    {
        proof {
            assert(full.skip(k as int)[0] == view_meta(attrs@[k as int]));
            assert(full.skip(k as int).drop_first() =~= full.skip(k as int + 1));
        }
        if meta_path_is(&attrs[k], "tagged") {
            return Option::Some(k);
        }
        k += 1;
    }
    proof {
        assert(full.skip(attrs@.len() as int) =~= Seq::<MetaView>::empty());
    }
    Option::None
}

/// Runs the tag pipeline on a union declaration.
#[verifier::loop_isolation(false)]
pub fn doit(decl: &EnumDecl) -> (r: Result<TagOutput, EngineError>)
    ensures
        match r {
            Result::Ok(out) => spec_tagged_doit(decl@) == Result::<
                TagOutputView,
                EngineError,
            >::Ok(out@),
            Result::Err(e) => spec_tagged_doit(decl@) == Result::<
                TagOutputView,
                EngineError,
            >::Err(e),
        },
{
    let idx = match find_tagged(&decl.attrs) {
        Option::Some(i) => i,
        Option::None => {
            return Result::Err(EngineError::MissingTaggedAttribute);
        },
    };
    let attr = &decl.attrs[idx];
    let args = match attr {
        Meta::List { path: _, args, span: _ } => args,
        Meta::Path(p) => {
            return Result::Err(
                EngineError::BadShape { key: crate::common::ConfigKey::Tag, span: p.span },
            );
        },
        Meta::NameValue { path: _, value: _, span } => {
            return Result::Err(
                EngineError::BadShape { key: crate::common::ConfigKey::Tag, span: *span },
            );
        },
        Meta::Opaque { handle: _, span } => {
            return Result::Err(
                EngineError::BadShape { key: crate::common::ConfigKey::Tag, span: *span },
            );
        },
    };
    let cfg = match parse_config(args, true) {
        Result::Ok(c) => c,
        Result::Err(e) => {
            return Result::Err(e);
        },
    };
    let tag: TagSpec = match cfg.tag_spec {
        Option::Some(t) => t,
        Option::None => TagSpec::Generate(default_tag_name(&decl.ident)),
    };
    let out = match &tag {
        TagSpec::Existing(_) => TagOutput {
            binding: TagBinding { enum_ident: clone_ident(&decl.ident), tag },
            tag_enum: Option::None,
        },
        TagSpec::Generate(name) => {
            let mut variants: Vec<Variant> = Vec::new();
            let mut k: usize = 0;
            while k < decl.variants.len()
                invariant
                    k <= decl.variants.len(),
                    variants@.len() == k,
                    forall|j: int|
                        0 <= j < k ==> #[trigger] variants@[j]@ == (VariantView {
                            attrs: Seq::<MetaView>::empty(),
                            ident: decl@.variants[j].ident,
                            fields: FieldsView::Unit,
                            disc: Option::None,
                        }),
                decreases decl.variants.len() - k,
            {
                let nv = Variant {
                    attrs: Vec::new(),
                    ident: clone_ident(&decl.variants[k].ident),
                    fields: Fields::Unit,
                    disc: Option::None,
                };
                proof {
                    assert(nv@.attrs =~= Seq::<MetaView>::empty());
                    assert(nv@ =~= (VariantView {
                        attrs: Seq::<MetaView>::empty(),
                        ident: decl@.variants[k as int].ident,
                        fields: FieldsView::Unit,
                        disc: Option::None,
                    }));
                }
                variants.push(nv);
                k += 1;
            }
            let generated = EnumDecl {
                attrs: Vec::new(),
                vis: decl.vis,
                ident: clone_ident(name),
                variants,
            };
            proof {
                assert(generated@.attrs =~= Seq::<MetaView>::empty());
                assert(generated@ =~~= spec_tag_enum(decl@, name@));
            }
            TagOutput {
                binding: TagBinding { enum_ident: clone_ident(&decl.ident), tag },
                tag_enum: Option::Some(generated),
            }
        },
    };
    proof {
        assert(spec_tagged_doit(decl@) matches Result::Ok(o) && o =~~= out@);
    }
    Result::Ok(out)
}


} // verus!
