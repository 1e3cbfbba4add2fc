//! Shared pieces of the engine: the diagnostic type, keyword
//! recognition for the configuration mini-language, path helpers, the
//! identifier mapper and the constructors of the emitted conversion and
//! tag bindings.

use vstd::prelude::*;
use vstd::string::StringExecFns;

use crate::ast::{
    clone_ident, clone_typeref, Ident, IdentView, Meta, MetaView, Path, PathView, TypeRef,
    TypeRefView,
};

verus! {

/// The recognized configuration keys.
#[derive(Debug, PartialEq, Eq, Clone, Copy)]
pub enum ConfigKey {
    Prefix,
    Suffix,
    NoImpl,
    Style,
    DeriveExclude,
    Tag,
}

/// A structured diagnostic.  Every error is fatal to the current
/// expansion; the glue renders each variant as a compiler error anchored
/// to the spans carried here.
#[derive(Debug, PartialEq, Eq, Clone, Copy)]
pub enum EngineError {
    /// A path stood where a bare identifier is required.
    NotBareIdent { span: u32 },
    /// An argument key that no grammar recognizes.
    UnknownKey { span: u32 },
    /// A recognized key with an argument shape its grammar rejects.
    BadShape { key: ConfigKey, span: u32 },
    /// The same key supplied twice; both occurrences are referenced.
    DuplicateKey { key: ConfigKey, first_span: u32, second_span: u32 },
    /// A variant with named fields where only unit or single-field
    /// variants are accepted.
    NamedFieldsUnsupported { span: u32 },
    /// A tuple-like variant whose field count is not exactly one.
    WrongUnnamedCount { span: u32 },
    /// A forwarding attribute that is not of the form `attribute(...)`
    /// with exactly one inner argument.
    BadForwardAttribute { span: u32 },
    /// A derive attribute whose list is not a comma-separated sequence
    /// of paths.
    MalformedDeriveList { span: u32 },
    /// The tag pipeline was invoked on a union without its triggering
    /// attribute.
    MissingTaggedAttribute,
}

/// True when the string equals the given keyword.
pub fn str_is(a: &String, b: &str) -> (r: bool)
    ensures
        r == (a@ == b@),
{
    let owned: String = String::from_str(b);
    *a == owned
}

/// The configuration key a name denotes, if any.
pub open spec fn spec_key_of(name: Seq<char>) -> Option<ConfigKey> {
    if name == "prefix"@ {
        Option::Some(ConfigKey::Prefix)
    } else if name == "suffix"@ {
        Option::Some(ConfigKey::Suffix)
    } else if name == "no_impl"@ {
        Option::Some(ConfigKey::NoImpl)
    } else if name == "style"@ {
        Option::Some(ConfigKey::Style)
    } else if name == "derive_exclude"@ {
        Option::Some(ConfigKey::DeriveExclude)
    } else if name == "tag"@ {
        Option::Some(ConfigKey::Tag)
    } else {
        Option::None
    }
}

/// Recognizes a configuration key.
pub fn key_of(name: &String) -> (r: Option<ConfigKey>)
    ensures
        r == spec_key_of(name@),
{
    if str_is(name, "prefix") {
        Option::Some(ConfigKey::Prefix)
    } else if str_is(name, "suffix") {
        Option::Some(ConfigKey::Suffix)
    } else if str_is(name, "no_impl") {
        Option::Some(ConfigKey::NoImpl)
    } else if str_is(name, "style") {
        Option::Some(ConfigKey::Style)
    } else if str_is(name, "derive_exclude") {
        Option::Some(ConfigKey::DeriveExclude)
    } else if str_is(name, "tag") {
        Option::Some(ConfigKey::Tag)
    } else {
        Option::None
    }
}

/// The single identifier of a path, or the diagnostic demanding one.
pub open spec fn spec_path_id(p: PathView) -> Result<IdentView, EngineError> {
    if p.segments.len() == 1 {
        Result::Ok(p.segments[0])
    } else {
        Result::Err(EngineError::NotBareIdent { span: p.span })
    }
}

/// Requires a path to be a bare identifier.
pub fn path_id(path: &Path) -> (r: Result<&Ident, EngineError>)
    ensures
        match r {
            Result::Ok(id) => spec_path_id(path@) == Result::<IdentView, EngineError>::Ok(id@),
            Result::Err(e) => spec_path_id(path@) == Result::<IdentView, EngineError>::Err(e),
        },
{
    if path.segments.len() == 1 {
        Result::Ok(&path.segments[0])
    } else {
        Result::Err(EngineError::NotBareIdent { span: path.span })
    }
}

/// The path of an argument, where it has one.
pub open spec fn spec_meta_path(m: MetaView) -> Option<PathView> {
    match m {
        MetaView::Path(p) => Option::Some(p),
        MetaView::List { path, .. } => Option::Some(path),
        MetaView::NameValue { path, .. } => Option::Some(path),
        MetaView::Opaque { .. } => Option::None,
    }
}

/// The span an argument is anchored to.
pub open spec fn spec_meta_span(m: MetaView) -> u32 {
    match m {
        MetaView::Path(p) => p.span,
        MetaView::List { span, .. } => span,
        MetaView::NameValue { span, .. } => span,
        MetaView::Opaque { span, .. } => span,
    }
}

/// The key identifier of one argument, or the diagnostic demanding one.
pub open spec fn spec_ident_of(m: MetaView) -> Result<IdentView, EngineError> {
    match spec_meta_path(m) {
        Option::Some(p) => spec_path_id(p),
        Option::None => Result::Err(
            EngineError::NotBareIdent { span: spec_meta_span(m) },
        ),
    }
}

/// Requires an argument to be keyed by a bare identifier.
pub fn ident(arg: &Meta) -> (r: Result<&Ident, EngineError>)
    ensures
        match r {
            Result::Ok(id) => spec_ident_of(arg@) == Result::<IdentView, EngineError>::Ok(id@),
            Result::Err(e) => spec_ident_of(arg@) == Result::<IdentView, EngineError>::Err(e),
        },
{
    match arg {
        Meta::Path(p) => path_id(p),
        Meta::List { path, .. } => path_id(path),
        Meta::NameValue { path, .. } => path_id(path),
        Meta::Opaque { handle: _, span } => Result::Err(
            EngineError::NotBareIdent { span: *span },
        ),
    }
}

/// The identifier synthesized for a generated declaration:
/// prefix, then the variant identifier, then suffix.
pub open spec fn spec_map_ident(prefix: Seq<char>, suffix: Seq<char>, id: Seq<char>) -> Seq<char> {
    prefix + id + suffix
}

/// Synthesizes the identifier of a generated declaration by
/// concatenation; the result carries a synthetic span.
pub fn map_ident(prefix: &String, suffix: &String, id: &Ident) -> (r: Ident)
    ensures
        r@.name == spec_map_ident(prefix@, suffix@, id@.name),
        r@.span == 0,
{
    let mut name: String = prefix.clone();
    name.append(id.name.as_str());
    name.append(suffix.as_str());
    Ident { name, span: 0 }
}

/// The identifier mapper is a pure function of prefix, suffix and
/// variant identifier: equal inputs always yield the same generated
/// identifier, whatever else happened before.
pub proof fn lemma_map_ident_deterministic(
    p1: Seq<char>,
    s1: Seq<char>,
    i1: Seq<char>,
    p2: Seq<char>,
    s2: Seq<char>,
    i2: Seq<char>,
)
    requires
        p1 == p2,
        s1 == s2,
        i1 == i2,
    ensures
        spec_map_ident(p1, s1, i1) == spec_map_ident(p2, s2, i2),
{
}

/// One variant in canonical shape: its identifier and the single
/// payload type it stands for.  A unit variant's payload is the
/// synthetic unit type sharing the variant's identifier.
#[derive(Debug, PartialEq, Eq)]
pub struct WrappedVariant {
    pub id: Ident,
    pub ty: TypeRef,
}

/// Mathematical value of a `WrappedVariant`.
#[verifier::ext_equal]
pub struct WrappedVariantView {
    pub id: IdentView,
    pub ty: TypeRefView,
}

impl View for WrappedVariant {
    type V = WrappedVariantView;

    open spec fn view(&self) -> WrappedVariantView {
        WrappedVariantView { id: self.id@, ty: self.ty@ }
    }
}

/// One emitted conversion pair: the embedding `From<payload>` for the
/// union and the projection `TryFrom<union>` for the payload, with the
/// union value itself as the projection's error type.
#[derive(Debug, PartialEq, Eq)]
pub struct ConversionPair {
    pub enum_ident: Ident,
    pub variant_ident: Ident,
    pub payload: TypeRef,
}

/// Mathematical value of a `ConversionPair`.
#[verifier::ext_equal]
pub struct ConversionPairView {
    pub enum_ident: IdentView,
    pub variant_ident: IdentView,
    pub payload: TypeRefView,
}

impl View for ConversionPair {
    type V = ConversionPairView;

    open spec fn view(&self) -> ConversionPairView {
        ConversionPairView {
            enum_ident: self.enum_ident@,
            variant_ident: self.variant_ident@,
            payload: self.payload@,
        }
    }
}

/// Builds the conversion pair for one variant of the union.
pub fn generate_conversion_impl(ident: &Ident, id: &Ident, ty: &TypeRef) -> (r: ConversionPair)
    ensures
        r@.enum_ident == ident@,
        r@.variant_ident == id@,
        r@.payload == ty@,
{
    ConversionPair {
        enum_ident: clone_ident(ident),
        variant_ident: clone_ident(id),
        payload: clone_typeref(ty),
    }
}

/// One emitted capability binding: the payload type is declared a
/// variant of the union, identified by the tag constant named after the
/// variant.
#[derive(Debug, PartialEq, Eq)]
pub struct VariantOfBinding {
    pub enum_ident: Ident,
    pub variant_ident: Ident,
    pub payload: TypeRef,
}

/// Mathematical value of a `VariantOfBinding`.
#[verifier::ext_equal]
pub struct VariantOfBindingView {
    pub enum_ident: IdentView,
    pub variant_ident: IdentView,
    pub payload: TypeRefView,
}

impl View for VariantOfBinding {
    type V = VariantOfBindingView;

    open spec fn view(&self) -> VariantOfBindingView {
        VariantOfBindingView {
            enum_ident: self.enum_ident@,
            variant_ident: self.variant_ident@,
            payload: self.payload@,
        }
    }
}

/// Builds the tag capability binding for one variant of the union.
pub fn generate_variant_of_impl(ident: &Ident, id: &Ident, ty: &TypeRef) -> (r: VariantOfBinding)
    ensures
        r@.enum_ident == ident@,
        r@.variant_ident == id@,
        r@.payload == ty@,
{
    VariantOfBinding {
        enum_ident: clone_ident(ident),
        variant_ident: clone_ident(id),
        payload: clone_typeref(ty),
    }
}


/// Whether an argument's path is exactly the given one-word name.
pub open spec fn spec_meta_is(m: MetaView, kw: Seq<char>) -> bool {
    match spec_meta_path(m) {
        Option::Some(p) => p.segments.len() == 1 && p.segments[0].name == kw,
        Option::None => false,
    }
}

/// Tests whether an argument's path is exactly the given one-word name.
pub fn meta_path_is(m: &Meta, kw: &str) -> (r: bool)
    ensures
        r == spec_meta_is(m@, kw@),
{
    match m {
        Meta::Path(p) => path_is(p, kw),
        Meta::List { path, .. } => path_is(path, kw),
        Meta::NameValue { path, .. } => path_is(path, kw),
        Meta::Opaque { .. } => false,
    }
}

/// Tests whether a path is exactly the given one-word name.
pub fn path_is(p: &Path, kw: &str) -> (r: bool)
    ensures
        r == (p@.segments.len() == 1 && p@.segments[0].name == kw@),
{
    p.segments.len() == 1 && str_is(&p.segments[0].name, kw)
}

/// Whether two paths name the same thing: the same segment names, in
/// order, wherever in the source either of them stands.
pub open spec fn spec_path_matches(a: PathView, b: PathView) -> bool {
    a.segments.len() == b.segments.len() && (forall|i: int|
        0 <= i < a.segments.len() ==> #[trigger] a.segments[i].name == b.segments[i].name)
}

/// Tests whether two paths name the same thing.
pub fn path_matches(a: &Path, b: &Path) -> (r: bool)
    ensures
        r == spec_path_matches(a@, b@),
{
    if a.segments.len() != b.segments.len() {
        return false;
    }
    let mut k: usize = 0;
    while k < a.segments.len()
        invariant
            k <= a.segments.len(),
            a.segments@.len() == b.segments@.len(),
            forall|i: int| 0 <= i < k ==> #[trigger] a.segments@[i]@.name == b.segments@[i]@.name,
        decreases a.segments.len() - k,
    {
        if !(a.segments[k].name == b.segments[k].name) {
            proof {
                assert(a@.segments[k as int].name != b@.segments[k as int].name);
            }
            return false;
        }
        k += 1;
    }
    true
}

/// Whether a path names the same thing as some member of the set.
pub open spec fn spec_path_in(set: Seq<PathView>, p: PathView) -> bool {
    exists|i: int| 0 <= i < set.len() && spec_path_matches(#[trigger] set[i], p)
}

/// Tests whether a path names the same thing as some member of the set.
pub fn path_in(set: &Vec<Path>, p: &Path) -> (r: bool)
    ensures
        r == spec_path_in(Seq::new(set@.len(), |i: int| set@[i]@), p@),
{
    let ghost sv = Seq::new(set@.len(), |i: int| set@[i]@);
    let mut k: usize = 0;
    while k < set.len()
        invariant
            k <= set.len(),
            sv == Seq::new(set@.len(), |i: int| set@[i]@),
            forall|i: int| 0 <= i < k ==> !spec_path_matches(#[trigger] sv[i], p@),
        decreases set.len() - k,
    {
        if path_matches(&set[k], p) {
            proof {
                assert(spec_path_matches(sv[k as int], p@));
            }
            return true;
        }
        k += 1;
    }
    false
}

} // verus!
