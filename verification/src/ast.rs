//! Model of the host-language syntax fragments the engine reads and writes.
//!
//! The engine never sees host tokens.  The glue around it converts the
//! host syntax tree into these plain values (and back); pieces the engine
//! only carries through unchanged are kept behind opaque handles into a
//! side table owned by the glue.

use vstd::prelude::*;

verus! {

/// An identifier, with the handle of its source span.
#[derive(Debug, PartialEq, Eq)]
pub struct Ident {
    pub name: String,
    pub span: u32,
}

/// Mathematical value of an `Ident`.
#[verifier::ext_equal]
pub struct IdentView {
    pub name: Seq<char>,
    pub span: u32,
}

impl View for Ident {
    type V = IdentView;

    open spec fn view(&self) -> IdentView {
        IdentView { name: self.name@, span: self.span }
    }
}

/// A plain path: one or more identifiers separated by `::`.
#[derive(Debug, PartialEq, Eq)]
pub struct Path {
    pub segments: Vec<Ident>,
    pub span: u32,
}

/// Mathematical value of a `Path`.
#[verifier::ext_equal]
pub struct PathView {
    pub segments: Seq<IdentView>,
    pub span: u32,
}

impl View for Path {
    type V = PathView;

    open spec fn view(&self) -> PathView {
        PathView { segments: Seq::new(self.segments@.len(), |i: int| self.segments@[i]@), span: self.span }
    }
}

/// A literal, as far as the engine inspects literals; anything else is
/// carried through as `Opaque` with a handle into the glue's side table.
#[derive(Debug, PartialEq, Eq)]
pub enum Lit {
    Str { value: String, span: u32 },
    Bool { value: bool, span: u32 },
    Int { value: u64, span: u32 },
    Opaque { handle: u32, span: u32 },
}

/// Mathematical value of a `Lit`.
#[verifier::ext_equal]
pub enum LitView {
    Str { value: Seq<char>, span: u32 },
    Bool { value: bool, span: u32 },
    Int { value: u64, span: u32 },
    Opaque { handle: u32, span: u32 },
}

impl View for Lit {
    type V = LitView;

    open spec fn view(&self) -> LitView {
        match self {
            Lit::Str { value, span } => LitView::Str { value: value@, span: *span },
            Lit::Bool { value, span } => LitView::Bool { value: *value, span: *span },
            Lit::Int { value, span } => LitView::Int { value: *value, span: *span },
            Lit::Opaque { handle, span } => LitView::Opaque { handle: *handle, span: *span },
        }
    }
}

/// One attribute argument, or the content of one attribute: a bare path,
/// a parenthesized list, or `path = literal`.  A list payload that is not
/// itself a comma-separated sequence of these shapes arrives as a single
/// `Opaque` entry.
#[derive(Debug, PartialEq, Eq)]
pub enum Meta {
    Path(Path),
    List { path: Path, args: Vec<Meta>, span: u32 },
    NameValue { path: Path, value: Lit, span: u32 },
    Opaque { handle: u32, span: u32 },
}

/// Mathematical value of a `Meta`.
#[verifier::ext_equal]
pub enum MetaView {
    Path(PathView),
    List { path: PathView, args: Seq<MetaView>, span: u32 },
    NameValue { path: PathView, value: LitView, span: u32 },
    Opaque { handle: u32, span: u32 },
}

/// The view of one `Meta`, recursively through list arguments.
pub open spec fn view_meta(m: Meta) -> MetaView
    decreases m,
{
    match m {
        Meta::Path(p) => MetaView::Path(p@),
        Meta::List { path, args, span } => MetaView::List {
            path: path@,
            args: view_meta_seq(args@),
            span,
        },
        Meta::NameValue { path, value, span } => MetaView::NameValue {
            path: path@,
            value: value@,
            span,
        },
        Meta::Opaque { handle, span } => MetaView::Opaque { handle, span },
    }
}

/// The views of a sequence of `Meta`s, element by element.
pub open spec fn view_meta_seq(s: Seq<Meta>) -> Seq<MetaView>
    decreases s,
{
    if s.len() == 0 {
        Seq::empty()
    } else {
        seq![view_meta(s[0])] + view_meta_seq(s.drop_first())
    }
}

impl View for Meta {
    type V = MetaView;

    open spec fn view(&self) -> MetaView {
        view_meta(*self)
    }
}

/// A type reference.  The engine only ever builds plain paths itself;
/// any other type it merely carries through, behind a handle.
#[derive(Debug, PartialEq, Eq)]
pub enum TypeRef {
    Path(Path),
    Opaque { handle: u32, span: u32 },
}

/// Mathematical value of a `TypeRef`.
#[verifier::ext_equal]
pub enum TypeRefView {
    Path(PathView),
    Opaque { handle: u32, span: u32 },
}

impl View for TypeRef {
    type V = TypeRefView;

    open spec fn view(&self) -> TypeRefView {
        match self {
            TypeRef::Path(p) => TypeRefView::Path(p@),
            TypeRef::Opaque { handle, span } => TypeRefView::Opaque { handle: *handle, span: *span },
        }
    }
}

/// One named field of a variant or record.
#[derive(Debug, PartialEq, Eq)]
pub struct FieldDef {
    pub name: Ident,
    pub ty: TypeRef,
}

/// Mathematical value of a `FieldDef`.
#[verifier::ext_equal]
pub struct FieldDefView {
    pub name: IdentView,
    pub ty: TypeRefView,
}

impl View for FieldDef {
    type V = FieldDefView;

    open spec fn view(&self) -> FieldDefView {
        FieldDefView { name: self.name@, ty: self.ty@ }
    }
}

/// The field shape of a variant or record: no fields, unnamed fields in
/// parentheses, or named fields in braces.  The span covers the field
/// list itself.
#[derive(Debug, PartialEq, Eq)]
pub enum Fields {
    Unit,
    Unnamed { tys: Vec<TypeRef>, span: u32 },
    Named { fields: Vec<FieldDef>, span: u32 },
}

/// Mathematical value of a `Fields`.
#[verifier::ext_equal]
pub enum FieldsView {
    Unit,
    Unnamed { tys: Seq<TypeRefView>, span: u32 },
    Named { fields: Seq<FieldDefView>, span: u32 },
}

impl View for Fields {
    type V = FieldsView;

    open spec fn view(&self) -> FieldsView {
        match self {
            Fields::Unit => FieldsView::Unit,
            Fields::Unnamed { tys, span } => FieldsView::Unnamed {
                tys: Seq::new(tys@.len(), |i: int| tys@[i]@),
                span: *span,
            },
            Fields::Named { fields, span } => FieldsView::Named {
                fields: Seq::new(fields@.len(), |i: int| fields@[i]@),
                span: *span,
            },
        }
    }
}

/// Visibility of a declaration, carried through unchanged; anything
/// beyond the two common cases sits behind a handle.
#[derive(Debug, PartialEq, Eq, Clone, Copy)]
pub enum Vis {
    Public,
    Inherited,
    Opaque { handle: u32 },
}

/// One arm of the input union: identifier, attribute list, field shape
/// and optional discriminant.
#[derive(Debug, PartialEq, Eq)]
pub struct Variant {
    pub attrs: Vec<Meta>,
    pub ident: Ident,
    pub fields: Fields,
    pub disc: Option<Lit>,
}

/// Mathematical value of a `Variant`.
#[verifier::ext_equal]
pub struct VariantView {
    pub attrs: Seq<MetaView>,
    pub ident: IdentView,
    pub fields: FieldsView,
    pub disc: Option<LitView>,
}

impl View for Variant {
    type V = VariantView;

    open spec fn view(&self) -> VariantView {
        VariantView {
            attrs: view_meta_seq(self.attrs@),
            ident: self.ident@,
            fields: self.fields@,
            disc: match self.disc {
                Option::Some(l) => Option::Some(l@),
                Option::None => Option::None,
            },
        }
    }
}

/// One tagged-union declaration: the engine's input, and the rewritten
/// union in its output.
#[derive(Debug, PartialEq, Eq)]
pub struct EnumDecl {
    pub attrs: Vec<Meta>,
    pub vis: Vis,
    pub ident: Ident,
    pub variants: Vec<Variant>,
}

/// Mathematical value of an `EnumDecl`.
#[verifier::ext_equal]
pub struct EnumDeclView {
    pub attrs: Seq<MetaView>,
    pub vis: Vis,
    pub ident: IdentView,
    pub variants: Seq<VariantView>,
}

impl View for EnumDecl {
    type V = EnumDeclView;

    open spec fn view(&self) -> EnumDeclView {
        EnumDeclView {
            attrs: view_meta_seq(self.attrs@),
            vis: self.vis,
            ident: self.ident@,
            variants: Seq::new(self.variants@.len(), |i: int| self.variants@[i]@),
        }
    }
}

/// A standalone record declaration generated for one variant.
#[derive(Debug, PartialEq, Eq)]
pub struct RecordDecl {
    pub attrs: Vec<Meta>,
    pub vis: Vis,
    pub ident: Ident,
    pub fields: Fields,
}

/// Mathematical value of a `RecordDecl`.
#[verifier::ext_equal]
pub struct RecordDeclView {
    pub attrs: Seq<MetaView>,
    pub vis: Vis,
    pub ident: IdentView,
    pub fields: FieldsView,
}

impl View for RecordDecl {
    type V = RecordDeclView;

    open spec fn view(&self) -> RecordDeclView {
        RecordDeclView {
            attrs: view_meta_seq(self.attrs@),
            vis: self.vis,
            ident: self.ident@,
            fields: self.fields@,
        }
    }
}

/// Copy of an identifier, value for value.
pub fn clone_ident(i: &Ident) -> (r: Ident)
    ensures
        r@ == i@,
{
    Ident { name: i.name.clone(), span: i.span }
}

/// Copy of a path, value for value.
pub fn clone_path(p: &Path) -> (r: Path)
    ensures
        r@ == p@,
{
    let mut segments: Vec<Ident> = Vec::new();
    let mut k: usize = 0;
    while k < p.segments.len()
        invariant
            k <= p.segments.len(),
            segments@.len() == k,
            forall|j: int| 0 <= j < k ==> segments@[j]@ == p.segments@[j]@,
        decreases p.segments.len() - k,
    {
        segments.push(clone_ident(&p.segments[k]));
        k += 1;
    }
    let r = Path { segments, span: p.span };
    assert(r@.segments =~= p@.segments);
    r
}

/// Copy of a literal, value for value.
pub fn clone_lit(l: &Lit) -> (r: Lit)
    ensures
        r@ == l@,
{
    match l {
        Lit::Str { value, span } => Lit::Str { value: value.clone(), span: *span },
        Lit::Bool { value, span } => Lit::Bool { value: *value, span: *span },
        Lit::Int { value, span } => Lit::Int { value: *value, span: *span },
        Lit::Opaque { handle, span } => Lit::Opaque { handle: *handle, span: *span },
    }
}

/// Copy of an attribute argument, value for value.
#[verifier::loop_isolation(false)]
pub fn clone_meta(m: &Meta) -> (r: Meta)
    ensures
        r@ == m@,
    decreases m,
{
    match m {
        Meta::Path(p) => Meta::Path(clone_path(p)),
        Meta::List { path, args, span } => {
            let mut out: Vec<Meta> = Vec::new();
            let mut k: usize = 0;
            while k < args.len()
                invariant
                    k <= args.len(),
                    out@.len() == k,
                    forall|j: int| 0 <= j < k ==> out@[j]@ == args@[j]@,
                decreases args.len() - k,
        {
                proof {
                    assert(decreases_to!(*m => m->List_args));
                    assert(decreases_to!(m->List_args => m->List_args@));
                    assert(m->List_args == *args);
                    assert(decreases_to!(args@ => args@[k as int]));
                }
                out.push(clone_meta(&args[k]));
                k += 1;
            }
            proof {
                lemma_view_meta_seq(out@);
                lemma_view_meta_seq(args@);
                assert(view_meta_seq(out@) =~= view_meta_seq(args@));
            }
            Meta::List { path: clone_path(path), args: out, span: *span }
        }
        Meta::NameValue { path, value, span } => Meta::NameValue {
            path: clone_path(path),
            value: clone_lit(value),
            span: *span,
        },
        Meta::Opaque { handle, span } => Meta::Opaque { handle: *handle, span: *span },
    }
}

/// Copy of an attribute list, value for value.
pub fn clone_metas(v: &Vec<Meta>) -> (r: Vec<Meta>)
    ensures
        view_meta_seq(r@) == view_meta_seq(v@),
{
    let mut out: Vec<Meta> = Vec::new();
    let mut k: usize = 0;
    while k < v.len()
        invariant
            k <= v.len(),
            out@.len() == k,
            forall|j: int| 0 <= j < k ==> out@[j]@ == v@[j]@,
        decreases v.len() - k,
    {
        out.push(clone_meta(&v[k]));
        k += 1;
    }
    proof {
        lemma_view_meta_seq(out@);
        lemma_view_meta_seq(v@);
        assert(view_meta_seq(out@) =~= view_meta_seq(v@));
    }
    out
}

/// Copy of a type reference, value for value.
pub fn clone_typeref(t: &TypeRef) -> (r: TypeRef)
    ensures
        r@ == t@,
{
    match t {
        TypeRef::Path(p) => TypeRef::Path(clone_path(p)),
        TypeRef::Opaque { handle, span } => TypeRef::Opaque { handle: *handle, span: *span },
    }
}

/// Copy of a field shape, value for value.
pub fn clone_fields(f: &Fields) -> (r: Fields)
    ensures
        r@ == f@,
{
    match f {
        Fields::Unit => Fields::Unit,
        Fields::Unnamed { tys, span } => {
            let mut out: Vec<TypeRef> = Vec::new();
            let mut k: usize = 0;
            while k < tys.len()
                invariant
                    k <= tys.len(),
                    out@.len() == k,
                    forall|j: int| 0 <= j < k ==> out@[j]@ == tys@[j]@,
                decreases tys.len() - k,
            {
                out.push(clone_typeref(&tys[k]));
                k += 1;
            }
            let r = Fields::Unnamed { tys: out, span: *span };
            assert(r@ =~= f@);
            r
        }
        Fields::Named { fields, span } => {
            let mut out: Vec<FieldDef> = Vec::new();
            let mut k: usize = 0;
            while k < fields.len()
                invariant
                    k <= fields.len(),
                    out@.len() == k,
                    forall|j: int| 0 <= j < k ==> out@[j]@ == fields@[j]@,
                decreases fields.len() - k,
            {
                out.push(FieldDef {
                    name: clone_ident(&fields[k].name),
                    ty: clone_typeref(&fields[k].ty),
                });
                k += 1;
            }
            let r = Fields::Named { fields: out, span: *span };
            assert(r@ =~= f@);
            r
        }
    }
}

/// Copy of a variant, value for value.
pub fn clone_variant(v: &Variant) -> (r: Variant)
    ensures
        r@ == v@,
{
    Variant {
        attrs: clone_metas(&v.attrs),
        ident: clone_ident(&v.ident),
        fields: clone_fields(&v.fields),
        disc: match &v.disc {
            Option::Some(l) => Option::Some(clone_lit(l)),
            Option::None => Option::None,
        },
    }
}

/// `view_meta_seq` is the element-wise map of `view_meta`.
pub proof fn lemma_view_meta_seq(s: Seq<Meta>)
    ensures
        view_meta_seq(s).len() == s.len(),
        forall|i: int| 0 <= i < s.len() ==> view_meta_seq(s)[i] == view_meta(s[i]),
    decreases s,
{
    if s.len() > 0 {
        lemma_view_meta_seq(s.drop_first());
    }
}

} // verus!
