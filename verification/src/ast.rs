//! The declaration model the translator consumes.
//!
//! The front end that parses source text is an external collaborator: it
//! hands the translator one declaration at a time as plain data — a name, a
//! span, an attribute list and a kind-specific payload — together with the
//! pretty-printed text of patterns where a name has to be recovered. The
//! types of this module hold exactly that data, and each carries a
//! mathematical view (`...V`) over sequences of characters so that contracts
//! can speak about it.

use vstd::prelude::*;

use crate::Span;

verus! {

/// View of a list of strings as a sequence of character sequences.
pub open spec fn strs_view(v: Seq<String>) -> Seq<Seq<char>> {
    Seq::new(v.len(), |i: int| v[i]@)
}

/// What an attribute carries beside its name.
#[derive(Debug)]
pub enum AttrValue {
    /// A bare marker, `#[no_mangle]`.
    Word,
    /// A parenthesised list of words, `#[repr(C)]`.
    List(Vec<String>),
    /// A `name = "value"` pair, `#[doc = "..."]`.
    NameValue(String),
}

/// One attribute of a declaration.
#[derive(Debug)]
pub struct Attribute {
    pub name: String,
    pub value: AttrValue,
}

pub enum AttrValueV {
    Word,
    List(Seq<Seq<char>>),
    NameValue(Seq<char>),
}

pub struct AttributeV {
    pub name: Seq<char>,
    pub value: AttrValueV,
}

impl View for Attribute {
    type V = AttributeV;

    open spec fn view(&self) -> AttributeV {
        AttributeV {
            name: self.name@,
            value: match self.value {
                AttrValue::Word => AttrValueV::Word,
                AttrValue::List(l) => AttrValueV::List(strs_view(l@)),
                AttrValue::NameValue(s) => AttrValueV::NameValue(s@),
            },
        }
    }
}

/// View of an attribute list.
pub open spec fn attrs_view(v: Seq<Attribute>) -> Seq<AttributeV> {
    Seq::new(v.len(), |i: int| v[i]@)
}

/// Mutability of a raw pointer.
#[derive(Clone, Copy, Debug, PartialEq, Eq, Structural)]
pub enum Mutability {
    Immutable,
    Mutable,
}

/// Calling convention of an exported function.
#[derive(Clone, Copy, Debug, PartialEq, Eq, Structural)]
pub enum Abi {
    C,
    Cdecl,
    Stdcall,
    Fastcall,
    System,
    Rust,
    Other,
}

/// A type expression of the source language, as the front end delivers it.
#[derive(Debug)]
pub enum TyExpr {
    /// The unit type `()`.
    Unit,
    /// The diverging type `!`.
    Never,
    /// A (possibly module-qualified) named type, one string per segment.
    Path(Vec<String>),
    /// A raw pointer `*const T` or `*mut T`.
    Ptr(Box<TyExpr>, Mutability),
    /// A fixed-size array `[T; N]`; the element count plays no role in
    /// translation (arrays decay to pointers) and is not recorded.
    Array(Box<TyExpr>),
    /// A bare function-pointer type `fn(...) -> ...`.
    BareFn(Box<BareFnTy>),
    /// Any other shape, carried as its pretty-printed text.
    Other(String),
}

/// A bare function-pointer type.
#[derive(Debug)]
pub struct BareFnTy {
    /// Whether the type binds lifetimes (`for<'a> ...`).
    pub has_lifetimes: bool,
    pub decl: FnDecl,
}

/// A function signature: inputs and output.
#[derive(Debug)]
pub struct FnDecl {
    pub inputs: Vec<Arg>,
    pub output: FnRet,
}

/// The return type of a function signature.
#[derive(Debug)]
pub enum FnRet {
    /// No written return type (`-> ()` left implicit).
    Default,
    Ty(Box<TyExpr>),
}

/// One function argument.
#[derive(Debug)]
pub struct Arg {
    pub pat: Pat,
    pub ty: TyExpr,
}

/// An argument pattern: its pretty-printed text and whether it is a plain
/// by-value identifier binding.
#[derive(Debug)]
pub struct Pat {
    pub text: String,
    pub by_value_ident: bool,
}

pub enum TyExprV {
    Unit,
    Never,
    Path(Seq<Seq<char>>),
    Ptr(Box<TyExprV>, Mutability),
    Array(Box<TyExprV>),
    BareFn(Box<BareFnTyV>),
    Other(Seq<char>),
}

pub struct BareFnTyV {
    pub has_lifetimes: bool,
    pub decl: FnDeclV,
}

pub struct FnDeclV {
    pub inputs: Seq<ArgV>,
    pub output: FnRetV,
}

pub enum FnRetV {
    Default,
    Ty(Box<TyExprV>),
}

pub struct ArgV {
    pub pat: PatV,
    pub ty: TyExprV,
}

pub struct PatV {
    pub text: Seq<char>,
    pub by_value_ident: bool,
}

/// View of an argument list; recursive so that termination of the mutually
/// recursive type views is visible to the checker.
pub open spec fn args_view(inputs: Seq<Arg>) -> Seq<ArgV>
    decreases inputs,
{
    if inputs.len() == 0 {
        Seq::empty()
    } else {
        args_view(inputs.drop_last()).push(inputs.last().view())
    }
}

pub proof fn lemma_args_view(inputs: Seq<Arg>)
    ensures
        args_view(inputs).len() == inputs.len(),
        forall|i: int| 0 <= i < inputs.len() ==> #[trigger] args_view(inputs)[i] == inputs[i]@,
    decreases inputs.len(),
{
    if inputs.len() > 0 {
        lemma_args_view(inputs.drop_last());
        assert(args_view(inputs) == args_view(inputs.drop_last()).push(inputs.last()@));
        assert forall|i: int| 0 <= i < inputs.len() implies #[trigger] args_view(inputs)[i] == inputs[i]@ by {
            if i < inputs.len() - 1 {
                assert(inputs.drop_last()[i] == inputs[i]);
            }
        }
    }
}

impl View for TyExpr {
    type V = TyExprV;

    open spec fn view(&self) -> TyExprV
        decreases self,
    {
        match self {
            TyExpr::Unit => TyExprV::Unit,
            TyExpr::Never => TyExprV::Never,
            TyExpr::Path(segs) => TyExprV::Path(strs_view(segs@)),
            TyExpr::Ptr(inner, m) => TyExprV::Ptr(Box::new((**inner).view()), *m),
            TyExpr::Array(inner) => TyExprV::Array(Box::new((**inner).view())),
            TyExpr::BareFn(bf) => TyExprV::BareFn(Box::new((**bf).view())),
            TyExpr::Other(text) => TyExprV::Other(text@),
        }
    }
}

impl View for BareFnTy {
    type V = BareFnTyV;

    open spec fn view(&self) -> BareFnTyV
        decreases self,
    {
        BareFnTyV { has_lifetimes: self.has_lifetimes, decl: self.decl.view() }
    }
}

impl View for FnDecl {
    type V = FnDeclV;

    open spec fn view(&self) -> FnDeclV
        decreases self,
    {
        FnDeclV { inputs: args_view(self.inputs@), output: self.output.view() }
    }
}

impl View for FnRet {
    type V = FnRetV;

    open spec fn view(&self) -> FnRetV
        decreases self,
    {
        match self {
            FnRet::Default => FnRetV::Default,
            FnRet::Ty(ty) => FnRetV::Ty(Box::new((**ty).view())),
        }
    }
}

impl View for Arg {
    type V = ArgV;

    open spec fn view(&self) -> ArgV
        decreases self,
    {
        ArgV { pat: self.pat.view(), ty: self.ty.view() }
    }
}

impl View for Pat {
    type V = PatV;

    open spec fn view(&self) -> PatV {
        PatV { text: self.text@, by_value_ident: self.by_value_ident }
    }
}

/// One declaration, as the traversal of the module tree hands it over.
#[derive(Debug)]
pub struct Item {
    pub name: String,
    pub span: Span,
    pub attrs: Vec<Attribute>,
    pub node: ItemKind,
}

/// The kind-specific payload of a declaration. The boolean of each variant
/// says whether the declaration has generic parameters.
#[derive(Debug)]
pub enum ItemKind {
    /// `pub type A = B;` — the underlying type.
    Ty(Box<TyExpr>, bool),
    /// An enum — its variants.
    Enum(Vec<Variant>, bool),
    /// A struct — its fields.
    Struct(VariantData, bool),
    /// A function — its signature and calling convention.
    Fn(Box<FnDecl>, Abi, bool),
}

/// One enum variant.
#[derive(Debug)]
pub struct Variant {
    pub name: String,
    pub attrs: Vec<Attribute>,
    /// Whether the variant carries no payload.
    pub is_unit: bool,
    pub span: Span,
}

/// The field list of a struct.
#[derive(Debug)]
pub enum VariantData {
    /// Named fields.
    Struct(Vec<StructField>),
    /// Tuple-like fields; only their count matters, a single unlabeled field
    /// is exported as an opaque type and any other count is rejected.
    Tuple(usize),
    /// No fields at all.
    Unit,
}

/// One named struct field.
#[derive(Debug)]
pub struct StructField {
    pub name: String,
    pub attrs: Vec<Attribute>,
    pub ty: TyExpr,
}

pub struct ItemV {
    pub name: Seq<char>,
    pub span: Span,
    pub attrs: Seq<AttributeV>,
    pub node: ItemKindV,
}

pub enum ItemKindV {
    Ty(Box<TyExprV>, bool),
    Enum(Seq<VariantV>, bool),
    Struct(VariantDataV, bool),
    Fn(Box<FnDeclV>, Abi, bool),
}

pub struct VariantV {
    pub name: Seq<char>,
    pub attrs: Seq<AttributeV>,
    pub is_unit: bool,
    pub span: Span,
}

pub enum VariantDataV {
    Struct(Seq<StructFieldV>),
    Tuple(usize),
    Unit,
}

pub struct StructFieldV {
    pub name: Seq<char>,
    pub attrs: Seq<AttributeV>,
    pub ty: TyExprV,
}

impl View for StructField {
    type V = StructFieldV;

    open spec fn view(&self) -> StructFieldV {
        StructFieldV { name: self.name@, attrs: attrs_view(self.attrs@), ty: self.ty@ }
    }
}

impl View for Variant {
    type V = VariantV;

    open spec fn view(&self) -> VariantV {
        VariantV {
            name: self.name@,
            attrs: attrs_view(self.attrs@),
            is_unit: self.is_unit,
            span: self.span,
        }
    }
}

impl View for VariantData {
    type V = VariantDataV;

    open spec fn view(&self) -> VariantDataV {
        match self {
            VariantData::Struct(fields) => VariantDataV::Struct(
                Seq::new(fields@.len(), |i: int| fields@[i]@),
            ),
            VariantData::Tuple(n) => VariantDataV::Tuple(*n),
            VariantData::Unit => VariantDataV::Unit,
        }
    }
}

impl View for ItemKind {
    type V = ItemKindV;

    open spec fn view(&self) -> ItemKindV {
        match self {
            ItemKind::Ty(ty, g) => ItemKindV::Ty(Box::new((**ty).view()), *g),
            ItemKind::Enum(vars, g) => ItemKindV::Enum(
                Seq::new(vars@.len(), |i: int| vars@[i]@),
                *g,
            ),
            ItemKind::Struct(vd, g) => ItemKindV::Struct(vd@, *g),
            ItemKind::Fn(decl, abi, g) => ItemKindV::Fn(Box::new((**decl).view()), *abi, *g),
        }
    }
}

impl View for Item {
    type V = ItemV;

    open spec fn view(&self) -> ItemV {
        ItemV {
            name: self.name@,
            span: self.span,
            attrs: attrs_view(self.attrs@),
            node: self.node@,
        }
    }
}

} // verus!
