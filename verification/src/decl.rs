//! Value models of the decorated source declarations that the collector
//! lowers: functions, structs, enums, impl blocks, foreign blocks and
//! constants, holding exactly what the lowering reads.

use crate::ast::Attribute;
use crate::ast::Span;
use crate::ast::Type;
use vstd::prelude::*;

verus! {

/// One parameter of a declared function.
#[derive(Debug, PartialEq, Eq)]
pub enum FnArg {
    /// An ordinary named argument.
    Captured { name: String, ty: Type },
    /// `self` by value.
    SelfValue,
    /// `&self` or `&mut self`, with whether a named lifetime was written.
    SelfRef { mutable: bool, lifetime: bool },
    /// An ignored or inferred argument.
    IgnoredArg,
}

/// A declared function signature.
#[derive(Debug, PartialEq, Eq)]
pub struct FnDecl {
    /// The position of the whole signature, for diagnostics.
    pub span: Span,
    pub generics_count: usize,
    pub generics_span: Span,
    pub inputs: Vec<FnArg>,
    pub output: Option<Type>,
    /// The position of a `...` parameter, when one is written.
    pub variadic: Option<Span>,
}

/// A declared free function.
#[derive(Debug, PartialEq, Eq)]
pub struct ItemFn {
    pub ident: String,
    pub ident_span: Span,
    pub vis_pub: bool,
    pub constness: Option<Span>,
    pub unsafety: Option<Span>,
    pub decl: FnDecl,
    pub attrs: Vec<Attribute>,
    pub span: Span,
}

/// One field of a declared struct.
#[derive(Debug, PartialEq, Eq)]
pub struct FieldDecl {
    /// The field name; positional fields have none.
    pub ident: Option<String>,
    pub vis_pub: bool,
    pub attrs: Vec<Attribute>,
    pub ty: Type,
    pub span: Span,
}

/// A declared struct.
#[derive(Debug, PartialEq, Eq)]
pub struct ItemStruct {
    pub ident: String,
    pub generics_count: usize,
    pub generics_span: Span,
    pub fields: Vec<FieldDecl>,
    pub attrs: Vec<Attribute>,
    pub span: Span,
}

/// The discriminant written on one enum variant.
#[derive(Debug, PartialEq, Eq)]
pub enum DiscriminantDecl {
    /// An integer literal.
    IntLit(u64, Span),
    /// Any other expression.
    OtherDiscr(Span),
}

/// One variant of a declared enum.
#[derive(Debug, PartialEq, Eq)]
pub struct VariantDecl {
    pub ident: String,
    /// Whether the variant has no fields.
    pub unit_fields: bool,
    pub discriminant: Option<DiscriminantDecl>,
    pub span: Span,
}

/// A declared enum.
#[derive(Debug, PartialEq, Eq)]
pub struct ItemEnum {
    pub ident: String,
    pub vis_pub: bool,
    pub variants: Vec<VariantDecl>,
    pub attrs: Vec<Attribute>,
    pub span: Span,
}

/// A declared constant.
#[derive(Debug, PartialEq, Eq)]
pub struct ItemConst {
    pub attrs: Vec<Attribute>,
    /// The value when it is a string literal.
    pub str_value: Option<String>,
    pub span: Span,
}

/// A declared method inside an inherent impl block.
#[derive(Debug, PartialEq, Eq)]
pub struct ImplItemMethod {
    pub ident: String,
    pub ident_span: Span,
    pub vis_pub: bool,
    pub defaultness: Option<Span>,
    pub constness: Option<Span>,
    pub unsafety: Option<Span>,
    pub decl: FnDecl,
    pub attrs: Vec<Attribute>,
    pub span: Span,
    /// The class and host-class pair that recursion preparation attaches.
    pub class_marker: Option<(String, String)>,
}

/// One item of an impl block.
#[derive(Debug, PartialEq, Eq)]
pub enum ImplItem {
    MethodItem(ImplItemMethod),
    ConstItem(Span),
    TypeItem(Span),
    ExistentialItem(Span),
    MacroItem(Span),
}

/// A declared impl block.
#[derive(Debug, PartialEq, Eq)]
pub struct ItemImpl {
    pub defaultness: Option<Span>,
    pub unsafety: Option<Span>,
    /// The position of the trait name, for a trait impl.
    pub trait_span: Option<Span>,
    pub generics_count: usize,
    pub generics_span: Span,
    pub self_ty: Type,
    pub items: Vec<ImplItem>,
    pub span: Span,
}

/// A declared foreign function.
#[derive(Debug, PartialEq, Eq)]
pub struct ForeignItemFn {
    pub ident: String,
    pub ident_span: Span,
    pub vis_pub: bool,
    pub decl: FnDecl,
    pub attrs: Vec<Attribute>,
    pub span: Span,
}

/// A declared foreign type.
#[derive(Debug, PartialEq, Eq)]
pub struct ForeignItemType {
    pub ident: String,
    pub vis_pub: bool,
    pub attrs: Vec<Attribute>,
    pub span: Span,
}

/// A declared foreign static.
#[derive(Debug, PartialEq, Eq)]
pub struct ForeignItemStatic {
    pub ident: String,
    /// The position of `mut`, for a mutable static.
    pub mutability: Option<Span>,
    pub ty: Type,
    pub vis_pub: bool,
    pub attrs: Vec<Attribute>,
    pub span: Span,
}

/// One item of a foreign block.
#[derive(Debug, PartialEq, Eq)]
pub enum ForeignItem {
    ForeignFn(ForeignItemFn),
    ForeignTy(ForeignItemType),
    ForeignStatic(ForeignItemStatic),
}

/// A declared foreign block.
#[derive(Debug, PartialEq, Eq)]
pub struct ItemForeignMod {
    /// The ABI name, when one is written.
    pub abi_name: Option<String>,
    pub abi_span: Span,
    pub attrs: Vec<Attribute>,
    pub items: Vec<ForeignItem>,
    pub span: Span,
}

/// One decorated item handed to the collector.
#[derive(Debug, PartialEq, Eq)]
pub enum Item {
    Fn(ItemFn),
    Struct(ItemStruct),
    Impl(ItemImpl),
    ForeignMod(ItemForeignMod),
    Enum(ItemEnum),
    Const(ItemConst),
    Other(Span),
}

} // verus!
