//! Reading Rust source text with syn into the model of `rust_model`.
//!
//! syn does the parsing; the functions here only carry each syn node over
//! to the model type that stands for it, one for one.
use vstd::prelude::*;

use crate::rust_model::{
    FnInput, GenericArg, ImplMember, NamedField, RustAttr, RustFields, RustItem,
    RustMethod, RustType, RustVariant,
};

verus! {

#[verifier::external_type_specification]
#[verifier::external_body]
pub struct ExSynType(syn::Type);

#[verifier::external_type_specification]
#[verifier::external_body]
pub struct ExSynPathSegment(syn::PathSegment);

#[verifier::external_type_specification]
#[verifier::external_body]
pub struct ExSynGenericArgument(syn::GenericArgument);

#[verifier::external_type_specification]
#[verifier::external_body]
pub struct ExSynAttribute(syn::Attribute);

#[verifier::external_type_specification]
#[verifier::external_body]
pub struct ExSynField(syn::Field);

#[verifier::external_type_specification]
#[verifier::external_body]
pub struct ExSynFields(syn::Fields);

#[verifier::external_type_specification]
#[verifier::external_body]
pub struct ExSynFnArg(syn::FnArg);

#[verifier::external_type_specification]
#[verifier::external_body]
pub struct ExSynImplItemFn(syn::ImplItemFn);

#[verifier::external_type_specification]
#[verifier::external_body]
pub struct ExSynVariant(syn::Variant);

#[verifier::external_type_specification]
#[verifier::external_body]
pub struct ExSynImplItem(syn::ImplItem);

#[verifier::external_type_specification]
#[verifier::external_body]
pub struct ExSynItem(syn::Item);

/// The items of a Rust source file as syn parses them (`syn::parse_file`),
/// each carried over to the model; `None` when syn rejects the text.
pub uninterp spec fn syn_items(source: Seq<char>) -> Option<Seq<RustItem>>;

/// `syn::parse_file` on `source`, its items carried over to the model. The
/// contract says only that the result is `syn_items` of the text: which
/// texts syn accepts and how it reads them is syn's grammar, not stated here.
#[verifier::external_body]
pub(crate) fn parse_items(source: &str) -> (r: Option<Vec<RustItem>>)
    ensures
        match r {
            Some(v) => syn_items(source@) == Some(v@),
            None => syn_items(source@) is None,
        },
{
    match syn::parse_file(source) {
        Ok(file) => Some(file.items.iter().map(convert_item).collect()),
        Err(_) => None,
    }
}

/// A syn type expression as a `RustType`; its debug text is syn's `Debug`.
#[verifier::external_body]
fn convert_type(ty: &syn::Type) -> RustType {
    match ty {
        syn::Type::Path(p) => RustType::Path {
            last: p.path.segments.last().map(convert_segment),
            debug: format!("{ty:?}"),
        },
        syn::Type::Reference(r) => RustType::Reference { elem: Box::new(convert_type(&r.elem)) },
        syn::Type::Tuple(t) => RustType::Tuple { elems: t.elems.iter().map(convert_type).collect() },
        other => RustType::Unsupported { debug: format!("{other:?}") },
    }
}

/// A syn path segment: its identifier and its angle-bracketed arguments.
#[verifier::external_body]
fn convert_segment(s: &syn::PathSegment) -> crate::rust_model::TypeSegment {
    crate::rust_model::TypeSegment {
        ident: s.ident.to_string(),
        args: match &s.arguments {
            syn::PathArguments::AngleBracketed(a) => Some(a.args.iter().map(convert_generic_arg).collect()),
            _ => None,
        },
    }
}

/// A syn generic argument: a type, or something else.
#[verifier::external_body]
fn convert_generic_arg(a: &syn::GenericArgument) -> GenericArg {
    match a {
        syn::GenericArgument::Type(t) => GenericArg::Type { ty: convert_type(t) },
        _ => GenericArg::Other,
    }
}

/// A syn attribute: the identifier of its path, and its `Debug` text.
#[verifier::external_body]
fn convert_attr(a: &syn::Attribute) -> RustAttr {
    RustAttr { ident: a.path().get_ident().map(|i| i.to_string()), debug: format!("{a:?}") }
}

/// A syn named field.
#[verifier::external_body]
fn convert_field(f: &syn::Field) -> NamedField {
    NamedField { ident: f.ident.as_ref().map(|i| i.to_string()), ty: convert_type(&f.ty) }
}

/// The fields of a syn struct or enum variant.
#[verifier::external_body]
fn convert_fields(f: &syn::Fields) -> RustFields {
    match f {
        syn::Fields::Named(n) => RustFields::Named { fields: n.named.iter().map(convert_field).collect() },
        syn::Fields::Unnamed(u) => RustFields::Unnamed { types: u.unnamed.iter().map(|x| convert_type(&x.ty)).collect() },
        syn::Fields::Unit => RustFields::Unit,
    }
}

/// A syn function parameter: `self`, or a pattern with its type.
#[verifier::external_body]
fn convert_input(i: &syn::FnArg) -> FnInput {
    match i {
        syn::FnArg::Receiver(_) => FnInput::Receiver,
        syn::FnArg::Typed(p) => FnInput::Typed {
            ident: match &*p.pat {
                syn::Pat::Ident(pi) => Some(pi.ident.to_string()),
                _ => None,
            },
            ty: convert_type(&p.ty),
        },
    }
}

/// A syn method of an impl block.
#[verifier::external_body]
fn convert_method(m: &syn::ImplItemFn) -> RustMethod {
    RustMethod {
        ident: m.sig.ident.to_string(),
        attrs: m.attrs.iter().map(convert_attr).collect(),
        inputs: m.sig.inputs.iter().map(convert_input).collect(),
        output: match &m.sig.output {
            syn::ReturnType::Default => None,
            syn::ReturnType::Type(_, t) => Some(convert_type(t)),
        },
    }
}

/// A syn enum variant.
#[verifier::external_body]
fn convert_variant(v: &syn::Variant) -> RustVariant {
    RustVariant { ident: v.ident.to_string(), fields: convert_fields(&v.fields) }
}

/// A syn member of an impl block: a method, or something else.
#[verifier::external_body]
fn convert_member(m: &syn::ImplItem) -> ImplMember {
    match m {
        syn::ImplItem::Fn(f) => ImplMember::Method { method: convert_method(f) },
        _ => ImplMember::Other,
    }
}

/// A syn item: a struct, an enum, an impl block, or something else.
#[verifier::external_body]
fn convert_item(i: &syn::Item) -> RustItem {
    match i {
        syn::Item::Struct(s) => RustItem::Struct { ident: s.ident.to_string(), fields: convert_fields(&s.fields) },
        syn::Item::Enum(e) => RustItem::Enum { ident: e.ident.to_string(), variants: e.variants.iter().map(convert_variant).collect() },
        syn::Item::Impl(b) => RustItem::Impl {
            attrs: b.attrs.iter().map(convert_attr).collect(),
            self_ty: convert_type(&b.self_ty),
            self_debug: format!("{:?}", b.self_ty),
            members: b.items.iter().map(convert_member).collect(),
        },
        _ => RustItem::Other,
    }
}

} // verus!
