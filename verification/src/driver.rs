//! The two generation units run against the host's real syntax trees: thin
//! drivers that read the annotation data out of `syn`'s types, hand it to
//! the verified parsers and emitters, and render the outcome as token
//! streams, with diagnostics spanned at the offending syntax.  Everything
//! `syn` and `proc-macro2` do stands behind the trusted items declared
//! here; every decision and every byte of emitted text comes from the
//! verified functions of the other modules.

use vstd::prelude::*;
use crate::ann::{AnnItem, AnnValue, DeclKind};
use crate::descriptor::DescriptorError;
use crate::emit::{emit_subscriptions_impl, generate_plugin_impl};
use crate::handler::HandlerError;

verus! {

#[verifier::external_type_specification]
#[verifier::external_body]
pub struct ExTokenStream(proc_macro2::TokenStream);

#[verifier::external_type_specification]
#[verifier::external_body]
pub struct ExDeriveInput(syn::DeriveInput);

#[verifier::external_type_specification]
#[verifier::external_body]
pub struct ExAttribute(syn::Attribute);

#[verifier::external_type_specification]
#[verifier::external_body]
pub struct ExSynError(syn::Error);

#[verifier::external_type_specification]
#[verifier::external_body]
pub struct ExMeta(syn::Meta);

#[verifier::external_type_specification]
#[verifier::external_body]
pub struct ExMetaNameValue(syn::MetaNameValue);

/// Relies on `syn::parse2`: parses a token stream as a type declaration
/// with its attached attributes, or reports why it is not one.
#[verifier::external_body]
fn parse_derive_input(input: proc_macro2::TokenStream) -> (r: Result<syn::DeriveInput, syn::Error>)
{
    syn::parse2(input)
}

/// Relies on the variants of `syn::Data`: tells which kind of type
/// declaration was annotated.
#[verifier::external_body]
fn decl_kind_of(ast: &syn::DeriveInput) -> (r: DeclKind) {
    match &ast.data {
        syn::Data::Struct(_) => DeclKind::Structure,
        syn::Data::Enum(_) => DeclKind::Enumeration,
        syn::Data::Union(_) => DeclKind::Union,
    }
}

/// Relies on `Ident`'s `Display`: the name of the annotated declaration as
/// text.
#[verifier::external_body]
fn decl_ident_string(ast: &syn::DeriveInput) -> (r: String) {
    ast.ident.to_string()
}

/// Relies on the `attrs` field of `syn::DeriveInput`: the attributes
/// attached to the declaration, in source order.
#[verifier::external_body]
fn attrs_of(ast: &syn::DeriveInput) -> (r: Vec<syn::Attribute>) {
    ast.attrs.clone()
}

/// Relies on `syn::Path::is_ident`: whether this attribute's path is the
/// bare identifier `subscriptions`.
#[verifier::external_body]
fn attr_is_subscriptions(a: &syn::Attribute) -> (r: bool) {
    a.path().is_ident("subscriptions")
}

/// Relies on `syn::Attribute::parse_args_with` and
/// `Punctuated::<Ident, Comma>::parse_terminated`: the attribute's
/// arguments as a comma-separated list of bare identifiers, as text, or
/// `syn`'s diagnostic when some token is not one.
#[verifier::external_body]
fn parse_event_idents(a: &syn::Attribute) -> (r: Result<Vec<String>, syn::Error>) {
    let parsed = a.parse_args_with(
        syn::punctuated::Punctuated::<syn::Ident, syn::token::Comma>::parse_terminated,
    )?;
    let mut names = Vec::new();
    for ident in parsed {
        names.push(ident.to_string());
    }
    Ok(names)
}

/// Relies on `syn::Attribute::parse_args_with` and
/// `Punctuated::<Meta, Comma>::parse_terminated`: the attribute's
/// arguments as a comma-separated list of annotation items.
#[verifier::external_body]
fn parse_meta_items(a: &syn::Attribute) -> (r: Result<Vec<syn::Meta>, syn::Error>) {
    let parsed = a.parse_args_with(
        syn::punctuated::Punctuated::<syn::Meta, syn::token::Comma>::parse_terminated,
    )?;
    let mut metas = Vec::new();
    for meta in parsed {
        metas.push(meta);
    }
    Ok(metas)
}

/// Relies on the variants of `syn::Meta`: the item as a name-value pair,
/// when it is one.
#[verifier::external_body]
fn meta_name_value_of(m: &syn::Meta) -> (r: Option<syn::MetaNameValue>) {
    match m {
        syn::Meta::NameValue(nv) => Some(nv.clone()),
        _ => None,
    }
}

/// Relies on `syn::Path::get_ident`: the pair's key, when it is a bare
/// identifier, as text.
#[verifier::external_body]
fn nv_key_of(nv: &syn::MetaNameValue) -> (r: Option<String>) {
    match nv.path.get_ident() {
        Some(i) => Some(i.to_string()),
        None => None,
    }
}

/// Relies on the variants of `syn::Expr` and `syn::Lit`, and on
/// `LitStr::value`: the pair's value, when it is a string literal, as the
/// string it denotes.
#[verifier::external_body]
fn nv_str_value_of(nv: &syn::MetaNameValue) -> (r: Option<String>) {
    match &nv.value {
        syn::Expr::Lit(el) => match &el.lit {
            syn::Lit::Str(ls) => Some(ls.value()),
            _ => None,
        },
        _ => None,
    }
}

/// Relies on `syn::Error::new_spanned`: a diagnostic pointing at this
/// annotation item.
#[verifier::external_body]
fn error_spanned_meta(m: &syn::Meta, msg: &str) -> (r: syn::Error) {
    syn::Error::new_spanned(m, msg)
}

/// Relies on `syn::Error::new_spanned`: a diagnostic pointing at the whole
/// annotation.
#[verifier::external_body]
fn error_spanned_attr(a: &syn::Attribute, msg: &str) -> (r: syn::Error) {
    syn::Error::new_spanned(a, msg)
}

/// Relies on `syn::Error::new_spanned`: a diagnostic pointing at the name
/// of the annotated declaration.
#[verifier::external_body]
fn error_spanned_input(ast: &syn::DeriveInput, msg: &str) -> (r: syn::Error) {
    syn::Error::new_spanned(&ast.ident, msg)
}

/// Relies on `syn::Error::to_compile_error`: the diagnostic as the token
/// stream of a compile error, which the host splices in place of the
/// generated code.
#[verifier::external_body]
fn error_to_tokens(e: &syn::Error) -> (r: proc_macro2::TokenStream) {
    e.to_compile_error()
}

/// Relies on `proc_macro2::TokenStream`'s `FromStr`: the emitted source
/// text as a token stream, when it lexes.
#[verifier::external_body]
fn tokens_of_source(src: &str) -> (r: Option<proc_macro2::TokenStream>) {
    match src.parse() {
        Ok(t) => Some(t),
        Err(_) => None,
    }
}

/// Converts one annotation item of the host syntax tree into the shape the
/// descriptor parser reads.
fn meta_to_ann_item(m: &syn::Meta) -> AnnItem {
    match meta_name_value_of(m) {
        None => AnnItem::NotPair,
        Some(nv) => match nv_key_of(&nv) {
            None => AnnItem::BadKey,
            Some(key) => match nv_str_value_of(&nv) {
                Some(v) => AnnItem::Pair { key, value: AnnValue::StrLit(v) },
                None => AnnItem::Pair { key, value: AnnValue::NotStrLit },
            },
        },
    }
}

/// The descriptor unit against the host syntax tree: reads the annotation's
/// items, runs the verified parser and emitter, and renders a failure as a
/// compile error spanned at the offending item, or at the whole annotation
/// when a required field is missing.
pub fn generate_plugin_tokens(
    attr: &syn::Attribute,
    decl_name: &String,
) -> proc_macro2::TokenStream {
    let metas = match parse_meta_items(attr) {
        Ok(m) => m,
        Err(e) => {
            return error_to_tokens(&e);
        },
    };
    let mut items: Vec<AnnItem> = Vec::new();
    let n = metas.len();
    let mut i: usize = 0;
    while i < n
        invariant
            n == metas.len(),
            i <= n,
            items@.len() == i,
        decreases n - i,
    {
        items.push(meta_to_ann_item(&metas[i]));
        i = i + 1;
    }
    match generate_plugin_impl(&items, decl_name.as_str()) {
        Ok(src) => match tokens_of_source(src.as_str()) {
            Some(t) => t,
            None => error_to_tokens(
                &error_spanned_attr(attr, "emitted implementation did not lex as source text"),
            ),
        },
        Err(e) => {
            let msg = e.message();
            let err = match &e {
                DescriptorError::MalformedKey { index } => error_spanned_meta(
                    &metas[*index],
                    msg.as_str(),
                ),
                DescriptorError::NonStringValue { index, key } => error_spanned_meta(
                    &metas[*index],
                    msg.as_str(),
                ),
                DescriptorError::UnknownKey { index, key } => error_spanned_meta(
                    &metas[*index],
                    msg.as_str(),
                ),
                DescriptorError::MissingField { field } => error_spanned_attr(attr, msg.as_str()),
            };
            error_to_tokens(&err)
        },
    }
}

/// The subscription unit against the host syntax tree, end to end: what a
/// derive shell calls with the annotated declaration's token stream.
/// Mirrors the verified `handler_derive` decision for decision: kind guard,
/// annotation lookup, token-list parse, emission.
pub fn handler_derive_tokens(input: proc_macro2::TokenStream) -> proc_macro2::TokenStream {
    let ast = match parse_derive_input(input) {
        Ok(a) => a,
        Err(e) => {
            return error_to_tokens(&e);
        },
    };
    let is_struct = match decl_kind_of(&ast) {
        DeclKind::Structure => true,
        _ => false,
    };
    if !is_struct {
        let msg = HandlerError::UnsupportedDeclarationKind.message();
        return error_to_tokens(&error_spanned_input(&ast, msg.as_str()));
    }
    let attrs = attrs_of(&ast);
    let n = attrs.len();
    let mut found: Option<usize> = None;
    let mut i: usize = 0;
    while i < n
        invariant
            n == attrs.len(),
            i <= n,
            match found {
                Some(j) => j < n,
                None => true,
            },
        decreases n - i,
    {
        if found.is_none() && attr_is_subscriptions(&attrs[i]) {
            found = Some(i);
        }
        i = i + 1;
    }
    let attr_idx = match found {
        Some(j) => j,
        None => {
            let msg = HandlerError::MissingSubscriptionsAnnotation.message();
            return error_to_tokens(&error_spanned_input(&ast, msg.as_str()));
        },
    };
    let names = match parse_event_idents(&attrs[attr_idx]) {
        Ok(names) => names,
        Err(e) => {
            return error_to_tokens(&e);
        },
    };
    let decl_name = decl_ident_string(&ast);
    let src = emit_subscriptions_impl(&names, decl_name.as_str());
    match tokens_of_source(src.as_str()) {
        Some(t) => t,
        None => error_to_tokens(
            &error_spanned_input(&ast, "emitted implementation did not lex as source text"),
        ),
    }
}

} // verus!
