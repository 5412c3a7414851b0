//! The boundary to the Rust syntax crates. What a type or a declaration looks
//! like is the host language's business: it is asked of `syn`, and what is
//! said of the answers here is believed, not proved.
//!
//! Every call is made with `proc_macro2`'s own lexer and printer selected, so
//! that the answer is the same in every process.

use vstd::prelude::*;
use quote::ToTokens;
use crate::driver::{attribute_models, AttributeModel, Generics, RawAttribute};

verus! {

/// Whether a text is a complete Rust type, as `syn` parses one.
pub uninterp spec fn is_type_syntax(text: Seq<char>) -> bool;

/// Whether a text is a struct, enum or union declaration with whatever
/// attributes stand in front of it, as `syn` parses one.
pub uninterp spec fn is_declaration_syntax(text: Seq<char>) -> bool;

/// The name that a declaration declares.
pub uninterp spec fn declared_ident(source: Seq<char>) -> Seq<char>;

/// The generic parameters of a declaration, as `syn` writes them in an impl
/// header, after the type's name, and in a `where` clause.
pub uninterp spec fn declared_generics(source: Seq<char>) -> (Seq<char>, Seq<char>, Seq<char>);

/// The attributes in front of a declaration, in the order written.
pub uninterp spec fn declared_attributes(source: Seq<char>) -> Seq<AttributeModel>;

/// Calls `syn::parse_str::<syn::Type>`, after `proc_macro2::fallback::force`.
/// The claim: the answer is whether the whole text parsed as one type, and
/// the same text always gets the same answer.
#[verifier::external_body]
pub(crate) fn parses_as_type(text: &str) -> (ok: bool)
    ensures
        ok == is_type_syntax(text@),
{
    proc_macro2::fallback::force();
    syn::parse_str::<syn::Type>(text).is_ok()
}

/// Calls `syn::parse_str::<syn::DeriveInput>`, after
/// `proc_macro2::fallback::force`, and hands out the declared name and the
/// three parts of `syn::Generics::split_for_impl`, each written out as text.
/// The claim: there is an answer exactly when the whole text parsed as a
/// declaration, and the same text always gets the same answer.
#[verifier::external_body]
pub(crate) fn read_declaration(source: &str) -> (read: Option<(String, Generics)>)
    ensures
        read is Some <==> is_declaration_syntax(source@),
        read matches Some(found) ==> found.0@ == declared_ident(source@)
            && found.1.impl_generics@ == declared_generics(source@).0
            && found.1.ty_generics@ == declared_generics(source@).1
            && found.1.where_clause@ == declared_generics(source@).2,
{
    proc_macro2::fallback::force();
    let input = syn::parse_str::<syn::DeriveInput>(source).ok()?;
    let (impl_generics, ty_generics, where_clause) = input.generics.split_for_impl();
    let generics = Generics {
        impl_generics: impl_generics.to_token_stream().to_string(),
        ty_generics: ty_generics.to_token_stream().to_string(),
        where_clause: where_clause.to_token_stream().to_string(),
    };
    Some((input.ident.to_string(), generics))
}

/// Calls `syn::parse_str::<syn::DeriveInput>`, after
/// `proc_macro2::fallback::force`, and hands out each attribute: its name by
/// `syn::Path::get_ident`, and the text between the delimiters where its
/// `syn::Meta` is a list. The claim: there is an answer exactly when the
/// whole text parsed as a declaration, and the same text always gets the
/// same answer.
#[verifier::external_body]
pub(crate) fn read_attributes(source: &str) -> (read: Option<Vec<RawAttribute>>)
    ensures
        read is Some <==> is_declaration_syntax(source@),
        read matches Some(found) ==> attribute_models(found@) == declared_attributes(source@),
{
    proc_macro2::fallback::force();
    let input = syn::parse_str::<syn::DeriveInput>(source).ok()?;
    let read = |attribute: &syn::Attribute| RawAttribute {
        name: attribute.path().get_ident().map(|name| name.to_string()),
        arguments: match &attribute.meta {
            syn::Meta::List(list) => Some(list.tokens.to_string()),
            syn::Meta::Path(_) => None,
            syn::Meta::NameValue(_) => None,
        },
    };
    Some(input.attrs.iter().map(read).collect())
}

} // verus!
