//! The subscription unit's pipeline, one declaration at a time: guard the
//! declaration kind, find the subscriptions annotation, parse its token
//! list, and emit the `PluginSubscriptions` implementation.

use vstd::prelude::*;
use vstd::string::StringExecFns;
use crate::ann::{AttrAnn, AttrAnnV, DeclKind, Declaration, DeclarationV};
use crate::emit::{emit_subscriptions_impl, subscriptions_impl_text};
use crate::strops::str_eq;
use crate::subscriptions::{
    MalformedEventToken, all_tokens_ok, names_view, parse_subscriptions, subs_fails_with,
    token_name,
};

verus! {

/// A diagnostic of the subscription unit.
#[derive(Clone, Copy, Debug, PartialEq, Eq, Structural)]
pub enum HandlerError {
    /// The annotated declaration is not a structure.
    UnsupportedDeclarationKind,
    /// No subscriptions annotation is attached to the structure.
    MissingSubscriptionsAnnotation,
    /// The token at this position of the subscriptions list is not a bare
    /// identifier.
    MalformedEventToken { index: usize },
}

/// The text of the diagnostic a subscription-unit error carries.
pub open spec fn handler_error_message(e: HandlerError) -> Seq<char> {
    match e {
        HandlerError::UnsupportedDeclarationKind => {
            "The #[derive(Handler)] macro can only be used on a `struct`."@
        },
        HandlerError::MissingSubscriptionsAnnotation => {
            "Missing #[subscriptions(...)] attribute. Please list the events to subscribe to, e.g., #[subscriptions(Chat, PlayerJoin)]"@
        },
        HandlerError::MalformedEventToken { index } => {
            "Expected a comma-separated list of bare event identifiers"@
        },
    }
}

impl HandlerError {
    /// The human-readable diagnostic, exactly as `handler_error_message`
    /// states it.
    pub fn message(&self) -> (r: String)
        ensures
            r@ == handler_error_message(*self),
    {
        let mut m = String::new();
        match self {
            HandlerError::UnsupportedDeclarationKind => {
                m.append("The #[derive(Handler)] macro can only be used on a `struct`.");
            },
            HandlerError::MissingSubscriptionsAnnotation => {
                m.append(
                    "Missing #[subscriptions(...)] attribute. Please list the events to subscribe to, e.g., #[subscriptions(Chat, PlayerJoin)]",
                );
            },
            HandlerError::MalformedEventToken { index } => {
                m.append("Expected a comma-separated list of bare event identifiers");
            },
        }
        proof {
            assert(m@ =~= handler_error_message(*self));
        }
        m
    }
}

/// The attribute that carries the subscription list.
pub open spec fn is_subs_attr(a: AttrAnnV) -> bool {
    a.path == "subscriptions"@
}

/// None of the first `n` attributes is the subscriptions annotation.
pub open spec fn no_subs_attr_to(attrs: Seq<AttrAnnV>, n: int) -> bool {
    forall|j: int| 0 <= j < n ==> !is_subs_attr(#[trigger] attrs[j])
}

/// The event-type names a token list carries, in order.
pub open spec fn token_names(tokens: Seq<crate::ann::EventTokenV>) -> Seq<Seq<char>> {
    tokens.map_values(|t: crate::ann::EventTokenV| token_name(t))
}

/// What a successful run of the subscription unit returns: the declaration
/// is a structure, the first subscriptions annotation attached to it has
/// only bare identifiers for tokens, and the result is exactly the emitted
/// implementation text for those names, in annotation order.
pub open spec fn handler_ok_with(decl: DeclarationV, src: Seq<char>) -> bool {
    &&& decl.kind is Structure
    &&& exists|i: int|
        {
            &&& 0 <= i < decl.attrs.len()
            &&& #[trigger] is_subs_attr(decl.attrs[i])
            &&& no_subs_attr_to(decl.attrs, i)
            &&& all_tokens_ok(decl.attrs[i].tokens)
            &&& src == subscriptions_impl_text(decl.name, token_names(decl.attrs[i].tokens))
        }
}

/// When, and with which diagnostic, the subscription unit fails.
pub open spec fn handler_fails_with(decl: DeclarationV, e: HandlerError) -> bool {
    match e {
        HandlerError::UnsupportedDeclarationKind => !(decl.kind is Structure),
        HandlerError::MissingSubscriptionsAnnotation => {
            &&& decl.kind is Structure
            &&& no_subs_attr_to(decl.attrs, decl.attrs.len() as int)
        },
        HandlerError::MalformedEventToken { index } => {
            &&& decl.kind is Structure
            &&& exists|i: int|
                {
                    &&& 0 <= i < decl.attrs.len()
                    &&& #[trigger] is_subs_attr(decl.attrs[i])
                    &&& no_subs_attr_to(decl.attrs, i)
                    &&& subs_fails_with(decl.attrs[i].tokens, MalformedEventToken { index })
                }
        },
    }
}

/// The views of a declaration's attributes.
pub open spec fn attrs_view(attrs: Seq<AttrAnn>) -> Seq<AttrAnnV> {
    attrs.map_values(|a: AttrAnn| a@)
}

/// Finds the first subscriptions annotation among a declaration's
/// attributes, scanning in order.
fn find_subscriptions_attr(attrs: &Vec<AttrAnn>) -> (r: Option<usize>)
    ensures
        match r {
            Some(i) => {
                &&& i < attrs@.len()
                &&& is_subs_attr(attrs_view(attrs@)[i as int])
                &&& no_subs_attr_to(attrs_view(attrs@), i as int)
            },
            None => no_subs_attr_to(attrs_view(attrs@), attrs@.len() as int),
        },
{
    let ghost s = attrs_view(attrs@);
    let n = attrs.len();
    assert(s.len() == n);
    let mut i: usize = 0;
    while i < n
        invariant
            n == attrs.len(),
            s == attrs_view(attrs@),
            s.len() == n,
            i <= n,
            no_subs_attr_to(s, i as int),
        decreases n - i,
    {
        proof {
            assert(s[i as int] == attrs@[i as int]@);
        }
        if str_eq(attrs[i].path.as_str(), "subscriptions") {
            return Some(i);
        }
        i = i + 1;
    }
    None
}

/// The subscription unit, one declaration at a time.  Fails with
/// `UnsupportedDeclarationKind` on anything but a structure, with
/// `MissingSubscriptionsAnnotation` on a structure without the annotation,
/// and with `MalformedEventToken` when the annotation's list holds a token
/// that is not a bare identifier; otherwise emits the
/// `PluginSubscriptions` implementation for the names as written.
pub fn handler_derive(decl: &Declaration) -> (r: Result<String, HandlerError>)
    ensures
        match r {
            Ok(src) => handler_ok_with(decl@, src@),
            Err(e) => handler_fails_with(decl@, e),
        },
{
    match decl.kind {
        DeclKind::Structure => {},
        _ => {
            return Err(HandlerError::UnsupportedDeclarationKind);
        },
    }
    let idx = match find_subscriptions_attr(&decl.attrs) {
        Some(i) => i,
        None => {
            return Err(HandlerError::MissingSubscriptionsAnnotation);
        },
    };
    proof {
        assert(decl@.attrs == attrs_view(decl.attrs@));
        assert(decl@.attrs[idx as int] == decl.attrs@[idx as int]@);
    }
    let names = match parse_subscriptions(&decl.attrs[idx].tokens) {
        Ok(names) => names,
        Err(e) => {
            assert(subs_fails_with(decl@.attrs[idx as int].tokens, e));
            return Err(HandlerError::MalformedEventToken { index: e.index });
        },
    };
    let src = emit_subscriptions_impl(&names, decl.name.as_str());
    proof {
        assert(names_view(names@) =~= token_names(decl@.attrs[idx as int].tokens));
        assert(is_subs_attr(decl@.attrs[idx as int]));
    }
    Ok(src)
}

/// Runs the subscription unit over a whole batch of declarations.  Each
/// declaration is handled in isolation: the result at each position is
/// exactly what `handler_derive` returns for that declaration alone, so a
/// failure in one declaration never disturbs the generation for another.
pub fn handle_batch(decls: &Vec<Declaration>) -> (r: Vec<Result<String, HandlerError>>)
    ensures
        r@.len() == decls@.len(),
        forall|i: int|
            0 <= i < decls@.len() ==> (match #[trigger] r@[i] {
                Ok(src) => handler_ok_with(decls@[i]@, src@),
                Err(e) => handler_fails_with(decls@[i]@, e),
            }),
{
    let mut out: Vec<Result<String, HandlerError>> = Vec::new();
    let n = decls.len();
    let mut i: usize = 0;
    while i < n
        invariant
            n == decls.len(),
            i <= n,
            out@.len() == i,
            forall|j: int|
                0 <= j < i ==> (match #[trigger] out@[j] {
                    Ok(src) => handler_ok_with(decls@[j]@, src@),
                    Err(e) => handler_fails_with(decls@[j]@, e),
                }),
        decreases n - i,
    {
        let r = handler_derive(&decls[i]);
        out.push(r);
        i = i + 1;
    }
    out
}

} // verus!
