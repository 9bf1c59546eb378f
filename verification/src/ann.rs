//! The data both generation units read from an annotated type declaration,
//! as plain values: the host front end reduces its syntax tree to these
//! shapes, and everything the units decide is decided on them.

use vstd::prelude::*;

verus! {

/// The value of one `key = value` pair in a descriptor annotation block:
/// either a string literal, carried as its text, or some other expression,
/// which the schema rejects.
#[derive(Clone, Debug)]
pub enum AnnValue {
    StrLit(String),
    NotStrLit,
}

/// The view of an `AnnValue`: the same shape over character sequences.
pub enum AnnValueV {
    StrLit(Seq<char>),
    NotStrLit,
}

impl View for AnnValue {
    type V = AnnValueV;

    open spec fn view(&self) -> AnnValueV {
        match self {
            AnnValue::StrLit(s) => AnnValueV::StrLit(s@),
            AnnValue::NotStrLit => AnnValueV::NotStrLit,
        }
    }
}

/// One comma-separated item of a descriptor annotation block.
#[derive(Clone, Debug)]
pub enum AnnItem {
    /// A `key = value` pair whose key is a bare identifier.
    Pair { key: String, value: AnnValue },
    /// A `key = value` pair whose key is not a bare identifier.
    BadKey,
    /// An item that is not a `key = value` pair at all.
    NotPair,
}

/// The view of an `AnnItem`.
pub enum AnnItemV {
    Pair { key: Seq<char>, value: AnnValueV },
    BadKey,
    NotPair,
}

impl View for AnnItem {
    type V = AnnItemV;

    open spec fn view(&self) -> AnnItemV {
        match self {
            AnnItem::Pair { key, value } => AnnItemV::Pair { key: key@, value: value@ },
            AnnItem::BadKey => AnnItemV::BadKey,
            AnnItem::NotPair => AnnItemV::NotPair,
        }
    }
}

/// The views of a sequence of annotation items.
pub open spec fn items_view(items: Seq<AnnItem>) -> Seq<AnnItemV> {
    items.map_values(|it: AnnItem| it@)
}

/// One comma-separated token of a subscriptions annotation: a bare
/// identifier naming an event type, or something else, which is rejected.
#[derive(Clone, Debug)]
pub enum EventToken {
    Ident(String),
    NotIdent,
}

/// The view of an `EventToken`.
pub enum EventTokenV {
    Ident(Seq<char>),
    NotIdent,
}

impl View for EventToken {
    type V = EventTokenV;

    open spec fn view(&self) -> EventTokenV {
        match self {
            EventToken::Ident(s) => EventTokenV::Ident(s@),
            EventToken::NotIdent => EventTokenV::NotIdent,
        }
    }
}

/// The views of a sequence of subscription tokens.
pub open spec fn tokens_view(tokens: Seq<EventToken>) -> Seq<EventTokenV> {
    tokens.map_values(|t: EventToken| t@)
}

/// The kind of an annotated type declaration.  Only structures may carry a
/// subscriptions annotation.
#[derive(Clone, Copy, Debug, PartialEq, Eq, Structural)]
pub enum DeclKind {
    Structure,
    Enumeration,
    Union,
}

/// One attribute attached to a declaration: the text of its path, and the
/// tokens of its argument list read as a subscriptions list.
#[derive(Clone, Debug)]
pub struct AttrAnn {
    pub path: String,
    pub tokens: Vec<EventToken>,
}

/// The view of an `AttrAnn`.
pub struct AttrAnnV {
    pub path: Seq<char>,
    pub tokens: Seq<EventTokenV>,
}

impl View for AttrAnn {
    type V = AttrAnnV;

    open spec fn view(&self) -> AttrAnnV {
        AttrAnnV { path: self.path@, tokens: tokens_view(self.tokens@) }
    }
}

/// An annotated type declaration as the subscription unit reads it: its
/// name, its kind, and its attached attributes in order.
#[derive(Clone, Debug)]
pub struct Declaration {
    pub name: String,
    pub kind: DeclKind,
    pub attrs: Vec<AttrAnn>,
}

/// The view of a `Declaration`.
pub struct DeclarationV {
    pub name: Seq<char>,
    pub kind: DeclKind,
    pub attrs: Seq<AttrAnnV>,
}

impl View for Declaration {
    type V = DeclarationV;

    open spec fn view(&self) -> DeclarationV {
        DeclarationV {
            name: self.name@,
            kind: self.kind,
            attrs: self.attrs@.map_values(|a: AttrAnn| a@),
        }
    }
}

} // verus!
