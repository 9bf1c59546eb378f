//! The subscription unit's parser: reads the comma-separated token list of a
//! subscriptions annotation into the ordered sequence of event-type names,
//! exactly as written, duplicates and order preserved.

use vstd::prelude::*;
use crate::ann::{EventToken, EventTokenV, tokens_view};

verus! {

/// A diagnostic of the subscriptions parser: the token at this position is
/// not a bare identifier.
#[derive(Clone, Copy, Debug, PartialEq, Eq, Structural)]
pub struct MalformedEventToken {
    pub index: usize,
}

/// Every one of the first `n` tokens is a bare identifier.
pub open spec fn tokens_ok_to(tokens: Seq<EventTokenV>, n: int) -> bool {
    forall|j: int| 0 <= j < n ==> #[trigger] tokens[j] is Ident
}

/// Every token is a bare identifier.
pub open spec fn all_tokens_ok(tokens: Seq<EventTokenV>) -> bool {
    tokens_ok_to(tokens, tokens.len() as int)
}

/// The name an identifier token carries.
pub open spec fn token_name(t: EventTokenV) -> Seq<char> {
    match t {
        EventTokenV::Ident(s) => s,
        EventTokenV::NotIdent => Seq::empty(),
    }
}

/// The views of the parsed event-type names.
pub open spec fn names_view(names: Seq<String>) -> Seq<Seq<char>> {
    names.map_values(|s: String| s@)
}

/// What a successful parse returns: one name per token, in token order,
/// duplicates preserved.
pub open spec fn subs_ok_with(tokens: Seq<EventTokenV>, names: Seq<Seq<char>>) -> bool {
    &&& all_tokens_ok(tokens)
    &&& names.len() == tokens.len()
    &&& forall|j: int| 0 <= j < tokens.len() ==> #[trigger] names[j] == token_name(tokens[j])
}

/// When, and with which diagnostic, the parse fails: the position of the
/// first token that is not a bare identifier.
pub open spec fn subs_fails_with(tokens: Seq<EventTokenV>, e: MalformedEventToken) -> bool {
    &&& 0 <= e.index < tokens.len()
    &&& tokens_ok_to(tokens, e.index as int)
    &&& !(tokens[e.index as int] is Ident)
}

/// Parses a subscriptions token list.  Succeeds exactly when every token is
/// a bare identifier, and then returns the identifiers as written: an empty
/// list yields an empty sequence, and neither order nor multiplicity is
/// changed.
pub fn parse_subscriptions(tokens: &Vec<EventToken>) -> (r: Result<
    Vec<String>,
    MalformedEventToken,
>)
    ensures
        match r {
            Ok(names) => subs_ok_with(tokens_view(tokens@), names_view(names@)),
            Err(e) => subs_fails_with(tokens_view(tokens@), e),
        },
{
    let ghost s = tokens_view(tokens@);
    let mut names: Vec<String> = Vec::new();
    let n = tokens.len();
    assert(s.len() == n);
    let mut i: usize = 0;
    while i < n
        invariant
            n == tokens.len(),
            s == tokens_view(tokens@),
            s.len() == n,
            i <= n,
            tokens_ok_to(s, i as int),
            names@.len() == i,
            forall|j: int|
                0 <= j < i ==> #[trigger] names_view(names@)[j] == token_name(s[j]),
        decreases n - i,
    {
        proof {
            assert(s[i as int] == tokens@[i as int]@);
        }
        match &tokens[i] {
            EventToken::Ident(name) => {
                let ghost pre = names@;
                names.push(name.clone());
                proof {
                    assert(names_view(names@) =~= names_view(pre).push(name@));
                }
            },
            EventToken::NotIdent => {
                return Err(MalformedEventToken { index: i });
            },
        }
        i = i + 1;
    }
    Ok(names)
}

} // verus!
