//! The properties the two generation units promise, stated and proved over
//! the same spec functions their contracts use.

use vstd::prelude::*;
use crate::ann::{AnnItemV, AnnValueV, EventTokenV};
use crate::descriptor::{
    DescriptorErrorV, FieldName, PluginDescriptorV, all_items_ok, api_key, field_key,
    first_missing, id_key, is_known_key, item_error, item_ok, last_str, lemma_last_str_step,
    name_key, parse_fails_with, parse_ok_with, prefix_ok, version_key,
};
use crate::emit::{escape_char, escaped, parsed_descriptor};
use crate::handler::{HandlerError, handler_fails_with, handler_ok_with};
use crate::subscriptions::{MalformedEventToken, subs_fails_with, subs_ok_with};

verus! {

/// The character an escape pair in an emitted literal stands for.
pub open spec fn decode_escape(c: char) -> Option<char> {
    if c == '\\' {
        Some('\\')
    } else if c == '"' {
        Some('"')
    } else if c == 'n' {
        Some('\n')
    } else if c == 'r' {
        Some('\r')
    } else if c == 't' {
        Some('\t')
    } else {
        None
    }
}

/// Reading an emitted literal body back: each escape pair stands for its
/// character, every other character stands for itself.
pub open spec fn unescaped(t: Seq<char>) -> Option<Seq<char>>
    decreases t.len(),
{
    if t.len() == 0 {
        Some(Seq::empty())
    } else if t[0] == '\\' {
        if t.len() < 2 {
            None
        } else {
            match decode_escape(t[1]) {
                Some(c) => match unescaped(t.subrange(2, t.len() as int)) {
                    Some(rest) => Some(seq![c] + rest),
                    None => None,
                },
                None => None,
            }
        }
    } else {
        match unescaped(t.subrange(1, t.len() as int)) {
            Some(rest) => Some(seq![t[0]] + rest),
            None => None,
        }
    }
}

/// Escaping distributes over concatenation.
pub proof fn lemma_escaped_append(a: Seq<char>, b: Seq<char>)
    ensures
        escaped(a + b) == escaped(a) + escaped(b),
    decreases b.len(),
{
    if b.len() == 0 {
        assert(a + b =~= a);
        assert(escaped(a) + escaped(b) =~= escaped(a));
    } else {
        assert((a + b).drop_last() =~= a + b.drop_last());
        assert((a + b).last() == b.last());
        lemma_escaped_append(a, b.drop_last());
        assert(escaped(a) + escaped(b) =~= escaped(a) + escaped(b.drop_last()) + escape_char(
            b.last(),
        ));
    }
}

/// Escaping a non-empty string starts with the first character's escape.
pub proof fn lemma_escaped_head(s: Seq<char>)
    requires
        s.len() > 0,
    ensures
        escaped(s) == escape_char(s[0]) + escaped(s.skip(1)),
{
    assert(s =~= s.take(1) + s.skip(1));
    lemma_escaped_append(s.take(1), s.skip(1));
    assert(s.take(1).len() == 1);
    assert(s.take(1).last() == s[0]);
    assert(s.take(1).drop_last() =~= Seq::<char>::empty());
    assert(escaped(Seq::<char>::empty()) =~= Seq::<char>::empty());
    assert(escaped(s.take(1)) =~= Seq::<char>::empty() + escape_char(s[0]));
    assert(escaped(s.take(1)) =~= escape_char(s[0]));
}

/// The emitted literal body decodes back to exactly the annotated string:
/// nothing is trimmed, folded or reinterpreted on the way through the
/// emitter.
pub proof fn lemma_escaped_reversible(s: Seq<char>)
    ensures
        unescaped(escaped(s)) == Some(s),
    decreases s.len(),
{
    if s.len() == 0 {
        assert(unescaped(escaped(s)) == Some(Seq::<char>::empty()));
        assert(Seq::<char>::empty() =~= s);
    } else {
        lemma_escaped_head(s);
        lemma_escaped_reversible(s.skip(1));
        let c = s[0];
        let t = escaped(s);
        let ec = escape_char(c);
        assert(t == ec + escaped(s.skip(1)));
        if c == '\\' || c == '"' || c == '\n' || c == '\r' || c == '\t' {
            assert(ec.len() == 2);
            assert(t[0] == ec[0] && t[1] == ec[1]);
            assert(t[0] == '\\');
            assert(decode_escape(t[1]) == Some(c));
            assert(t.subrange(2, t.len() as int) =~= escaped(s.skip(1)));
            assert(seq![c] + s.skip(1) =~= s);
        } else {
            assert(ec =~= seq![c]);
            assert(t[0] == c);
            assert(t[0] != '\\');
            assert(t.subrange(1, t.len() as int) =~= escaped(s.skip(1)));
            assert(seq![c] + s.skip(1) =~= s);
        }
    }
}

/// Round trip: on a block where every item is an accepted `key = "literal"`
/// pair and no required field is missing, the parse cannot fail, and the
/// descriptor it yields is uniquely determined: each field is the last
/// string its key was given, unmodified.
pub proof fn lemma_descriptor_round_trip(
    items: Seq<AnnItemV>,
    e: DescriptorErrorV,
    d: PluginDescriptorV,
)
    requires
        all_items_ok(items),
        first_missing(items) is None,
    ensures
        !parse_fails_with(items, e),
        parse_ok_with(items, d) <==> d == parsed_descriptor(items),
{
    assert(!parse_fails_with(items, e)) by {
        if parse_fails_with(items, e) {
            match e {
                DescriptorErrorV::MissingField { field } => {
                    assert(first_missing(items) is Some);
                },
                _ => {
                    let i = crate::descriptor::error_index(e);
                    assert(item_ok(items[i]));
                },
            }
        }
    }
}

/// The annotation block that supplies the four required fields as the four
/// given strings, one pair per key, in schema order.
pub open spec fn full_annotation(
    id: Seq<char>,
    name: Seq<char>,
    version: Seq<char>,
    api: Seq<char>,
) -> Seq<AnnItemV> {
    seq![
        AnnItemV::Pair { key: id_key(), value: AnnValueV::StrLit(id) },
        AnnItemV::Pair { key: name_key(), value: AnnValueV::StrLit(name) },
        AnnItemV::Pair { key: version_key(), value: AnnValueV::StrLit(version) },
        AnnItemV::Pair { key: api_key(), value: AnnValueV::StrLit(api) },
    ]
}

/// Round trip, constructively: whatever four strings an annotation
/// supplies, the block they form is accepted, nothing is missing, and the
/// descriptor it parses to holds exactly those four strings.
pub proof fn lemma_full_annotation_round_trip(
    id: Seq<char>,
    name: Seq<char>,
    version: Seq<char>,
    api: Seq<char>,
)
    ensures
        all_items_ok(full_annotation(id, name, version, api)),
        first_missing(full_annotation(id, name, version, api)) is None,
        parsed_descriptor(full_annotation(id, name, version, api)) == (PluginDescriptorV {
            id,
            name,
            version,
            api_version: api,
        }),
{
    reveal_strlit("id");
    reveal_strlit("name");
    reveal_strlit("version");
    reveal_strlit("api");
    assert(id_key().len() == 2);
    assert(name_key().len() == 4);
    assert(version_key().len() == 7);
    assert(api_key().len() == 3);
    let items = full_annotation(id, name, version, api);
    assert forall|j: int| 0 <= j < items.len() implies item_ok(#[trigger] items[j]) by {
        assert(is_known_key(id_key()));
        assert(is_known_key(name_key()));
        assert(is_known_key(version_key()));
        assert(is_known_key(api_key()));
    }
    lemma_last_str_step(items, 3, id_key());
    lemma_last_str_step(items, 3, name_key());
    lemma_last_str_step(items, 3, version_key());
    lemma_last_str_step(items, 3, api_key());
    lemma_last_str_step(items, 2, id_key());
    lemma_last_str_step(items, 2, name_key());
    lemma_last_str_step(items, 2, version_key());
    lemma_last_str_step(items, 1, id_key());
    lemma_last_str_step(items, 1, name_key());
    lemma_last_str_step(items, 0, id_key());
    assert(items.take(4) =~= items);
    assert(items.take(0) =~= Seq::<AnnItemV>::empty());
}

/// Omitting one required key: when every item is acceptable, the named key
/// never occurs, and the other three all do, the parse cannot succeed and
/// the one diagnostic it can give is `MissingField` naming exactly that
/// key: the presence of the other three does not mask the failure.
pub proof fn lemma_missing_field_detected(items: Seq<AnnItemV>, f: FieldName, e: DescriptorErrorV)
    requires
        all_items_ok(items),
        last_str(items, field_key(f)) is None,
        forall|g: FieldName| g != f ==> #[trigger] last_str(items, field_key(g)) is Some,
    ensures
        forall|d: PluginDescriptorV| !(#[trigger] parse_ok_with(items, d)),
        parse_fails_with(items, e) <==> e == (DescriptorErrorV::MissingField { field: f }),
{
    assert(last_str(items, field_key(FieldName::Id)) is Some || f == FieldName::Id);
    assert(last_str(items, field_key(FieldName::Name)) is Some || f == FieldName::Name);
    assert(last_str(items, field_key(FieldName::Version)) is Some || f == FieldName::Version);
    assert(last_str(items, field_key(FieldName::Api)) is Some || f == FieldName::Api);
    assert(first_missing(items) == Some(f));
}

/// The first unacceptable item decides the outcome: when the items before
/// `i` are all acceptable and item `i` is not, the parse cannot succeed and
/// the one diagnostic it can give is the one item `i` provokes, whatever
/// stands after it.
pub proof fn lemma_first_bad_item(items: Seq<AnnItemV>, i: int, e: DescriptorErrorV)
    requires
        0 <= i < items.len(),
        prefix_ok(items, i),
        !item_ok(items[i]),
    ensures
        forall|d: PluginDescriptorV| !(#[trigger] parse_ok_with(items, d)),
        parse_fails_with(items, e) <==> e == item_error(items, i),
{
    assert forall|d: PluginDescriptorV| !(#[trigger] parse_ok_with(items, d)) by {
        if parse_ok_with(items, d) {
            assert(item_ok(items[i]));
        }
    }
    if parse_fails_with(items, e) {
        match e {
            DescriptorErrorV::MissingField { field } => {
                assert(item_ok(items[i]));
            },
            _ => {
                let j = crate::descriptor::error_index(e);
                if j < i {
                    assert(item_ok(items[j]));
                } else if j > i {
                    assert(item_ok(items[i]));
                }
                assert(j == i);
            },
        }
    }
    if e == item_error(items, i) {
        match items[i] {
            AnnItemV::Pair { key, value } => {
                assert(parse_fails_with(items, e));
            },
            _ => {
                assert(parse_fails_with(items, e));
            },
        }
    }
}

/// Unknown-key rejection: a pair whose key the schema does not recognize,
/// standing after acceptable items, makes the parse fail with `UnknownKey`
/// naming that key, whatever the other items hold.
pub proof fn lemma_unknown_key_rejected(
    items: Seq<AnnItemV>,
    i: int,
    k: Seq<char>,
    e: DescriptorErrorV,
)
    requires
        0 <= i < items.len(),
        prefix_ok(items, i),
        items[i] matches AnnItemV::Pair { key, value } && key == k && value is StrLit,
        !is_known_key(k),
    ensures
        forall|d: PluginDescriptorV| !(#[trigger] parse_ok_with(items, d)),
        parse_fails_with(items, e) <==> e == (DescriptorErrorV::UnknownKey { index: i, key: k }),
{
    lemma_first_bad_item(items, i, e);
}

/// Non-literal rejection: a pair whose value is not a string literal,
/// standing after acceptable items, makes the parse fail with
/// `NonStringValue` naming its key, whether or not the key is recognized.
pub proof fn lemma_non_literal_rejected(
    items: Seq<AnnItemV>,
    i: int,
    k: Seq<char>,
    e: DescriptorErrorV,
)
    requires
        0 <= i < items.len(),
        prefix_ok(items, i),
        items[i] matches AnnItemV::Pair { key, value } && key == k && !(value is StrLit),
    ensures
        forall|d: PluginDescriptorV| !(#[trigger] parse_ok_with(items, d)),
        parse_fails_with(items, e) <==> e == (DescriptorErrorV::NonStringValue {
            index: i,
            key: k,
        }),
{
    lemma_first_bad_item(items, i, e);
}

/// Order and multiplicity preservation: whatever names a successful parse
/// of a subscriptions list returns, they are exactly the token list's
/// identifiers mapped across in place: same length, same order, duplicates
/// kept.
pub proof fn lemma_subscription_order(tokens: Seq<EventTokenV>, names: Seq<Seq<char>>)
    requires
        subs_ok_with(tokens, names),
    ensures
        names == crate::handler::token_names(tokens),
{
    assert(names =~= crate::handler::token_names(tokens));
}

/// Empty subscriptions: the empty token list is not a failure; it parses,
/// and only to the empty sequence of names.
pub proof fn lemma_empty_subscriptions(
    tokens: Seq<EventTokenV>,
    names: Seq<Seq<char>>,
    e: MalformedEventToken,
)
    requires
        tokens.len() == 0,
    ensures
        !subs_fails_with(tokens, e),
        subs_ok_with(tokens, names) <==> names == Seq::<Seq<char>>::empty(),
{
    if names == Seq::<Seq<char>>::empty() {
        assert(subs_ok_with(tokens, names));
    }
    if subs_ok_with(tokens, names) {
        assert(names =~= Seq::<Seq<char>>::empty());
    }
}

/// Declaration-kind guard: on anything but a structure the subscription
/// unit cannot succeed, and its one diagnostic is
/// `UnsupportedDeclarationKind`, whatever attributes the declaration
/// carries.
pub proof fn lemma_declaration_kind_guard(
    decl: crate::ann::DeclarationV,
    src: Seq<char>,
    e: HandlerError,
)
    requires
        !(decl.kind is Structure),
    ensures
        !handler_ok_with(decl, src),
        handler_fails_with(decl, e) <==> e == HandlerError::UnsupportedDeclarationKind,
{
}

} // verus!
