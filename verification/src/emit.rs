//! The two emitters: given validated annotation data and the name of the
//! annotated type, they produce the source text of the capability-interface
//! implementation the host splices next to the declaration.  Emission is
//! total: it cannot fail on a validated input, and the accessors it writes
//! return the annotated strings byte for byte.

use vstd::prelude::*;
use vstd::string::{StrSliceExecFns, StringExecFns};
use crate::ann::{AnnItem, items_view};
use crate::descriptor::{
    DescriptorError, PluginDescriptor, PluginDescriptorV, all_items_ok, api_key, first_missing,
    id_key, last_str, name_key, parse_descriptor, parse_fails_with,
    version_key,
};
use crate::strops::push_char;
use crate::subscriptions::names_view;

verus! {

/// How one character of an annotated string is written inside the emitted
/// string literal: the backslash, the quote and the common control
/// characters take an escape, every other character stands as itself.
pub open spec fn escape_char(c: char) -> Seq<char> {
    if c == '\\' {
        seq!['\\', '\\']
    } else if c == '"' {
        seq!['\\', '"']
    } else if c == '\n' {
        seq!['\\', 'n']
    } else if c == '\r' {
        seq!['\\', 'r']
    } else if c == '\t' {
        seq!['\\', 't']
    } else {
        seq![c]
    }
}

/// The body of the emitted string literal for an annotated string: each
/// character escaped, in order.
pub open spec fn escaped(s: Seq<char>) -> Seq<char>
    decreases s.len(),
{
    if s.len() == 0 {
        Seq::empty()
    } else {
        escaped(s.drop_last()) + escape_char(s.last())
    }
}

/// The emitted string literal for an annotated string: the escaped body
/// between double quotes.
pub open spec fn lit_text(s: Seq<char>) -> Seq<char> {
    seq!['"'] + escaped(s) + seq!['"']
}

/// Appends the escaped body of `s` to `out`.
fn push_escaped(out: &mut String, s: &str)
    ensures
        final(out)@ == old(out)@ + escaped(s@),
{
    let n = s.unicode_len();
    let mut i: usize = 0;
    proof {
        assert(old(out)@ + escaped(s@.take(0)) =~= old(out)@);
    }
    while i < n
        invariant
            n == s@.len(),
            i <= n,
            out@ == old(out)@ + escaped(s@.take(i as int)),
        decreases n - i,
    {
        proof {
            assert(s@.take(i + 1 as int).drop_last() =~= s@.take(i as int));
            assert(s@.take(i + 1 as int).last() == s@[i as int]);
        }
        let c = s.get_char(i);
        if c == '\\' {
            push_char(out, '\\');
            push_char(out, '\\');
        } else if c == '"' {
            push_char(out, '\\');
            push_char(out, '"');
        } else if c == '\n' {
            push_char(out, '\\');
            push_char(out, 'n');
        } else if c == '\r' {
            push_char(out, '\\');
            push_char(out, 'r');
        } else if c == '\t' {
            push_char(out, '\\');
            push_char(out, 't');
        } else {
            push_char(out, c);
        }
        proof {
            assert(out@ =~= old(out)@ + escaped(s@.take(i + 1 as int)));
        }
        i = i + 1;
    }
    proof {
        assert(s@.take(n as int) =~= s@);
    }
}

/// Appends the emitted string literal for `s` to `out`.
fn push_lit(out: &mut String, s: &str)
    ensures
        final(out)@ == old(out)@ + lit_text(s@),
{
    push_char(out, '"');
    push_escaped(out, s);
    push_char(out, '"');
    proof {
        assert(out@ =~= old(out)@ + lit_text(s@));
    }
}

/// The full source text of the `Plugin` implementation emitted for a
/// descriptor: five accessors, each returning the annotated literal.
pub open spec fn descriptor_impl_text(d: PluginDescriptorV, decl_name: Seq<char>) -> Seq<char> {
    "impl dragonfly_plugin::Plugin for "@ + decl_name
        + " {\n    fn get_info(&self) -> dragonfly_plugin::PluginInfo<'static> {\n        dragonfly_plugin::PluginInfo::<'static> {\n            id: "@
        + lit_text(d.id) + ",\n            name: "@ + lit_text(d.name)
        + ",\n            version: "@ + lit_text(d.version) + ",\n            api_version: "@
        + lit_text(d.api_version)
        + "\n        }\n    }\n    fn get_id(&self) -> &'static str {\n        "@ + lit_text(d.id)
        + "\n    }\n    fn get_name(&self) -> &'static str {\n        "@ + lit_text(d.name)
        + "\n    }\n    fn get_version(&self) -> &'static str {\n        "@ + lit_text(d.version)
        + "\n    }\n    fn get_api_version(&self) -> &'static str {\n        "@
        + lit_text(d.api_version) + "\n    }\n}\n"@
}

/// Emits the `Plugin` implementation for a validated descriptor.  Total:
/// every descriptor and type name is accepted, and the result is exactly
/// the text `descriptor_impl_text` describes.
pub fn emit_plugin_impl(d: &PluginDescriptor, decl_name: &str) -> (r: String)
    ensures
        r@ == descriptor_impl_text(d@, decl_name@),
{
    let mut out = String::new();
    out.append("impl dragonfly_plugin::Plugin for ");
    proof {
        assert(out@ =~= "impl dragonfly_plugin::Plugin for "@);
    }
    out.append(decl_name);
    out.append(
        " {\n    fn get_info(&self) -> dragonfly_plugin::PluginInfo<'static> {\n        dragonfly_plugin::PluginInfo::<'static> {\n            id: ",
    );
    push_lit(&mut out, d.id.as_str());
    out.append(",\n            name: ");
    push_lit(&mut out, d.name.as_str());
    out.append(",\n            version: ");
    push_lit(&mut out, d.version.as_str());
    out.append(",\n            api_version: ");
    push_lit(&mut out, d.api_version.as_str());
    out.append("\n        }\n    }\n    fn get_id(&self) -> &'static str {\n        ");
    push_lit(&mut out, d.id.as_str());
    out.append("\n    }\n    fn get_name(&self) -> &'static str {\n        ");
    push_lit(&mut out, d.name.as_str());
    out.append("\n    }\n    fn get_version(&self) -> &'static str {\n        ");
    push_lit(&mut out, d.version.as_str());
    out.append("\n    }\n    fn get_api_version(&self) -> &'static str {\n        ");
    push_lit(&mut out, d.api_version.as_str());
    out.append("\n    }\n}\n");
    out
}

/// The descriptor a successful parse of the block yields: each field is the
/// last value its key was given.
pub open spec fn opt_or_empty(o: Option<Seq<char>>) -> Seq<char> {
    match o {
        Some(s) => s,
        None => Seq::empty(),
    }
}

/// The descriptor the block describes, meaningful when no field is missing.
pub open spec fn parsed_descriptor(items: Seq<crate::ann::AnnItemV>) -> PluginDescriptorV {
    PluginDescriptorV {
        id: opt_or_empty(last_str(items, id_key())),
        name: opt_or_empty(last_str(items, name_key())),
        version: opt_or_empty(last_str(items, version_key())),
        api_version: opt_or_empty(last_str(items, api_key())),
    }
}

/// The descriptor unit in one step: parses the annotation block and, when
/// it is valid, emits the `Plugin` implementation for the annotated type;
/// otherwise hands back the parser's diagnostic untouched.
pub fn generate_plugin_impl(items: &Vec<AnnItem>, decl_name: &str) -> (r: Result<
    String,
    DescriptorError,
>)
    ensures
        match r {
            Ok(src) => {
                &&& all_items_ok(items_view(items@))
                &&& first_missing(items_view(items@)) is None
                &&& src@ == descriptor_impl_text(
                    parsed_descriptor(items_view(items@)),
                    decl_name@,
                )
            },
            Err(e) => parse_fails_with(items_view(items@), e@),
        },
{
    match parse_descriptor(items) {
        Ok(d) => {
            assert(d@ == parsed_descriptor(items_view(items@)));
            Ok(emit_plugin_impl(&d, decl_name))
        },
        Err(e) => Err(e),
    }
}

/// The emitted list of event-type values, one per subscribed name, in
/// order, comma-separated.
pub open spec fn event_list_text(events: Seq<Seq<char>>) -> Seq<char>
    decreases events.len(),
{
    if events.len() == 0 {
        Seq::empty()
    } else {
        let rest = events.drop_last();
        event_list_text(rest) + (if rest.len() == 0 {
            Seq::<char>::empty()
        } else {
            ", "@
        }) + "types::EventType::"@ + events.last()
    }
}

/// The full source text of the `PluginSubscriptions` implementation emitted
/// for a subscription list: one operation that builds a fresh ordered
/// collection holding one tagged event-type value per subscribed name.
pub open spec fn subscriptions_impl_text(decl_name: Seq<char>, events: Seq<Seq<char>>) -> Seq<
    char,
> {
    "impl dragonfly_plugin::PluginSubscriptions for "@ + decl_name
        + " {\n    fn get_subscriptions(&self) -> Vec<types::EventType> {\n        vec!["@
        + event_list_text(events) + "]\n    }\n}\n"@
}

/// Emits the `PluginSubscriptions` implementation for a parsed subscription
/// list.  Total, and exactly the text `subscriptions_impl_text` describes:
/// the annotation's order and multiplicity are reproduced in the emitted
/// list.
pub fn emit_subscriptions_impl(events: &Vec<String>, decl_name: &str) -> (r: String)
    ensures
        r@ == subscriptions_impl_text(decl_name@, names_view(events@)),
{
    let ghost evs = names_view(events@);
    let mut out = String::new();
    out.append("impl dragonfly_plugin::PluginSubscriptions for ");
    proof {
        assert(out@ =~= "impl dragonfly_plugin::PluginSubscriptions for "@);
    }
    out.append(decl_name);
    out.append(" {\n    fn get_subscriptions(&self) -> Vec<types::EventType> {\n        vec![");
    let ghost pre = out@;
    let n = events.len();
    assert(evs.len() == n);
    let mut i: usize = 0;
    proof {
        assert(out@ =~= pre + event_list_text(evs.take(0)));
    }
    while i < n
        invariant
            n == events.len(),
            evs == names_view(events@),
            evs.len() == n,
            i <= n,
            out@ == pre + event_list_text(evs.take(i as int)),
        decreases n - i,
    {
        proof {
            assert(evs.take(i + 1 as int).drop_last() =~= evs.take(i as int));
            assert(evs.take(i + 1 as int).last() == evs[i as int]);
            assert(evs[i as int] == events@[i as int]@);
        }
        if i > 0 {
            out.append(", ");
        }
        out.append("types::EventType::");
        out.append(events[i].as_str());
        proof {
            assert(out@ =~= pre + event_list_text(evs.take(i + 1 as int)));
        }
        i = i + 1;
    }
    proof {
        assert(evs.take(n as int) =~= evs);
    }
    out.append("]\n    }\n}\n");
    out
}

} // verus!
