//! The descriptor unit's parser: reads a `key = "value"` annotation block
//! into a `PluginDescriptor`, or fails with the first diagnostic the schema
//! calls for.

use vstd::prelude::*;
use vstd::string::StringExecFns;
use crate::ann::{AnnItem, AnnItemV, AnnValue, AnnValueV, items_view};
use crate::strops::str_eq;

verus! {

/// The four required descriptor fields, all string-valued, as written in the
/// annotation.  A value of this type only ever exists fully populated.
#[derive(Clone, Debug)]
pub struct PluginDescriptor {
    pub id: String,
    pub name: String,
    pub version: String,
    pub api_version: String,
}

/// The view of a `PluginDescriptor`.
pub struct PluginDescriptorV {
    pub id: Seq<char>,
    pub name: Seq<char>,
    pub version: Seq<char>,
    pub api_version: Seq<char>,
}

impl View for PluginDescriptor {
    type V = PluginDescriptorV;

    open spec fn view(&self) -> PluginDescriptorV {
        PluginDescriptorV {
            id: self.id@,
            name: self.name@,
            version: self.version@,
            api_version: self.api_version@,
        }
    }
}

/// Which required descriptor field a diagnostic names.
#[derive(Clone, Copy, Debug, PartialEq, Eq, Structural)]
pub enum FieldName {
    Id,
    Name,
    Version,
    Api,
}

/// A diagnostic of the descriptor parser.  The index is the position of the
/// offending item in the annotation block; a missing field has no single
/// offending item and names the field instead.
#[derive(Clone, Debug)]
pub enum DescriptorError {
    MalformedKey { index: usize },
    NonStringValue { index: usize, key: String },
    UnknownKey { index: usize, key: String },
    MissingField { field: FieldName },
}

/// The view of a `DescriptorError`.
pub enum DescriptorErrorV {
    MalformedKey { index: int },
    NonStringValue { index: int, key: Seq<char> },
    UnknownKey { index: int, key: Seq<char> },
    MissingField { field: FieldName },
}

impl View for DescriptorError {
    type V = DescriptorErrorV;

    open spec fn view(&self) -> DescriptorErrorV {
        match self {
            DescriptorError::MalformedKey { index } => DescriptorErrorV::MalformedKey {
                index: *index as int,
            },
            DescriptorError::NonStringValue { index, key } => DescriptorErrorV::NonStringValue {
                index: *index as int,
                key: key@,
            },
            DescriptorError::UnknownKey { index, key } => DescriptorErrorV::UnknownKey {
                index: *index as int,
                key: key@,
            },
            DescriptorError::MissingField { field } => DescriptorErrorV::MissingField {
                field: *field,
            },
        }
    }
}

/// The text of the diagnostic a descriptor error carries.
pub open spec fn descriptor_error_message(e: DescriptorErrorV) -> Seq<char> {
    match e {
        DescriptorErrorV::MalformedKey { index } => {
            "Expected `key = \"value\"` format with an identifier key (e.g., 'id')"@
        },
        DescriptorErrorV::NonStringValue { index, key } => {
            "Expected a string literal for key '"@ + key + "'"@
        },
        DescriptorErrorV::UnknownKey { index, key } => {
            "Unknown key '"@ + key + "'. Expected 'id', 'name', 'version', or 'api'"@
        },
        DescriptorErrorV::MissingField { field } => {
            "Missing required field '"@ + field_key(field) + "'"@
        },
    }
}

impl DescriptorError {
    /// The human-readable diagnostic, exactly as `descriptor_error_message`
    /// states it.
    pub fn message(&self) -> (r: String)
        ensures
            r@ == descriptor_error_message(self@),
    {
        match self {
            DescriptorError::MalformedKey { index } => {
                let mut m = String::new();
                m.append("Expected `key = \"value\"` format with an identifier key (e.g., 'id')");
                proof {
                    assert(m@ =~= descriptor_error_message(self@));
                }
                m
            },
            DescriptorError::NonStringValue { index, key } => {
                let mut m = String::new();
                m.append("Expected a string literal for key '");
                proof {
                    assert(m@ =~= "Expected a string literal for key '"@);
                }
                m.append(key.as_str());
                m.append("'");
                m
            },
            DescriptorError::UnknownKey { index, key } => {
                let mut m = String::new();
                m.append("Unknown key '");
                proof {
                    assert(m@ =~= "Unknown key '"@);
                }
                m.append(key.as_str());
                m.append("'. Expected 'id', 'name', 'version', or 'api'");
                m
            },
            DescriptorError::MissingField { field } => {
                let mut m = String::new();
                m.append("Missing required field '");
                proof {
                    assert(m@ =~= "Missing required field '"@);
                }
                match field {
                    FieldName::Id => m.append("id"),
                    FieldName::Name => m.append("name"),
                    FieldName::Version => m.append("version"),
                    FieldName::Api => m.append("api"),
                }
                m.append("'");
                m
            },
        }
    }
}

pub open spec fn id_key() -> Seq<char> {
    "id"@
}

pub open spec fn name_key() -> Seq<char> {
    "name"@
}

pub open spec fn version_key() -> Seq<char> {
    "version"@
}

pub open spec fn api_key() -> Seq<char> {
    "api"@
}

/// The annotation key that supplies a required field.
pub open spec fn field_key(f: FieldName) -> Seq<char> {
    match f {
        FieldName::Id => id_key(),
        FieldName::Name => name_key(),
        FieldName::Version => version_key(),
        FieldName::Api => api_key(),
    }
}

/// The keys the schema recognizes: exactly the four required ones.
pub open spec fn is_known_key(k: Seq<char>) -> bool {
    ||| k == id_key()
    ||| k == name_key()
    ||| k == version_key()
    ||| k == api_key()
}

/// An item the descriptor parser accepts: a pair with a bare-identifier key
/// the schema recognizes and a string-literal value.
pub open spec fn item_ok(it: AnnItemV) -> bool {
    match it {
        AnnItemV::Pair { key, value } => is_known_key(key) && value is StrLit,
        _ => false,
    }
}

/// The first `n` items are all acceptable.
pub open spec fn prefix_ok(items: Seq<AnnItemV>, n: int) -> bool {
    forall|j: int| 0 <= j < n ==> item_ok(#[trigger] items[j])
}

/// Every item is acceptable.
pub open spec fn all_items_ok(items: Seq<AnnItemV>) -> bool {
    prefix_ok(items, items.len() as int)
}

/// The value of the last `k = "..."` pair in the block, if any: duplicate
/// keys are not rejected, the last occurrence wins.
pub open spec fn last_str(items: Seq<AnnItemV>, k: Seq<char>) -> Option<Seq<char>>
    decreases items.len(),
{
    if items.len() == 0 {
        None
    } else {
        match items.last() {
            AnnItemV::Pair { key, value } => match value {
                AnnValueV::StrLit(s) => if key == k {
                    Some(s)
                } else {
                    last_str(items.drop_last(), k)
                },
                AnnValueV::NotStrLit => last_str(items.drop_last(), k),
            },
            _ => last_str(items.drop_last(), k),
        }
    }
}

/// The diagnostic item `i` alone provokes; meaningful only when
/// `!item_ok(items[i])`.
pub open spec fn item_error(items: Seq<AnnItemV>, i: int) -> DescriptorErrorV {
    match items[i] {
        AnnItemV::Pair { key, value } => if !(value is StrLit) {
            DescriptorErrorV::NonStringValue { index: i, key }
        } else {
            DescriptorErrorV::UnknownKey { index: i, key }
        },
        _ => DescriptorErrorV::MalformedKey { index: i },
    }
}

/// The first required field, in the order id, name, version, api, that no
/// pair in the block supplies.
pub open spec fn first_missing(items: Seq<AnnItemV>) -> Option<FieldName> {
    if last_str(items, id_key()) is None {
        Some(FieldName::Id)
    } else if last_str(items, name_key()) is None {
        Some(FieldName::Name)
    } else if last_str(items, version_key()) is None {
        Some(FieldName::Version)
    } else if last_str(items, api_key()) is None {
        Some(FieldName::Api)
    } else {
        None
    }
}

/// What a successful parse returns: every item was acceptable, no required
/// field is missing, and each field holds the last value its key was given.
pub open spec fn parse_ok_with(items: Seq<AnnItemV>, d: PluginDescriptorV) -> bool {
    &&& all_items_ok(items)
    &&& first_missing(items) is None
    &&& Some(d.id) == last_str(items, id_key())
    &&& Some(d.name) == last_str(items, name_key())
    &&& Some(d.version) == last_str(items, version_key())
    &&& Some(d.api_version) == last_str(items, api_key())
}

/// The index an item diagnostic points at.
pub open spec fn error_index(e: DescriptorErrorV) -> int {
    match e {
        DescriptorErrorV::MalformedKey { index } => index,
        DescriptorErrorV::NonStringValue { index, key } => index,
        DescriptorErrorV::UnknownKey { index, key } => index,
        DescriptorErrorV::MissingField { field } => -1,
    }
}

/// When, and with which diagnostic, the parse fails: the diagnostic of the
/// first unacceptable item, or, when every item is acceptable, the first
/// required field no pair supplies.
pub open spec fn parse_fails_with(items: Seq<AnnItemV>, e: DescriptorErrorV) -> bool {
    match e {
        DescriptorErrorV::MissingField { field } => {
            &&& all_items_ok(items)
            &&& first_missing(items) == Some(field)
        },
        _ => {
            let i = error_index(e);
            &&& 0 <= i < items.len()
            &&& prefix_ok(items, i)
            &&& !item_ok(items[i])
            &&& e == item_error(items, i)
        },
    }
}

/// Scanning one more item changes the last-seen value of key `k` exactly
/// when that item is a `k = "..."` pair.
pub proof fn lemma_last_str_step(items: Seq<AnnItemV>, i: int, k: Seq<char>)
    requires
        0 <= i < items.len(),
    ensures
        last_str(items.take(i + 1), k) == (match items[i] {
            AnnItemV::Pair { key, value } => match value {
                AnnValueV::StrLit(sv) => if key == k {
                    Some(sv)
                } else {
                    last_str(items.take(i), k)
                },
                AnnValueV::NotStrLit => last_str(items.take(i), k),
            },
            _ => last_str(items.take(i), k),
        }),
{
    assert(items.take(i + 1).drop_last() =~= items.take(i));
    assert(items.take(i + 1).last() == items[i]);
}

/// The view of an optional field value while the block is being scanned.
pub open spec fn opt_view(o: Option<String>) -> Option<Seq<char>> {
    match o {
        Some(s) => Some(s@),
        None => None,
    }
}

/// Parses a descriptor annotation block.  Scans the items in order; the
/// first item that is not an acceptable `key = "literal"` pair decides the
/// diagnostic, a later key occurrence overwrites an earlier one, and once
/// all items are scanned each of the four required fields must have been
/// seen.  Succeeds exactly on blocks where every item is acceptable and no
/// required field is missing.
pub fn parse_descriptor(items: &Vec<AnnItem>) -> (r: Result<PluginDescriptor, DescriptorError>)
    ensures
        match r {
            Ok(d) => parse_ok_with(items_view(items@), d@),
            Err(e) => parse_fails_with(items_view(items@), e@),
        },
{
    let ghost s = items_view(items@);
    let mut id: Option<String> = None;
    let mut name: Option<String> = None;
    let mut version: Option<String> = None;
    let mut api: Option<String> = None;

    let n = items.len();
    assert(s.len() == n);
    let mut i: usize = 0;
    while i < n
        invariant
            n == items.len(),
            s == items_view(items@),
            s.len() == n,
            i <= n,
            prefix_ok(s, i as int),
            opt_view(id) == last_str(s.take(i as int), id_key()),
            opt_view(name) == last_str(s.take(i as int), name_key()),
            opt_view(version) == last_str(s.take(i as int), version_key()),
            opt_view(api) == last_str(s.take(i as int), api_key()),
        decreases n - i,
    {
        proof {
            reveal_strlit("id");
            reveal_strlit("name");
            reveal_strlit("version");
            reveal_strlit("api");
            assert(id_key().len() == 2);
            assert(name_key().len() == 4);
            assert(version_key().len() == 7);
            assert(api_key().len() == 3);
            assert(s[i as int] == items@[i as int]@);
            lemma_last_str_step(s, i as int, id_key());
            lemma_last_str_step(s, i as int, name_key());
            lemma_last_str_step(s, i as int, version_key());
            lemma_last_str_step(s, i as int, api_key());
        }
        match &items[i] {
            AnnItem::Pair { key, value } => {
                match value {
                    AnnValue::StrLit(v) => {
                        if str_eq(key.as_str(), "id") {
                            id = Some(v.clone());
                        } else if str_eq(key.as_str(), "name") {
                            name = Some(v.clone());
                        } else if str_eq(key.as_str(), "version") {
                            version = Some(v.clone());
                        } else if str_eq(key.as_str(), "api") {
                            api = Some(v.clone());
                        } else {
                            return Err(DescriptorError::UnknownKey { index: i, key: key.clone() });
                        }
                    },
                    AnnValue::NotStrLit => {
                        return Err(DescriptorError::NonStringValue {
                            index: i,
                            key: key.clone(),
                        });
                    },
                }
            },
            AnnItem::BadKey => {
                return Err(DescriptorError::MalformedKey { index: i });
            },
            AnnItem::NotPair => {
                return Err(DescriptorError::MalformedKey { index: i });
            },
        }
        i = i + 1;
    }
    proof {
        assert(s.take(n as int) =~= s);
    }
    let id = match id {
        Some(v) => v,
        None => {
            return Err(DescriptorError::MissingField { field: FieldName::Id });
        },
    };
    let name = match name {
        Some(v) => v,
        None => {
            return Err(DescriptorError::MissingField { field: FieldName::Name });
        },
    };
    let version = match version {
        Some(v) => v,
        None => {
            return Err(DescriptorError::MissingField { field: FieldName::Version });
        },
    };
    let api = match api {
        Some(v) => v,
        None => {
            return Err(DescriptorError::MissingField { field: FieldName::Api });
        },
    };
    Ok(PluginDescriptor { id, name, version, api_version: api })
}

} // verus!
