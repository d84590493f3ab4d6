//! The message data model: one catalog record in one of five shapes,
//! its mathematical view, and the identity projection.

use vstd::prelude::*;

verus! {

/// One record of a Portable Object catalog.
///
/// `Header` holds the catalog metadata block, keyed by an empty
/// identifier. The other four shapes pair one source string (`msgid`,
/// plus `msgid_plural` for plural groups, plus `msgctxt` when the
/// message is disambiguated by a context) with its translation content.
#[derive(Debug, Clone, Hash, Eq, PartialEq, Ord, PartialOrd)]
pub enum PoMessage {
    Header { msgstr: String },
    Regular { msgid: String, msgstr: String },
    RegularWithContext { msgid: String, msgctxt: String, msgstr: String },
    Plural { msgid: String, msgid_plural: String, msgstr: Vec<String> },
    PluralWithContext { msgid: String, msgid_plural: String, msgctxt: String, msgstr: Vec<String> },
}

/// The mathematical shape of a record: the same five variants over
/// character sequences.
pub enum MessageModel {
    Header { msgstr: Seq<char> },
    Regular { msgid: Seq<char>, msgstr: Seq<char> },
    RegularWithContext { msgid: Seq<char>, msgctxt: Seq<char>, msgstr: Seq<char> },
    Plural { msgid: Seq<char>, msgid_plural: Seq<char>, msgstr: Seq<Seq<char>> },
    PluralWithContext {
        msgid: Seq<char>,
        msgid_plural: Seq<char>,
        msgctxt: Seq<char>,
        msgstr: Seq<Seq<char>>,
    },
}

impl View for PoMessage {
    type V = MessageModel;

    open spec fn view(&self) -> MessageModel {
        match self {
            PoMessage::Header { msgstr } => MessageModel::Header { msgstr: msgstr@ },
            PoMessage::Regular { msgid, msgstr } => MessageModel::Regular {
                msgid: msgid@,
                msgstr: msgstr@,
            },
            PoMessage::RegularWithContext { msgid, msgctxt, msgstr } => {
                MessageModel::RegularWithContext {
                    msgid: msgid@,
                    msgctxt: msgctxt@,
                    msgstr: msgstr@,
                }
            },
            PoMessage::Plural { msgid, msgid_plural, msgstr } => MessageModel::Plural {
                msgid: msgid@,
                msgid_plural: msgid_plural@,
                msgstr: msgstr.deep_view(),
            },
            PoMessage::PluralWithContext { msgid, msgid_plural, msgctxt, msgstr } => {
                MessageModel::PluralWithContext {
                    msgid: msgid@,
                    msgid_plural: msgid_plural@,
                    msgctxt: msgctxt@,
                    msgstr: msgstr.deep_view(),
                }
            },
        }
    }
}

impl DeepView for PoMessage {
    type V = MessageModel;

    open spec fn deep_view(&self) -> MessageModel {
        self.view()
    }
}

/// The identity projection at the level of models: the same identity
/// fields, the translation content replaced by its empty form. The
/// header block carries no translation slots of its own, so it is kept
/// whole.
pub open spec fn spec_to_key(m: MessageModel) -> MessageModel {
    match m {
        MessageModel::Header { msgstr } => MessageModel::Header { msgstr },
        MessageModel::Regular { msgid, .. } => MessageModel::Regular {
            msgid,
            msgstr: Seq::empty(),
        },
        MessageModel::RegularWithContext { msgid, msgctxt, .. } => {
            MessageModel::RegularWithContext { msgid, msgctxt, msgstr: Seq::empty() }
        },
        MessageModel::Plural { msgid, msgid_plural, .. } => MessageModel::Plural {
            msgid,
            msgid_plural,
            msgstr: Seq::empty(),
        },
        MessageModel::PluralWithContext { msgid, msgid_plural, msgctxt, .. } => {
            MessageModel::PluralWithContext {
                msgid,
                msgid_plural,
                msgctxt,
                msgstr: Seq::empty(),
            }
        },
    }
}

/// Transplanting translation content onto another record's identity, at
/// the level of models. Pairs of the same family (regular onto regular,
/// plural onto plural, with or without context on either side) merge
/// field by field; for a pair of headers the source is kept whole; for
/// any other pair the key is returned unchanged, which drops the new
/// translation content.
pub open spec fn spec_with_key(source: MessageModel, key: MessageModel) -> MessageModel {
    match (key, source) {
        (
            MessageModel::Regular { msgid, .. },
            MessageModel::Regular { msgstr, .. },
        ) => MessageModel::Regular { msgid, msgstr },
        (
            MessageModel::Regular { msgid, .. },
            MessageModel::RegularWithContext { msgstr, .. },
        ) => MessageModel::Regular { msgid, msgstr },
        (
            MessageModel::RegularWithContext { msgid, msgctxt, .. },
            MessageModel::Regular { msgstr, .. },
        ) => MessageModel::RegularWithContext { msgid, msgctxt, msgstr },
        (
            MessageModel::RegularWithContext { msgid, msgctxt, .. },
            MessageModel::RegularWithContext { msgstr, .. },
        ) => MessageModel::RegularWithContext { msgid, msgctxt, msgstr },
        (
            MessageModel::Plural { msgid, msgid_plural, .. },
            MessageModel::Plural { msgstr, .. },
        ) => MessageModel::Plural { msgid, msgid_plural, msgstr },
        (
            MessageModel::Plural { msgid, msgid_plural, .. },
            MessageModel::PluralWithContext { msgstr, .. },
        ) => MessageModel::Plural { msgid, msgid_plural, msgstr },
        (
            MessageModel::PluralWithContext { msgid, msgid_plural, msgctxt, .. },
            MessageModel::Plural { msgstr, .. },
        ) => MessageModel::PluralWithContext { msgid, msgid_plural, msgctxt, msgstr },
        (
            MessageModel::PluralWithContext { msgid, msgid_plural, msgctxt, .. },
            MessageModel::PluralWithContext { msgstr, .. },
        ) => MessageModel::PluralWithContext { msgid, msgid_plural, msgctxt, msgstr },
        (MessageModel::Header { .. }, MessageModel::Header { msgstr }) => {
            MessageModel::Header { msgstr }
        },
        _ => key,
    }
}

/// Clones a vector of strings, keeping the character content of every
/// element.
pub fn clone_strings(v: &Vec<String>) -> (r: Vec<String>)
    ensures
        r.deep_view() == v.deep_view(),
{
    let mut r: Vec<String> = Vec::new();
    let n = v.len();
    let mut i: usize = 0;
    while i < n
        invariant
            n == v@.len(),
            i <= n,
            r@.len() == i,
            forall|j: int| 0 <= j < i ==> r@[j]@ == v@[j]@,
        decreases n - i,
    {
        r.push(v[i].clone());
        i = i + 1;
    }
    assert(r.deep_view() =~= v.deep_view());
    r
}

/// Clones a record, keeping the character content of every field.
pub fn clone_message(m: &PoMessage) -> (r: PoMessage)
    ensures
        r@ == m@,
{
    match m {
        PoMessage::Header { msgstr } => PoMessage::Header { msgstr: msgstr.clone() },
        PoMessage::Regular { msgid, msgstr } => PoMessage::Regular {
            msgid: msgid.clone(),
            msgstr: msgstr.clone(),
        },
        PoMessage::RegularWithContext { msgid, msgctxt, msgstr } => {
            PoMessage::RegularWithContext {
                msgid: msgid.clone(),
                msgctxt: msgctxt.clone(),
                msgstr: msgstr.clone(),
            }
        },
        PoMessage::Plural { msgid, msgid_plural, msgstr } => PoMessage::Plural {
            msgid: msgid.clone(),
            msgid_plural: msgid_plural.clone(),
            msgstr: clone_strings(msgstr),
        },
        PoMessage::PluralWithContext { msgid, msgid_plural, msgctxt, msgstr } => {
            PoMessage::PluralWithContext {
                msgid: msgid.clone(),
                msgid_plural: msgid_plural.clone(),
                msgctxt: msgctxt.clone(),
                msgstr: clone_strings(msgstr),
            }
        },
    }
}

impl PoMessage {
    /// The identity of this record: the same variant and identity
    /// fields, every translation slot emptied. Records with equal keys
    /// describe the same source message.
    pub fn to_key(&self) -> (r: Self)
        ensures
            r@ == spec_to_key(self@),
    {
        match self {
            PoMessage::Header { .. } => clone_message(self),
            PoMessage::Regular { msgid, .. } => PoMessage::Regular {
                msgid: msgid.clone(),
                msgstr: String::new(),
            },
            PoMessage::RegularWithContext { msgid, msgctxt, .. } => {
                PoMessage::RegularWithContext {
                    msgid: msgid.clone(),
                    msgctxt: msgctxt.clone(),
                    msgstr: String::new(),
                }
            },
            PoMessage::Plural { msgid, msgid_plural, .. } => {
                let r = PoMessage::Plural {
                    msgid: msgid.clone(),
                    msgid_plural: msgid_plural.clone(),
                    msgstr: Vec::new(),
                };
                proof {
                    assert(r@->Plural_msgstr =~= Seq::<Seq<char>>::empty());
                }
                r
            },
            PoMessage::PluralWithContext { msgid, msgid_plural, msgctxt, .. } => {
                let r = PoMessage::PluralWithContext {
                    msgid: msgid.clone(),
                    msgid_plural: msgid_plural.clone(),
                    msgctxt: msgctxt.clone(),
                    msgstr: Vec::new(),
                };
                proof {
                    assert(r@->PluralWithContext_msgstr =~= Seq::<Seq<char>>::empty());
                }
                r
            },
        }
    }

    /// A new record holding this record's translation content on `key`'s
    /// identity fields. For a pair whose families do not match, the
    /// fallback is explicit: `key` is returned unchanged and the new
    /// translation content is dropped.
    pub fn with_key(&self, key: &Self) -> (r: Self)
        ensures
            r@ == spec_with_key(self@, key@),
    {
        match (key, self) {
            (PoMessage::Regular { msgid, .. }, PoMessage::Regular { msgstr, .. }) => {
                PoMessage::Regular { msgid: msgid.clone(), msgstr: msgstr.clone() }
            },
            (PoMessage::Regular { msgid, .. }, PoMessage::RegularWithContext { msgstr, .. }) => {
                PoMessage::Regular { msgid: msgid.clone(), msgstr: msgstr.clone() }
            },
            (
                PoMessage::RegularWithContext { msgid, msgctxt, .. },
                PoMessage::Regular { msgstr, .. },
            ) => PoMessage::RegularWithContext {
                msgid: msgid.clone(),
                msgctxt: msgctxt.clone(),
                msgstr: msgstr.clone(),
            },
            (
                PoMessage::RegularWithContext { msgid, msgctxt, .. },
                PoMessage::RegularWithContext { msgstr, .. },
            ) => PoMessage::RegularWithContext {
                msgid: msgid.clone(),
                msgctxt: msgctxt.clone(),
                msgstr: msgstr.clone(),
            },
            (
                PoMessage::Plural { msgid, msgid_plural, .. },
                PoMessage::Plural { msgstr, .. },
            ) => PoMessage::Plural {
                msgid: msgid.clone(),
                msgid_plural: msgid_plural.clone(),
                msgstr: clone_strings(msgstr),
            },
            (
                PoMessage::Plural { msgid, msgid_plural, .. },
                PoMessage::PluralWithContext { msgstr, .. },
            ) => PoMessage::Plural {
                msgid: msgid.clone(),
                msgid_plural: msgid_plural.clone(),
                msgstr: clone_strings(msgstr),
            },
            (
                PoMessage::PluralWithContext { msgid, msgid_plural, msgctxt, .. },
                PoMessage::Plural { msgstr, .. },
            ) => PoMessage::PluralWithContext {
                msgid: msgid.clone(),
                msgid_plural: msgid_plural.clone(),
                msgctxt: msgctxt.clone(),
                msgstr: clone_strings(msgstr),
            },
            (
                PoMessage::PluralWithContext { msgid, msgid_plural, msgctxt, .. },
                PoMessage::PluralWithContext { msgstr, .. },
            ) => PoMessage::PluralWithContext {
                msgid: msgid.clone(),
                msgid_plural: msgid_plural.clone(),
                msgctxt: msgctxt.clone(),
                msgstr: clone_strings(msgstr),
            },
            (PoMessage::Header { .. }, PoMessage::Header { .. }) => clone_message(self),
            _ => clone_message(key),
        }
    }
}

} // verus!
