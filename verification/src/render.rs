//! The canonical serializer: one record rendered as escaped, wrapped
//! catalog text, the inverse of the parser.

use vstd::prelude::*;
use crate::chars::chars_to_string;
use crate::chars::push_str_chars;
use crate::chars::str_chars;
use crate::escape::push_decimal;
use crate::escape::push_escaped;
use crate::escape::spec_decimal;
use crate::escape::spec_escape;
use crate::message::MessageModel;
use crate::message::PoMessage;

verus! {

pub open spec fn kw_msgid() -> Seq<char> {
    seq!['m', 's', 'g', 'i', 'd']
}

pub open spec fn kw_msgstr() -> Seq<char> {
    seq!['m', 's', 'g', 's', 't', 'r']
}

pub open spec fn kw_msgid_plural() -> Seq<char> {
    seq!['m', 's', 'g', 'i', 'd', '_', 'p', 'l', 'u', 'r', 'a', 'l']
}

pub open spec fn kw_msgctxt() -> Seq<char> {
    seq!['m', 's', 'g', 'c', 't', 'x', 't']
}

/// One string field as it stands on disk: the escaped form between
/// double quotes.
pub open spec fn spec_quoted(s: Seq<char>) -> Seq<char> {
    seq!['"'] + spec_escape(s) + seq!['"']
}

/// The `msgstr[i]` lines of a plural record, from slot `i` on.
pub open spec fn spec_render_plurals(items: Seq<Seq<char>>, i: nat) -> Seq<char>
    decreases items.len(),
{
    if items.len() == 0 {
        Seq::empty()
    } else {
        kw_msgstr() + seq!['['] + spec_decimal(i) + seq![']', ' '] + spec_quoted(items[0])
            + seq!['\n'] + spec_render_plurals(items.skip(1), i + 1)
    }
}

/// The canonical text of a record: its fields in fixed order, each
/// string escaped and quoted, one trailing line break per field line.
pub open spec fn spec_render(m: MessageModel) -> Seq<char> {
    match m {
        MessageModel::Header { msgstr } => kw_msgid() + seq![' ', '"', '"', '\n'] + kw_msgstr()
            + seq![' '] + spec_quoted(msgstr) + seq!['\n'],
        MessageModel::Regular { msgid, msgstr } => kw_msgid() + seq![' ', ' '] + spec_quoted(msgid)
            + seq!['\n'] + kw_msgstr() + seq![' '] + spec_quoted(msgstr) + seq!['\n'],
        MessageModel::RegularWithContext { msgid, msgctxt, msgstr } => kw_msgctxt() + seq![' ']
            + spec_quoted(msgctxt) + seq!['\n'] + kw_msgid() + seq![' ', ' '] + spec_quoted(msgid)
            + seq!['\n'] + kw_msgstr() + seq![' '] + spec_quoted(msgstr) + seq!['\n'],
        MessageModel::Plural { msgid, msgid_plural, msgstr } => kw_msgid() + seq![' ']
            + spec_quoted(msgid) + seq!['\n'] + kw_msgid_plural() + seq![' ']
            + spec_quoted(msgid_plural) + seq!['\n'] + spec_render_plurals(msgstr, 0),
        MessageModel::PluralWithContext { msgid, msgid_plural, msgctxt, msgstr } => kw_msgctxt()
            + seq![' '] + spec_quoted(msgctxt) + seq!['\n'] + kw_msgid() + seq![' ']
            + spec_quoted(msgid) + seq!['\n'] + kw_msgid_plural() + seq![' ']
            + spec_quoted(msgid_plural) + seq!['\n'] + spec_render_plurals(msgstr, 0),
    }
}

/// Appends one quoted, escaped string field.
fn push_quoted(out: &mut Vec<char>, s: &Vec<char>)
    ensures
        final(out)@ == old(out)@ + spec_quoted(s@),
{
    out.push('"');
    push_escaped(out, s);
    out.push('"');
    assert(out@ =~= old(out)@ + spec_quoted(s@));
}

/// Appends a quoted field read from a string.
fn push_quoted_str(out: &mut Vec<char>, s: &String)
    ensures
        final(out)@ == old(out)@ + spec_quoted(s@),
{
    let v = str_chars(s.as_str());
    push_quoted(out, &v);
}

/// Appends the `msgstr[i]` lines of a plural record.
fn push_plurals(out: &mut Vec<char>, items: &Vec<String>)
    ensures
        final(out)@ == old(out)@ + spec_render_plurals(items.deep_view(), 0),
{
    let n = items.len();
    let ghost dv = items.deep_view();
    let ghost start = out@;
    assert(dv.skip(0) =~= dv);
    let mut i: usize = 0;
    while i < n
        invariant
            n == items@.len(),
            dv == items.deep_view(),
            i <= n,
            dv.len() == n,
            out@ + spec_render_plurals(dv.skip(i as int), i as nat) == start
                + spec_render_plurals(dv, 0),
        decreases n - i,
    {
        push_str_chars(out, "msgstr[");
        proof {
            reveal_strlit("msgstr[");
            assert("msgstr["@ =~= kw_msgstr() + seq!['[']);
        }
        push_decimal(out, i);
        push_str_chars(out, "] ");
        proof {
            reveal_strlit("] ");
            assert("] "@ =~= seq![']', ' ']);
        }
        push_quoted_str(out, &items[i]);
        out.push('\n');
        proof {
            let tail = dv.skip(i as int);
            assert(tail[0] == dv[i as int]);
            assert(items@[i as int]@ == dv[i as int]);
            assert(tail.skip(1) =~= dv.skip(i + 1));
            assert(spec_render_plurals(tail, i as nat) == kw_msgstr() + seq!['[']
                + spec_decimal(i as nat) + seq![']', ' '] + spec_quoted(dv[i as int])
                + seq!['\n'] + spec_render_plurals(dv.skip(i + 1), (i + 1) as nat));
            assert(out@ + spec_render_plurals(dv.skip(i + 1), (i + 1) as nat) =~= start
                + spec_render_plurals(dv, 0));
        }
        i = i + 1;
    }
    proof {
        assert(dv.skip(n as int) =~= Seq::<Seq<char>>::empty());
        assert(out@ =~= out@ + spec_render_plurals(dv.skip(n as int), n as nat));
    }
}

/// Appends the canonical text of a record.
pub fn push_render(out: &mut Vec<char>, m: &PoMessage)
    ensures
        final(out)@ == old(out)@ + spec_render(m@),
{
    match m {
        PoMessage::Header { msgstr } => {
            push_str_chars(out, "msgid \"\"\nmsgstr ");
            proof {
                reveal_strlit("msgid \"\"\nmsgstr ");
                assert("msgid \"\"\nmsgstr "@ =~= kw_msgid() + seq![' ', '"', '"', '\n']
                    + kw_msgstr() + seq![' ']);
            }
            push_quoted_str(out, msgstr);
            out.push('\n');
            assert(out@ =~= old(out)@ + spec_render(m@));
        },
        PoMessage::Regular { msgid, msgstr } => {
            push_str_chars(out, "msgid  ");
            proof {
                reveal_strlit("msgid  ");
                assert("msgid  "@ =~= kw_msgid() + seq![' ', ' ']);
            }
            push_quoted_str(out, msgid);
            push_str_chars(out, "\nmsgstr ");
            proof {
                reveal_strlit("\nmsgstr ");
                assert("\nmsgstr "@ =~= seq!['\n'] + kw_msgstr() + seq![' ']);
            }
            push_quoted_str(out, msgstr);
            out.push('\n');
            assert(out@ =~= old(out)@ + spec_render(m@));
        },
        PoMessage::RegularWithContext { msgid, msgctxt, msgstr } => {
            push_str_chars(out, "msgctxt ");
            proof {
                reveal_strlit("msgctxt ");
                assert("msgctxt "@ =~= kw_msgctxt() + seq![' ']);
            }
            push_quoted_str(out, msgctxt);
            push_str_chars(out, "\nmsgid  ");
            proof {
                reveal_strlit("\nmsgid  ");
                assert("\nmsgid  "@ =~= seq!['\n'] + kw_msgid() + seq![' ', ' ']);
            }
            push_quoted_str(out, msgid);
            push_str_chars(out, "\nmsgstr ");
            proof {
                reveal_strlit("\nmsgstr ");
                assert("\nmsgstr "@ =~= seq!['\n'] + kw_msgstr() + seq![' ']);
            }
            push_quoted_str(out, msgstr);
            out.push('\n');
            assert(out@ =~= old(out)@ + spec_render(m@));
        },
        PoMessage::Plural { msgid, msgid_plural, msgstr } => {
            push_str_chars(out, "msgid ");
            proof {
                reveal_strlit("msgid ");
                assert("msgid "@ =~= kw_msgid() + seq![' ']);
            }
            push_quoted_str(out, msgid);
            push_str_chars(out, "\nmsgid_plural ");
            proof {
                reveal_strlit("\nmsgid_plural ");
                assert("\nmsgid_plural "@ =~= seq!['\n'] + kw_msgid_plural() + seq![' ']);
            }
            push_quoted_str(out, msgid_plural);
            out.push('\n');
            push_plurals(out, msgstr);
            assert(out@ =~= old(out)@ + spec_render(m@));
        },
        PoMessage::PluralWithContext { msgid, msgid_plural, msgctxt, msgstr } => {
            push_str_chars(out, "msgctxt ");
            proof {
                reveal_strlit("msgctxt ");
                assert("msgctxt "@ =~= kw_msgctxt() + seq![' ']);
            }
            push_quoted_str(out, msgctxt);
            push_str_chars(out, "\nmsgid ");
            proof {
                reveal_strlit("\nmsgid ");
                assert("\nmsgid "@ =~= seq!['\n'] + kw_msgid() + seq![' ']);
            }
            push_quoted_str(out, msgid);
            push_str_chars(out, "\nmsgid_plural ");
            proof {
                reveal_strlit("\nmsgid_plural ");
                assert("\nmsgid_plural "@ =~= seq!['\n'] + kw_msgid_plural() + seq![' ']);
            }
            push_quoted_str(out, msgid_plural);
            out.push('\n');
            push_plurals(out, msgstr);
            assert(out@ =~= old(out)@ + spec_render(m@));
        },
    }
}

impl PoMessage {
    /// The canonical text of this record.
    pub fn to_text(&self) -> (r: String)
        ensures
            r@ == spec_render(self@),
    {
        let mut out: Vec<char> = Vec::new();
        push_render(&mut out, self);
        chars_to_string(&out)
    }
}

} // verus!
