//! Laws of the library, stated over the mathematical models and proved
//! once for all inputs.

use vstd::prelude::*;
use crate::chars::is_control_char;
use crate::chars::is_space_char;
use crate::escape::has_inner_newline;
use crate::escape::spec_escape;
use crate::escape::spec_escape_body;
use crate::escape::spec_escape_char;
use crate::grammar::ErrorModel;
use crate::grammar::spec_coerce;
use crate::grammar::spec_parse_message;
use crate::grammar::spec_parse_string;
use crate::grammar::spec_skip_ws;
use crate::grammar::spec_string_body;
use crate::grammar::Keyword;
use crate::grammar::is_kw_msgctxt;
use crate::grammar::is_kw_msgid;
use crate::grammar::is_kw_msgid_plural;
use crate::grammar::is_kw_msgstr;
use crate::grammar::is_kw_msgstr_plural;
use crate::grammar::is_digit_char;
use crate::grammar::spec_digit_val;
use crate::grammar::spec_field;
use crate::grammar::spec_parse_keyword;
use crate::grammar::spec_plural_items;
use crate::grammar::spec_skip_ws_comments;
use crate::escape::spec_decimal;
use crate::escape::spec_digit_char;
use crate::message::MessageModel;
use crate::message::spec_to_key;
use crate::render::kw_msgctxt;
use crate::render::kw_msgid;
use crate::render::kw_msgid_plural;
use crate::render::kw_msgstr;
use crate::render::spec_quoted;
use crate::render::spec_render_plurals;

verus! {

/// A string that the grammar can carry: a control character occurs
/// only as one of the three that have escapes. The string reader never
/// produces any other, and only such strings survive a serialization.
pub open spec fn wf_string(s: Seq<char>) -> bool {
    forall|i: int| 0 <= i < s.len() ==> (is_control_char(#[trigger] s[i]) ==> s[i] == '\r' || s[i]
        == '\n' || s[i] == '\t')
}

proof fn lemma_skip_ws_nospace(s: Seq<char>)
    requires
        s.len() == 0 || !is_space_char(s[0]),
    ensures
        spec_skip_ws(s) == s,
{
}

/// The decoded form of an escaped string: reading the escaped body up
/// to its closing quote gives back the original characters, and leaves
/// the input after the quote, whitespace skipped, as the reader does.
proof fn lemma_escape_body_parse(acc: Seq<char>, s: Seq<char>, rest: Seq<char>)
    requires
        wf_string(s),
        spec_skip_ws(rest).len() == 0 || spec_skip_ws(rest)[0] != '"',
    ensures
        spec_string_body(acc, spec_escape_body(s) + seq!['"'] + rest) == Ok::<
            (Seq<char>, Seq<char>),
            ErrorModel,
        >((acc + s, spec_skip_ws(rest))),
    decreases s.len(),
{
    let t = spec_escape_body(s) + seq!['"'] + rest;
    if s.len() == 0 {
        assert(t =~= seq!['"'] + rest);
        assert(t[0] == '"');
        assert(t.skip(1) =~= rest);
        assert(spec_string_body(acc, t) == Ok::<(Seq<char>, Seq<char>), ErrorModel>((
            acc,
            spec_skip_ws(rest),
        )));
        assert(acc + s =~= acc);
    } else {
        let c = s[0];
        let s2 = s.skip(1);
        assert(wf_string(s2)) by {
            assert(forall|i: int| 0 <= i < s2.len() ==> s2[i] == s[i + 1]);
        }
        let e = spec_escape_char(c, s.len() == 1);
        let tail_in = spec_escape_body(s2) + seq!['"'] + rest;
        assert(spec_escape_body(s) == e + spec_escape_body(s2));
        assert(t =~= e + tail_in);
        assert(acc.push(c) + s2 =~= acc + s);
        lemma_escape_body_parse(acc.push(c), s2, rest);
        if c == '\n' && s.len() > 1 {
            assert(t[0] == '\\');
            assert(t[1] == 'n');
            let t2 = t.skip(2);
            assert(t2 =~= seq!['"', '\n', '"'] + tail_in);
            assert(t2[0] == '"');
            let x = seq!['"'] + tail_in;
            assert(t2.skip(1) =~= seq!['\n'] + x);
            assert((seq!['\n'] + x).skip(1) =~= x);
            assert(is_space_char('\n'));
            assert(x[0] == '"');
            assert(!is_space_char('"'));
            lemma_skip_ws_nospace(x);
            assert(spec_skip_ws(seq!['\n'] + x) == spec_skip_ws(x));
            assert(x.skip(1) =~= tail_in);
            assert(spec_string_body(acc, t) == spec_string_body(acc.push('\n'), t2));
            assert(spec_string_body(acc.push('\n'), t2) == spec_string_body(
                acc.push('\n'),
                tail_in,
            ));
        } else if c == '\r' {
            assert(t[0] == '\\' && t[1] == 'r');
            assert(t.skip(2) =~= tail_in);
            assert(spec_string_body(acc, t) == spec_string_body(acc.push('\r'), tail_in));
        } else if c == '\n' {
            assert(t[0] == '\\' && t[1] == 'n');
            assert(t.skip(2) =~= tail_in);
            assert(spec_string_body(acc, t) == spec_string_body(acc.push('\n'), tail_in));
        } else if c == '\t' {
            assert(t[0] == '\\' && t[1] == 't');
            assert(t.skip(2) =~= tail_in);
            assert(spec_string_body(acc, t) == spec_string_body(acc.push('\t'), tail_in));
        } else if c == '"' {
            assert(t[0] == '\\' && t[1] == '"');
            assert(t.skip(2) =~= tail_in);
            assert(spec_string_body(acc, t) == spec_string_body(acc.push('"'), tail_in));
        } else if c == '\\' {
            assert(t[0] == '\\' && t[1] == '\\');
            assert(t.skip(2) =~= tail_in);
            assert(spec_string_body(acc, t) == spec_string_body(acc.push('\\'), tail_in));
        } else {
            assert(!is_control_char(c));
            assert(t[0] == c);
            assert(t[0] != '"' && t[0] != '\\' && t[0] != '\r' && t[0] != '\n');
            assert(t.skip(1) =~= tail_in);
            assert(spec_string_body(acc, t) == spec_string_body(acc.push(c), tail_in));
        }
    }
}

/// Reading a quoted, escaped field gives back the original string and
/// leaves the input after the closing quote, whitespace skipped.
proof fn lemma_parse_quoted(x: Seq<char>, s: Seq<char>, rest: Seq<char>)
    requires
        wf_string(s),
        spec_skip_ws(x) == spec_quoted(s) + rest,
        spec_skip_ws(rest).len() == 0 || spec_skip_ws(rest)[0] != '"',
    ensures
        spec_parse_string(x) == Ok::<(Seq<char>, Seq<char>), ErrorModel>((s, spec_skip_ws(rest))),
{
    let t = spec_skip_ws(x);
    assert(t[0] == '"');
    assert(t.skip(1) =~= spec_escape(s) + seq!['"'] + rest);
    if has_inner_newline(s) {
        let z = t.skip(1);
        assert(z =~= seq!['"', '\n', '"'] + (spec_escape_body(s) + seq!['"'] + rest));
        let tail_in = spec_escape_body(s) + seq!['"'] + rest;
        assert(z[0] == '"');
        let x2 = seq!['"'] + tail_in;
        assert(z.skip(1) =~= seq!['\n'] + x2);
        assert((seq!['\n'] + x2).skip(1) =~= x2);
        assert(is_space_char('\n'));
        assert(x2[0] == '"');
        assert(!is_space_char('"'));
        lemma_skip_ws_nospace(x2);
        assert(spec_skip_ws(seq!['\n'] + x2) == spec_skip_ws(x2));
        assert(x2.skip(1) =~= tail_in);
        lemma_escape_body_parse(Seq::empty(), s, rest);
        assert(Seq::<char>::empty() + s =~= s);
    } else {
        assert(t.skip(1) =~= spec_escape_body(s) + seq!['"'] + rest);
        lemma_escape_body_parse(Seq::empty(), s, rest);
        assert(Seq::<char>::empty() + s =~= s);
    }
}

/// Whether every translation slot of a record is empty. The header
/// block carries no translation slots of its own, so it counts as
/// empty.
pub open spec fn spec_translations_empty(m: MessageModel) -> bool {
    match m {
        MessageModel::Header { .. } => true,
        MessageModel::Regular { msgstr, .. } => msgstr.len() == 0,
        MessageModel::RegularWithContext { msgstr, .. } => msgstr.len() == 0,
        MessageModel::Plural { msgstr, .. } => msgstr.len() == 0,
        MessageModel::PluralWithContext { msgstr, .. } => msgstr.len() == 0,
    }
}

/// Whether two records have the same variant and the same identity
/// fields: the context, the source string and the plural source, and
/// for headers the whole block.
pub open spec fn spec_same_identity(a: MessageModel, b: MessageModel) -> bool {
    match (a, b) {
        (MessageModel::Header { msgstr: x }, MessageModel::Header { msgstr: y }) => x == y,
        (MessageModel::Regular { msgid: x, .. }, MessageModel::Regular { msgid: y, .. }) => x == y,
        (
            MessageModel::RegularWithContext { msgid: x, msgctxt: cx, .. },
            MessageModel::RegularWithContext { msgid: y, msgctxt: cy, .. },
        ) => x == y && cx == cy,
        (
            MessageModel::Plural { msgid: x, msgid_plural: px, .. },
            MessageModel::Plural { msgid: y, msgid_plural: py, .. },
        ) => x == y && px == py,
        (
            MessageModel::PluralWithContext { msgid: x, msgid_plural: px, msgctxt: cx, .. },
            MessageModel::PluralWithContext { msgid: y, msgid_plural: py, msgctxt: cy, .. },
        ) => x == y && px == py && cx == cy,
        _ => false,
    }
}

/// Identity stability: for every record, the identity projection keeps
/// the variant and the identity fields and empties every translation
/// slot.
pub proof fn lemma_to_key_identity(m: MessageModel)
    ensures
        spec_same_identity(spec_to_key(m), m),
        spec_translations_empty(spec_to_key(m)),
{
}

/// The identity projection is idempotent: a key is its own key.
pub proof fn lemma_to_key_idempotent(m: MessageModel)
    ensures
        spec_to_key(spec_to_key(m)) == spec_to_key(m),
{
}

/// Plural arity coercion: with a configured count, the coerced
/// sequence has exactly that many slots; the slots both sides share
/// are kept unchanged, and any added slot is an empty string.
pub proof fn lemma_arity_coercion(items: Seq<Seq<char>>, n: usize)
    ensures
        spec_coerce(items, Some(n)).len() == n,
        forall|i: int| 0 <= i < items.len() && i < n ==> spec_coerce(items, Some(n))[i]
            == items[i],
        forall|i: int| items.len() <= i < n ==> spec_coerce(items, Some(n))[i]
            == Seq::<char>::empty(),
{
}

/// Without a configured count, parsed slots pass through unchanged.
pub proof fn lemma_no_coercion(items: Seq<Seq<char>>)
    ensures
        spec_coerce(items, None) == items,
{
}

/// Every plural record parsed under a configured count carries exactly
/// that many translation slots.
pub proof fn lemma_parsed_plural_arity(s: Seq<char>, n: usize, m: MessageModel)
    requires
        spec_parse_message(s, Some(n)) == Ok::<MessageModel, crate::grammar::ErrorModel>(m),
    ensures
        (m matches MessageModel::Plural { msgstr, .. } ==> msgstr.len() == n),
        (m matches MessageModel::PluralWithContext { msgstr, .. } ==> msgstr.len() == n),
{
    let cases = Some(n);
    if let Ok((kw, v, t)) = crate::grammar::spec_field(s) {
        match kw {
            crate::grammar::Keyword::Msgctxt => {
                if v.len() != 0 {
                    if let Ok((kw2, v2, t2)) = crate::grammar::spec_field(t) {
                        if kw2 == crate::grammar::Keyword::Msgid && v2.len() != 0 {
                            lemma_body_plural_arity(Some(v), v2, t2, n);
                        }
                    }
                }
            },
            crate::grammar::Keyword::Msgid => {
                if v.len() != 0 {
                    lemma_body_plural_arity(None, v, t, n);
                }
            },
            _ => {},
        }
    }
}

proof fn lemma_skip_ws_nl(x: Seq<char>)
    requires
        x.len() == 0 || !is_space_char(x[0]),
    ensures
        spec_skip_ws(seq!['\n'] + x) == x,
{
    assert((seq!['\n'] + x)[0] == '\n');
    assert(is_space_char('\n'));
    assert((seq!['\n'] + x).skip(1) =~= x);
    lemma_skip_ws_nospace(x);
}

proof fn lemma_skip_wsc_noop(s: Seq<char>)
    requires
        s.len() > 0,
        !is_space_char(s[0]),
        s[0] != '#',
        !(s.len() >= 2 && s[0] == '/' && s[1] == '/'),
    ensures
        spec_skip_ws_comments(s) == s,
{
}

proof fn lemma_kw_msgid(rest: Seq<char>)
    ensures
        spec_parse_keyword(kw_msgid() + seq![' '] + rest) == Ok::<
            (Keyword, Seq<char>),
            ErrorModel,
        >((Keyword::Msgid, rest)),
{
    let t = kw_msgid() + seq![' '] + rest;
    assert(t[0] == 'm' && t[1] == 's' && t[2] == 'g' && t[3] == 'i' && t[4] == 'd' && t[5] == ' ');
    assert(!is_space_char('m'));
    lemma_skip_wsc_noop(t);
    assert(is_kw_msgid(t));
    assert(t.skip(6) =~= rest);
}

proof fn lemma_kw_msgstr(rest: Seq<char>)
    ensures
        spec_parse_keyword(kw_msgstr() + seq![' '] + rest) == Ok::<
            (Keyword, Seq<char>),
            ErrorModel,
        >((Keyword::Msgstr, rest)),
{
    let t = kw_msgstr() + seq![' '] + rest;
    assert(t[0] == 'm' && t[1] == 's' && t[2] == 'g' && t[3] == 's' && t[4] == 't' && t[5] == 'r'
        && t[6] == ' ');
    assert(!is_space_char('m'));
    lemma_skip_wsc_noop(t);
    assert(!is_kw_msgid(t));
    assert(is_kw_msgstr(t));
    assert(t.skip(7) =~= rest);
}

proof fn lemma_digit_char(k: int)
    requires
        0 <= k <= 9,
    ensures
        is_digit_char(spec_digit_char(k as nat)),
        spec_digit_val(spec_digit_char(k as nat)) == k as u8,
{
}

proof fn lemma_kw_msgstr_idx(k: int, rest: Seq<char>)
    requires
        0 <= k <= 9,
    ensures
        spec_parse_keyword(
            kw_msgstr() + seq!['['] + spec_decimal(k as nat) + seq![']', ' '] + rest,
        ) == Ok::<(Keyword, Seq<char>), ErrorModel>((Keyword::MsgstrPlural(k as u8), rest)),
{
    let t = kw_msgstr() + seq!['['] + spec_decimal(k as nat) + seq![']', ' '] + rest;
    assert(spec_decimal(k as nat) =~= seq![spec_digit_char(k as nat)]);
    assert(t[0] == 'm' && t[1] == 's' && t[2] == 'g' && t[3] == 's' && t[4] == 't' && t[5] == 'r'
        && t[6] == '[');
    assert(t[7] == spec_digit_char(k as nat));
    assert(t[8] == ']' && t[9] == ' ');
    lemma_digit_char(k);
    assert(!is_space_char('m'));
    lemma_skip_wsc_noop(t);
    assert(!is_kw_msgid(t));
    assert(!is_kw_msgstr(t));
    assert(is_kw_msgstr_plural(t));
    assert(t.skip(10) =~= rest);
}

proof fn lemma_kw_msgid_plural(rest: Seq<char>)
    ensures
        spec_parse_keyword(kw_msgid_plural() + seq![' '] + rest) == Ok::<
            (Keyword, Seq<char>),
            ErrorModel,
        >((Keyword::MsgidPlural, rest)),
{
    let t = kw_msgid_plural() + seq![' '] + rest;
    assert(t[0] == 'm' && t[1] == 's' && t[2] == 'g' && t[3] == 'i' && t[4] == 'd' && t[5] == '_'
        && t[6] == 'p' && t[7] == 'l' && t[8] == 'u' && t[9] == 'r' && t[10] == 'a' && t[11] == 'l'
        && t[12] == ' ');
    assert(!is_space_char('m'));
    lemma_skip_wsc_noop(t);
    assert(!is_kw_msgid(t));
    assert(!is_kw_msgstr(t));
    assert(!is_kw_msgstr_plural(t));
    assert(is_kw_msgid_plural(t));
    assert(t.skip(13) =~= rest);
}

proof fn lemma_kw_msgctxt(rest: Seq<char>)
    ensures
        spec_parse_keyword(kw_msgctxt() + seq![' '] + rest) == Ok::<
            (Keyword, Seq<char>),
            ErrorModel,
        >((Keyword::Msgctxt, rest)),
{
    let t = kw_msgctxt() + seq![' '] + rest;
    assert(t[0] == 'm' && t[1] == 's' && t[2] == 'g' && t[3] == 'c' && t[4] == 't' && t[5] == 'x'
        && t[6] == 't' && t[7] == ' ');
    assert(!is_space_char('m'));
    lemma_skip_wsc_noop(t);
    assert(!is_kw_msgid(t));
    assert(!is_kw_msgstr(t));
    assert(!is_kw_msgstr_plural(t));
    assert(!is_kw_msgid_plural(t));
    assert(is_kw_msgctxt(t));
    assert(t.skip(8) =~= rest);
}

/// Reading one rendered field - a keyword, one space, the quoted
/// string, a line break - yields the keyword and the string, and
/// leaves the following line. `lead` is the keyword text with its
/// space; any extra spaces stand at the head of `pad`.
proof fn lemma_field_quoted(
    kw_text: Seq<char>,
    kw: Keyword,
    pad: Seq<char>,
    v: Seq<char>,
    follow: Seq<char>,
)
    requires
        wf_string(v),
        pad.len() == 0 || pad =~= seq![' '],
        follow.len() == 0 || follow[0] == 'm',
        spec_parse_keyword(kw_text + (pad + spec_quoted(v) + seq!['\n'] + follow)) == Ok::<
            (Keyword, Seq<char>),
            ErrorModel,
        >((kw, pad + spec_quoted(v) + seq!['\n'] + follow)),
    ensures
        spec_field(kw_text + pad + spec_quoted(v) + seq!['\n'] + follow) == Ok::<
            (Keyword, Seq<char>, Seq<char>),
            ErrorModel,
        >((kw, v, follow)),
{
    let rest_b = pad + spec_quoted(v) + seq!['\n'] + follow;
    let t = kw_text + pad + spec_quoted(v) + seq!['\n'] + follow;
    assert(t =~= kw_text + rest_b);
    let qr = spec_quoted(v) + (seq!['\n'] + follow);
    assert(spec_quoted(v)[0] == '"');
    assert(qr[0] == '"');
    assert(!is_space_char('"'));
    lemma_skip_ws_nospace(qr);
    if pad.len() == 0 {
        assert(rest_b =~= qr);
    } else {
        assert(rest_b =~= seq![' '] + qr);
        assert(rest_b[0] == ' ');
        assert(is_space_char(' '));
        assert(rest_b.skip(1) =~= qr);
        assert(spec_skip_ws(rest_b) == spec_skip_ws(qr));
    }
    assert(follow.len() == 0 || !is_space_char(follow[0]));
    lemma_skip_ws_nl(follow);
    assert(spec_skip_ws(seq!['\n'] + follow) == follow);
    assert(follow.len() == 0 || follow[0] != '"');
    lemma_parse_quoted(rest_b, v, seq!['\n'] + follow);
}

/// Reading the rendered `msgstr[i]` lines from slot `k` on gives back
/// exactly the slots and exhausts the input.
proof fn lemma_render_plurals_parse(items: Seq<Seq<char>>, k: int)
    requires
        0 <= k,
        k + items.len() <= 10,
        forall|i: int| 0 <= i < items.len() ==> wf_string(#[trigger] items[i]),
    ensures
        spec_plural_items(k, spec_render_plurals(items, k as nat)) == Ok::<
            (Seq<Seq<char>>, Seq<char>),
            ErrorModel,
        >((items, Seq::empty())),
    decreases items.len(),
{
    if items.len() == 0 {
        assert(spec_render_plurals(items, k as nat) =~= Seq::<char>::empty());
        assert(items =~= Seq::<Seq<char>>::empty());
    } else {
        let v = items[0];
        let items2 = items.skip(1);
        assert(wf_string(v));
        assert(forall|i: int| 0 <= i < items2.len() ==> items2[i] == items[i + 1]);
        let follow = spec_render_plurals(items2, (k + 1) as nat);
        let t = spec_render_plurals(items, k as nat);
        let rest = spec_quoted(v) + seq!['\n'] + follow;
        assert(t =~= kw_msgstr() + seq!['['] + spec_decimal(k as nat) + seq![']', ' '] + rest);
        lemma_kw_msgstr_idx(k, rest);
        assert(t.len() > 0);
        assert(spec_quoted(v)[0] == '"');
        assert(rest[0] == '"');
        assert(!is_space_char('"'));
        lemma_skip_ws_nospace(rest);
        if items2.len() == 0 {
            assert(follow =~= Seq::<char>::empty());
        } else {
            assert(follow =~= kw_msgstr() + seq!['['] + spec_decimal((k + 1) as nat)
                + seq![']', ' '] + spec_quoted(items2[0]) + seq!['\n'] + spec_render_plurals(
                items2.skip(1),
                (k + 2) as nat,
            ));
            assert(follow[0] == 'm');
        }
        assert(follow.len() == 0 || !is_space_char(follow[0]));
        lemma_skip_ws_nl(follow);
        assert(follow.len() == 0 || follow[0] != '"');
        assert(rest =~= spec_quoted(v) + (seq!['\n'] + follow));
        lemma_parse_quoted(rest, v, seq!['\n'] + follow);
        lemma_render_plurals_parse(items2, k + 1);
        assert((k as u8) as int == k);
        assert(spec_parse_keyword(t) == Ok::<(Keyword, Seq<char>), ErrorModel>((
            Keyword::MsgstrPlural(k as u8),
            rest,
        )));
        assert(spec_parse_string(rest) == Ok::<(Seq<char>, Seq<char>), ErrorModel>((v, follow)));
        assert(spec_plural_items(k + 1, follow) == Ok::<(Seq<Seq<char>>, Seq<char>), ErrorModel>((
            items2,
            Seq::empty(),
        )));
        assert(spec_plural_items(k, t) == Ok::<(Seq<Seq<char>>, Seq<char>), ErrorModel>((
            seq![v] + items2,
            Seq::empty(),
        )));
        assert(seq![v] + items2 =~= items);
    }
}

proof fn lemma_body_plural_arity(ctx: Option<Seq<char>>, id: Seq<char>, t: Seq<char>, n: usize)
    ensures
        crate::grammar::spec_body(ctx, id, t, Some(n)) matches Ok(m) ==> ((m
            matches MessageModel::Plural { msgstr, .. } ==> msgstr.len() == n) && (m
            matches MessageModel::PluralWithContext { msgstr, .. } ==> msgstr.len() == n)),
{
    if let Ok((kw, v, u)) = crate::grammar::spec_field(t) {
        if kw == crate::grammar::Keyword::MsgidPlural {
            if let Ok((items, after)) = crate::grammar::spec_plural_items(0, u) {
                lemma_arity_coercion(items, n);
            }
        }
    }
}

/// A record shape that the canonical text can carry back: non-empty
/// identity fields and context, strings whose control characters have
/// escapes, at most ten plural slots (their indices are single
/// digits), and slot counts that agree with the configured arity.
/// Every record the parser yields under such a configuration is of
/// this shape.
pub open spec fn wf_message(m: MessageModel, cases: Option<usize>) -> bool {
    match m {
        MessageModel::Header { msgstr } => msgstr.len() > 0 && wf_string(msgstr),
        MessageModel::Regular { msgid, msgstr } => msgid.len() > 0 && wf_string(msgid)
            && wf_string(msgstr),
        MessageModel::RegularWithContext { msgid, msgctxt, msgstr } => msgid.len() > 0
            && msgctxt.len() > 0 && wf_string(msgid) && wf_string(msgctxt) && wf_string(msgstr),
        MessageModel::Plural { msgid, msgid_plural, msgstr } => msgid.len() > 0 && wf_string(msgid)
            && wf_string(msgid_plural) && msgstr.len() <= 10 && (cases matches Some(n)
            ==> msgstr.len() == n) && (forall|i: int|
            0 <= i < msgstr.len() ==> wf_string(#[trigger] msgstr[i])),
        MessageModel::PluralWithContext { msgid, msgid_plural, msgctxt, msgstr } => msgid.len() > 0
            && msgctxt.len() > 0 && wf_string(msgid) && wf_string(msgctxt) && wf_string(
            msgid_plural,
        ) && msgstr.len() <= 10 && (cases matches Some(n) ==> msgstr.len() == n) && (forall|i: int|
            0 <= i < msgstr.len() ==> wf_string(#[trigger] msgstr[i])),
    }
}

proof fn lemma_wf_push(acc: Seq<char>, c: char)
    requires
        wf_string(acc),
        !is_control_char(c) || c == '\r' || c == '\n' || c == '\t',
    ensures
        wf_string(acc.push(c)),
{
    assert(forall|i: int| 0 <= i < acc.len() ==> acc.push(c)[i] == acc[i]);
    assert(acc.push(c)[acc.len() as int] == c);
}

proof fn lemma_string_body_wf(acc: Seq<char>, t: Seq<char>)
    requires
        wf_string(acc),
    ensures
        spec_string_body(acc, t) matches Ok((v, w)) ==> wf_string(v),
    decreases t.len(),
{
    if t.len() == 0 {
    } else if t[0] == '"' {
        crate::grammar::lemma_skip_ws_len(t.skip(1));
        let u = spec_skip_ws(t.skip(1));
        if u.len() > 0 && u[0] == '"' {
            lemma_string_body_wf(acc, u.skip(1));
        }
    } else if t[0] == '\\' && t.len() >= 2 {
        if t[1] == 'r' {
            lemma_wf_push(acc, '\r');
            lemma_string_body_wf(acc.push('\r'), t.skip(2));
        } else if t[1] == 'n' {
            lemma_wf_push(acc, '\n');
            lemma_string_body_wf(acc.push('\n'), t.skip(2));
        } else if t[1] == 't' {
            lemma_wf_push(acc, '\t');
            lemma_string_body_wf(acc.push('\t'), t.skip(2));
        } else if t[1] == '"' {
            lemma_wf_push(acc, '"');
            lemma_string_body_wf(acc.push('"'), t.skip(2));
        } else if t[1] == '\\' {
            lemma_wf_push(acc, '\\');
            lemma_string_body_wf(acc.push('\\'), t.skip(2));
        }
    } else if t[0] == '\r' || t[0] == '\n' {
    } else if is_control_char(t[0]) {
    } else {
        lemma_wf_push(acc, t[0]);
        lemma_string_body_wf(acc.push(t[0]), t.skip(1));
    }
}

proof fn lemma_parse_string_wf(s: Seq<char>)
    ensures
        spec_parse_string(s) matches Ok((v, w)) ==> wf_string(v),
{
    let t = spec_skip_ws(s);
    if t.len() > 0 && t[0] == '"' {
        assert(wf_string(Seq::<char>::empty()));
        lemma_string_body_wf(Seq::empty(), t.skip(1));
    }
}

proof fn lemma_field_wf(s: Seq<char>)
    ensures
        spec_field(s) matches Ok((kw, v, u)) ==> wf_string(v),
{
    if let Ok((kw, t)) = spec_parse_keyword(s) {
        lemma_parse_string_wf(t);
    }
}

proof fn lemma_plural_items_wf(n: int, t: Seq<char>)
    ensures
        spec_plural_items(n, t) matches Ok((items, w)) ==> ((forall|i: int|
            0 <= i < items.len() ==> wf_string(#[trigger] items[i])) && (items.len() == 0 || n
            + items.len() <= 10)),
    decreases t.len(),
{
    if t.len() != 0 {
        crate::grammar::lemma_parse_keyword_len(t);
        if let Ok((kw, u)) = spec_parse_keyword(t) {
            if let Keyword::MsgstrPlural(d) = kw {
                if d as int == n {
                    crate::grammar::lemma_parse_string_len(u);
                    lemma_parse_string_wf(u);
                    if let Ok((v, w)) = spec_parse_string(u) {
                        lemma_plural_items_wf(n + 1, w);
                        assert(d <= 9);
                        if let Ok((items2, w2)) = spec_plural_items(n + 1, w) {
                            let items = seq![v] + items2;
                            assert(items[0] == v);
                            assert(forall|i: int| 1 <= i < items.len() ==> items[i] == items2[i
                                - 1]);
                        }
                    }
                }
            }
        }
    }
}

proof fn lemma_coerce_wf(items: Seq<Seq<char>>, cases: Option<usize>)
    requires
        items.len() <= 10,
        (cases matches Some(n) ==> n <= 10),
        forall|i: int| 0 <= i < items.len() ==> wf_string(#[trigger] items[i]),
    ensures
        spec_coerce(items, cases).len() <= 10,
        (cases matches Some(n) ==> spec_coerce(items, cases).len() == n),
        forall|i: int| 0 <= i < spec_coerce(items, cases).len() ==> wf_string(
            #[trigger] spec_coerce(items, cases)[i],
        ),
{
    match cases {
        Option::None => {},
        Option::Some(n) => {
            lemma_arity_coercion(items, n);
            assert(wf_string(Seq::<char>::empty()));
            assert forall|i: int| 0 <= i < spec_coerce(items, cases).len() implies wf_string(
                #[trigger] spec_coerce(items, cases)[i],
            ) by {
                if i < items.len() && i < n {
                    assert(spec_coerce(items, cases)[i] == items[i]);
                } else {
                    assert(spec_coerce(items, cases)[i] == Seq::<char>::empty());
                }
            }
        },
    }
}

proof fn lemma_body_wf(ctx: Option<Seq<char>>, id: Seq<char>, t: Seq<char>, cases: Option<usize>)
    requires
        id.len() > 0,
        wf_string(id),
        (ctx matches Some(c) ==> c.len() > 0 && wf_string(c)),
        (cases matches Some(n) ==> n <= 10),
    ensures
        crate::grammar::spec_body(ctx, id, t, cases) matches Ok(m) ==> wf_message(m, cases),
{
    lemma_field_wf(t);
    if let Ok((kw, v, u)) = spec_field(t) {
        match kw {
            Keyword::MsgidPlural => {
                lemma_plural_items_wf(0, u);
                if let Ok((items, after)) = spec_plural_items(0, u) {
                    lemma_coerce_wf(items, cases);
                }
            },
            _ => {},
        }
    }
}

/// Every record the parser yields is of the shape the canonical text
/// can carry back, provided the configured arity fits in a single
/// digit slot index.
pub proof fn lemma_parsed_wf(s: Seq<char>, cases: Option<usize>)
    requires
        (cases matches Some(n) ==> n <= 10),
    ensures
        spec_parse_message(s, cases) matches Ok(m) ==> wf_message(m, cases),
{
    lemma_field_wf(s);
    if let Ok((kw, v, t)) = spec_field(s) {
        match kw {
            Keyword::Msgctxt => {
                if v.len() != 0 {
                    lemma_field_wf(t);
                    if let Ok((kw2, v2, t2)) = spec_field(t) {
                        if kw2 == Keyword::Msgid && v2.len() != 0 {
                            lemma_body_wf(Some(v), v2, t2, cases);
                        }
                    }
                }
            },
            Keyword::Msgid => {
                if v.len() == 0 {
                    lemma_field_wf(t);
                } else {
                    lemma_body_wf(None, v, t, cases);
                }
            },
            _ => {},
        }
    }
}

/// Serializing a well-formed header and parsing the canonical text
/// back yields the same record.
#[verifier::rlimit(100)]
proof fn lemma_render_parse_header(msgstr: Seq<char>, cases: Option<usize>)
    requires
        msgstr.len() > 0,
        wf_string(msgstr),
    ensures
        spec_parse_message(
            crate::render::spec_render(MessageModel::Header { msgstr }),
            cases,
        ) == Ok::<MessageModel, ErrorModel>(MessageModel::Header { msgstr }),
{
    let m = MessageModel::Header { msgstr };
    let r = crate::render::spec_render(m);
    let nil = Seq::<char>::empty();
    assert(wf_string(nil));
    assert(spec_skip_ws_comments(nil).len() == 0);
    let follow = kw_msgstr() + seq![' '] + spec_quoted(msgstr) + seq!['\n'];
    assert(!has_inner_newline(nil));
    assert(spec_escape(nil) =~= nil);
    assert(spec_quoted(nil) =~= seq!['"', '"']);
    assert(follow[0] == 'm');
    assert(r =~= (kw_msgid() + seq![' ']) + nil + spec_quoted(nil) + seq!['\n'] + follow);
    lemma_kw_msgid(nil + spec_quoted(nil) + seq!['\n'] + follow);
    lemma_field_quoted(kw_msgid() + seq![' '], Keyword::Msgid, nil, nil, follow);
    assert(follow =~= (kw_msgstr() + seq![' ']) + nil + spec_quoted(msgstr) + seq!['\n'] + nil);
    lemma_kw_msgstr(nil + spec_quoted(msgstr) + seq!['\n'] + nil);
    lemma_field_quoted(kw_msgstr() + seq![' '], Keyword::Msgstr, nil, msgstr, nil);
    assert(crate::grammar::spec_header(follow) == Ok::<MessageModel, ErrorModel>(m));
}

/// The shared tail of the regular shapes: one `msgstr` field closing
/// the record.
#[verifier::rlimit(100)]
proof fn lemma_render_parse_regular_body(
    ctx: Option<Seq<char>>,
    msgid: Seq<char>,
    msgstr: Seq<char>,
    cases: Option<usize>,
)
    requires
        msgid.len() > 0,
        wf_string(msgstr),
    ensures
        ({
            let follow = kw_msgstr() + seq![' '] + spec_quoted(msgstr) + seq!['\n'];
            crate::grammar::spec_body(ctx, msgid, follow, cases) == Ok::<
                MessageModel,
                ErrorModel,
            >(
                match ctx {
                    Option::None => MessageModel::Regular { msgid, msgstr },
                    Option::Some(c) => MessageModel::RegularWithContext {
                        msgid,
                        msgctxt: c,
                        msgstr,
                    },
                },
            )
        }),
{
    let nil = Seq::<char>::empty();
    assert(wf_string(nil));
    assert(spec_skip_ws_comments(nil).len() == 0);
    let follow = kw_msgstr() + seq![' '] + spec_quoted(msgstr) + seq!['\n'];
    assert(follow =~= (kw_msgstr() + seq![' ']) + nil + spec_quoted(msgstr) + seq!['\n'] + nil);
    lemma_kw_msgstr(nil + spec_quoted(msgstr) + seq!['\n'] + nil);
    lemma_field_quoted(kw_msgstr() + seq![' '], Keyword::Msgstr, nil, msgstr, nil);
}

#[verifier::rlimit(100)]
proof fn lemma_render_parse_regular(msgid: Seq<char>, msgstr: Seq<char>, cases: Option<usize>)
    requires
        msgid.len() > 0,
        wf_string(msgid),
        wf_string(msgstr),
    ensures
        spec_parse_message(
            crate::render::spec_render(MessageModel::Regular { msgid, msgstr }),
            cases,
        ) == Ok::<MessageModel, ErrorModel>(MessageModel::Regular { msgid, msgstr }),
{
    let m = MessageModel::Regular { msgid, msgstr };
    let r = crate::render::spec_render(m);
    let follow = kw_msgstr() + seq![' '] + spec_quoted(msgstr) + seq!['\n'];
    assert(follow[0] == 'm');
    assert(r =~= (kw_msgid() + seq![' ']) + seq![' '] + spec_quoted(msgid) + seq!['\n'] + follow);
    lemma_kw_msgid(seq![' '] + spec_quoted(msgid) + seq!['\n'] + follow);
    lemma_field_quoted(kw_msgid() + seq![' '], Keyword::Msgid, seq![' '], msgid, follow);
    lemma_render_parse_regular_body(None, msgid, msgstr, cases);
}

#[verifier::rlimit(100)]
proof fn lemma_render_parse_regular_ctx(
    msgid: Seq<char>,
    msgctxt: Seq<char>,
    msgstr: Seq<char>,
    cases: Option<usize>,
)
    requires
        msgid.len() > 0,
        msgctxt.len() > 0,
        wf_string(msgid),
        wf_string(msgctxt),
        wf_string(msgstr),
    ensures
        spec_parse_message(
            crate::render::spec_render(
                MessageModel::RegularWithContext { msgid, msgctxt, msgstr },
            ),
            cases,
        ) == Ok::<MessageModel, ErrorModel>(
            MessageModel::RegularWithContext { msgid, msgctxt, msgstr },
        ),
{
    let m = MessageModel::RegularWithContext { msgid, msgctxt, msgstr };
    let r = crate::render::spec_render(m);
    let nil = Seq::<char>::empty();
    let follow2 = kw_msgstr() + seq![' '] + spec_quoted(msgstr) + seq!['\n'];
    let follow1 = kw_msgid() + seq![' ', ' '] + spec_quoted(msgid) + seq!['\n'] + follow2;
    assert(follow1[0] == 'm');
    assert(follow2[0] == 'm');
    assert(r =~= (kw_msgctxt() + seq![' ']) + nil + spec_quoted(msgctxt) + seq!['\n'] + follow1);
    lemma_kw_msgctxt(nil + spec_quoted(msgctxt) + seq!['\n'] + follow1);
    lemma_field_quoted(kw_msgctxt() + seq![' '], Keyword::Msgctxt, nil, msgctxt, follow1);
    assert(follow1 =~= (kw_msgid() + seq![' ']) + seq![' '] + spec_quoted(msgid) + seq!['\n']
        + follow2);
    lemma_kw_msgid(seq![' '] + spec_quoted(msgid) + seq!['\n'] + follow2);
    lemma_field_quoted(kw_msgid() + seq![' '], Keyword::Msgid, seq![' '], msgid, follow2);
    lemma_render_parse_regular_body(Some(msgctxt), msgid, msgstr, cases);
}

/// The shared tail of the plural shapes: the `msgid_plural` field and
/// the `msgstr[i]` lines closing the record.
#[verifier::rlimit(100)]
proof fn lemma_render_parse_plural_body(
    ctx: Option<Seq<char>>,
    msgid: Seq<char>,
    msgid_plural: Seq<char>,
    msgstr: Seq<Seq<char>>,
    cases: Option<usize>,
)
    requires
        msgid.len() > 0,
        wf_string(msgid_plural),
        msgstr.len() <= 10,
        (cases matches Some(n) ==> msgstr.len() == n),
        forall|i: int| 0 <= i < msgstr.len() ==> wf_string(#[trigger] msgstr[i]),
    ensures
        ({
            let fp = spec_render_plurals(msgstr, 0);
            let follow2 = kw_msgid_plural() + seq![' '] + spec_quoted(msgid_plural) + seq!['\n']
                + fp;
            crate::grammar::spec_body(ctx, msgid, follow2, cases) == Ok::<
                MessageModel,
                ErrorModel,
            >(
                match ctx {
                    Option::None => MessageModel::Plural { msgid, msgid_plural, msgstr },
                    Option::Some(c) => MessageModel::PluralWithContext {
                        msgid,
                        msgid_plural,
                        msgctxt: c,
                        msgstr,
                    },
                },
            )
        }),
{
    let nil = Seq::<char>::empty();
    assert(wf_string(nil));
    assert(spec_skip_ws_comments(nil).len() == 0);
    let fp = spec_render_plurals(msgstr, 0);
    if msgstr.len() > 0 {
        assert(fp == kw_msgstr() + seq!['['] + spec_decimal(0) + seq![']', ' '] + spec_quoted(
            msgstr[0],
        ) + seq!['\n'] + spec_render_plurals(msgstr.skip(1), 1));
        assert(fp[0] == 'm');
    } else {
        assert(fp =~= nil);
    }
    let follow2 = kw_msgid_plural() + seq![' '] + spec_quoted(msgid_plural) + seq!['\n'] + fp;
    assert(follow2 =~= (kw_msgid_plural() + seq![' ']) + nil + spec_quoted(msgid_plural)
        + seq!['\n'] + fp);
    lemma_kw_msgid_plural(nil + spec_quoted(msgid_plural) + seq!['\n'] + fp);
    lemma_field_quoted(
        kw_msgid_plural() + seq![' '],
        Keyword::MsgidPlural,
        nil,
        msgid_plural,
        fp,
    );
    lemma_render_plurals_parse(msgstr, 0);
    match cases {
        Option::None => {},
        Option::Some(n) => {
            assert(msgstr.len() == n);
            assert(spec_coerce(msgstr, cases) =~= msgstr);
        },
    }
}

#[verifier::rlimit(100)]
proof fn lemma_render_parse_plural(
    msgid: Seq<char>,
    msgid_plural: Seq<char>,
    msgstr: Seq<Seq<char>>,
    cases: Option<usize>,
)
    requires
        msgid.len() > 0,
        wf_string(msgid),
        wf_string(msgid_plural),
        msgstr.len() <= 10,
        (cases matches Some(n) ==> msgstr.len() == n),
        forall|i: int| 0 <= i < msgstr.len() ==> wf_string(#[trigger] msgstr[i]),
    ensures
        spec_parse_message(
            crate::render::spec_render(MessageModel::Plural { msgid, msgid_plural, msgstr }),
            cases,
        ) == Ok::<MessageModel, ErrorModel>(
            MessageModel::Plural { msgid, msgid_plural, msgstr },
        ),
{
    let m = MessageModel::Plural { msgid, msgid_plural, msgstr };
    let r = crate::render::spec_render(m);
    let nil = Seq::<char>::empty();
    let fp = spec_render_plurals(msgstr, 0);
    if msgstr.len() > 0 {
        assert(fp == kw_msgstr() + seq!['['] + spec_decimal(0) + seq![']', ' '] + spec_quoted(
            msgstr[0],
        ) + seq!['\n'] + spec_render_plurals(msgstr.skip(1), 1));
        assert(fp[0] == 'm');
    } else {
        assert(fp =~= nil);
    }
    let follow2 = kw_msgid_plural() + seq![' '] + spec_quoted(msgid_plural) + seq!['\n'] + fp;
    assert(follow2[0] == 'm');
    assert(r =~= (kw_msgid() + seq![' ']) + nil + spec_quoted(msgid) + seq!['\n'] + follow2);
    assert(wf_string(nil));
    lemma_kw_msgid(nil + spec_quoted(msgid) + seq!['\n'] + follow2);
    lemma_field_quoted(kw_msgid() + seq![' '], Keyword::Msgid, nil, msgid, follow2);
    lemma_render_parse_plural_body(None, msgid, msgid_plural, msgstr, cases);
}

#[verifier::rlimit(100)]
proof fn lemma_render_parse_plural_ctx(
    msgid: Seq<char>,
    msgid_plural: Seq<char>,
    msgctxt: Seq<char>,
    msgstr: Seq<Seq<char>>,
    cases: Option<usize>,
)
    requires
        msgid.len() > 0,
        msgctxt.len() > 0,
        wf_string(msgid),
        wf_string(msgctxt),
        wf_string(msgid_plural),
        msgstr.len() <= 10,
        (cases matches Some(n) ==> msgstr.len() == n),
        forall|i: int| 0 <= i < msgstr.len() ==> wf_string(#[trigger] msgstr[i]),
    ensures
        spec_parse_message(
            crate::render::spec_render(
                MessageModel::PluralWithContext { msgid, msgid_plural, msgctxt, msgstr },
            ),
            cases,
        ) == Ok::<MessageModel, ErrorModel>(
            MessageModel::PluralWithContext { msgid, msgid_plural, msgctxt, msgstr },
        ),
{
    let m = MessageModel::PluralWithContext { msgid, msgid_plural, msgctxt, msgstr };
    let r = crate::render::spec_render(m);
    let nil = Seq::<char>::empty();
    let fp = spec_render_plurals(msgstr, 0);
    if msgstr.len() > 0 {
        assert(fp == kw_msgstr() + seq!['['] + spec_decimal(0) + seq![']', ' '] + spec_quoted(
            msgstr[0],
        ) + seq!['\n'] + spec_render_plurals(msgstr.skip(1), 1));
        assert(fp[0] == 'm');
    } else {
        assert(fp =~= nil);
    }
    let follow2 = kw_msgid_plural() + seq![' '] + spec_quoted(msgid_plural) + seq!['\n'] + fp;
    let follow1 = kw_msgid() + seq![' '] + spec_quoted(msgid) + seq!['\n'] + follow2;
    assert(follow1[0] == 'm');
    assert(follow2[0] == 'm');
    assert(r =~= (kw_msgctxt() + seq![' ']) + nil + spec_quoted(msgctxt) + seq!['\n'] + follow1);
    assert(wf_string(nil));
    lemma_kw_msgctxt(nil + spec_quoted(msgctxt) + seq!['\n'] + follow1);
    lemma_field_quoted(kw_msgctxt() + seq![' '], Keyword::Msgctxt, nil, msgctxt, follow1);
    assert(follow1 =~= (kw_msgid() + seq![' ']) + nil + spec_quoted(msgid) + seq!['\n']
        + follow2);
    lemma_kw_msgid(nil + spec_quoted(msgid) + seq!['\n'] + follow2);
    lemma_field_quoted(kw_msgid() + seq![' '], Keyword::Msgid, nil, msgid, follow2);
    lemma_render_parse_plural_body(Some(msgctxt), msgid, msgid_plural, msgstr, cases);
}

/// Serializing a well-formed record and parsing the canonical text
/// back yields the same record, under the same arity configuration.
pub proof fn lemma_render_parse(m: MessageModel, cases: Option<usize>)
    requires
        wf_message(m, cases),
    ensures
        spec_parse_message(crate::render::spec_render(m), cases) == Ok::<
            MessageModel,
            ErrorModel,
        >(m),
{
    match m {
        MessageModel::Header { msgstr } => lemma_render_parse_header(msgstr, cases),
        MessageModel::Regular { msgid, msgstr } => lemma_render_parse_regular(
            msgid,
            msgstr,
            cases,
        ),
        MessageModel::RegularWithContext { msgid, msgctxt, msgstr } => {
            lemma_render_parse_regular_ctx(msgid, msgctxt, msgstr, cases)
        },
        MessageModel::Plural { msgid, msgid_plural, msgstr } => lemma_render_parse_plural(
            msgid,
            msgid_plural,
            msgstr,
            cases,
        ),
        MessageModel::PluralWithContext { msgid, msgid_plural, msgctxt, msgstr } => {
            lemma_render_parse_plural_ctx(msgid, msgid_plural, msgctxt, msgstr, cases)
        },
    }
}

/// Round trip: parsing a catalog record, serializing it to its
/// canonical text, and parsing that text again under the same arity
/// configuration yields the first parse's record, for every buffer
/// the parser accepts and every arity that fits in a single-digit
/// slot index.
pub proof fn lemma_round_trip(text: Seq<char>, cases: Option<usize>)
    requires
        spec_parse_message(text, cases) is Ok,
        (cases matches Some(n) ==> n <= 10),
    ensures
        spec_parse_message(
            crate::render::spec_render(spec_parse_message(text, cases)->Ok_0),
            cases,
        ) == spec_parse_message(text, cases),
{
    let m = spec_parse_message(text, cases)->Ok_0;
    lemma_parsed_wf(text, cases);
    lemma_render_parse(m, cases);
}

} // verus!
