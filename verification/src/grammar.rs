//! The record grammar as a mathematical model: keyword recognition,
//! quoted-literal reading and record assembly, defined over character
//! sequences. The executable parser is proved equal to these functions.

use vstd::prelude::*;
use crate::chars::is_control_char;
use crate::chars::is_space_char;
use crate::message::MessageModel;

verus! {

/// One token of the fixed keyword set.
#[derive(Clone, Copy, Debug, PartialEq, Eq, Structural)]
pub enum Keyword {
    Msgctxt,
    Msgid,
    Msgstr,
    MsgidPlural,
    MsgstrPlural(u8),
}

/// What the reader was looking for when the input ran out or held an
/// unexpected character.
#[derive(Clone, Copy, Debug, PartialEq, Eq, Structural)]
pub enum Expected {
    Keyword,
    Literal,
}

/// Where in the record an unexpected keyword stood.
#[derive(Clone, Copy, Debug, PartialEq, Eq, Structural)]
pub enum FieldSite {
    Start,
    Header,
    Body,
    Plural,
}

/// A parse failure. Variants that point at a place in the input carry
/// a short snippet of the remaining text as diagnostic context.
#[derive(Debug, Clone, PartialEq)]
pub enum ParseError {
    UnexpectedEnd { expected: Expected },
    UnexpectedToken { expected: Expected, text: String },
    UnterminatedString,
    InvalidEscape { text: String },
    RawControlChar { text: String },
    EmptyContext,
    DuplicateContext,
    HeaderWithContext,
    EmptyHeaderText,
    UnexpectedKeyword { site: FieldSite, found: Keyword },
    WrongPluralIndex { expected: usize, found: u8, text: String },
    GarbageAfterField { plural: bool, text: String },
}

/// The mathematical shape of a parse failure.
pub enum ErrorModel {
    UnexpectedEnd { expected: Expected },
    UnexpectedToken { expected: Expected, text: Seq<char> },
    UnterminatedString,
    InvalidEscape { text: Seq<char> },
    RawControlChar { text: Seq<char> },
    EmptyContext,
    DuplicateContext,
    HeaderWithContext,
    EmptyHeaderText,
    UnexpectedKeyword { site: FieldSite, found: Keyword },
    WrongPluralIndex { expected: int, found: u8, text: Seq<char> },
    GarbageAfterField { plural: bool, text: Seq<char> },
}

impl View for ParseError {
    type V = ErrorModel;

    open spec fn view(&self) -> ErrorModel {
        match self {
            ParseError::UnexpectedEnd { expected } => ErrorModel::UnexpectedEnd {
                expected: *expected,
            },
            ParseError::UnexpectedToken { expected, text } => ErrorModel::UnexpectedToken {
                expected: *expected,
                text: text@,
            },
            ParseError::UnterminatedString => ErrorModel::UnterminatedString,
            ParseError::InvalidEscape { text } => ErrorModel::InvalidEscape { text: text@ },
            ParseError::RawControlChar { text } => ErrorModel::RawControlChar { text: text@ },
            ParseError::EmptyContext => ErrorModel::EmptyContext,
            ParseError::DuplicateContext => ErrorModel::DuplicateContext,
            ParseError::HeaderWithContext => ErrorModel::HeaderWithContext,
            ParseError::EmptyHeaderText => ErrorModel::EmptyHeaderText,
            ParseError::UnexpectedKeyword { site, found } => ErrorModel::UnexpectedKeyword {
                site: *site,
                found: *found,
            },
            ParseError::WrongPluralIndex { expected, found, text } => {
                ErrorModel::WrongPluralIndex {
                    expected: *expected as int,
                    found: *found,
                    text: text@,
                }
            },
            ParseError::GarbageAfterField { plural, text } => ErrorModel::GarbageAfterField {
                plural: *plural,
                text: text@,
            },
        }
    }
}

/// The leading characters of the remaining input, cut to twenty, as
/// carried in diagnostics.
pub open spec fn spec_snippet(s: Seq<char>) -> Seq<char> {
    if s.len() <= 20 {
        s
    } else {
        s.take(20)
    }
}

/// The input after leading whitespace.
pub open spec fn spec_skip_ws(s: Seq<char>) -> Seq<char>
    decreases s.len(),
{
    if s.len() > 0 && is_space_char(s[0]) {
        spec_skip_ws(s.skip(1))
    } else {
        s
    }
}

/// The input after leading whitespace and full-line comments, walked
/// one character at a time; `in_comment` records that the walk stands
/// inside a comment that runs to the end of the line.
pub open spec fn spec_skip_ws_comments_from(s: Seq<char>, in_comment: bool) -> Seq<char>
    decreases s.len(),
{
    if s.len() == 0 {
        s
    } else if in_comment {
        spec_skip_ws_comments_from(s.skip(1), s[0] != '\n')
    } else if is_space_char(s[0]) {
        spec_skip_ws_comments_from(s.skip(1), false)
    } else if s[0] == '#' {
        spec_skip_ws_comments_from(s.skip(1), true)
    } else if s.len() >= 2 && s[0] == '/' && s[1] == '/' {
        spec_skip_ws_comments_from(s.skip(1), true)
    } else {
        s
    }
}

pub open spec fn spec_skip_ws_comments(s: Seq<char>) -> Seq<char> {
    spec_skip_ws_comments_from(s, false)
}

pub open spec fn is_digit_char(c: char) -> bool {
    48 <= c as u32 && c as u32 <= 57
}

pub open spec fn spec_digit_val(c: char) -> u8 {
    (c as u32 - 48) as u8
}

pub open spec fn is_kw_msgid(t: Seq<char>) -> bool {
    t.len() >= 6 && t[0] == 'm' && t[1] == 's' && t[2] == 'g' && t[3] == 'i' && t[4] == 'd'
        && t[5] == ' '
}

pub open spec fn is_kw_msgstr(t: Seq<char>) -> bool {
    t.len() >= 7 && t[0] == 'm' && t[1] == 's' && t[2] == 'g' && t[3] == 's' && t[4] == 't'
        && t[5] == 'r' && t[6] == ' '
}

pub open spec fn is_kw_msgstr_plural(t: Seq<char>) -> bool {
    t.len() >= 10 && t[0] == 'm' && t[1] == 's' && t[2] == 'g' && t[3] == 's' && t[4] == 't'
        && t[5] == 'r' && t[6] == '[' && is_digit_char(t[7]) && t[8] == ']' && t[9] == ' '
}

pub open spec fn is_kw_msgid_plural(t: Seq<char>) -> bool {
    t.len() >= 13 && t[0] == 'm' && t[1] == 's' && t[2] == 'g' && t[3] == 'i' && t[4] == 'd'
        && t[5] == '_' && t[6] == 'p' && t[7] == 'l' && t[8] == 'u' && t[9] == 'r' && t[10] == 'a'
        && t[11] == 'l' && t[12] == ' '
}

pub open spec fn is_kw_msgctxt(t: Seq<char>) -> bool {
    t.len() >= 8 && t[0] == 'm' && t[1] == 's' && t[2] == 'g' && t[3] == 'c' && t[4] == 't'
        && t[5] == 'x' && t[6] == 't' && t[7] == ' '
}

/// One keyword at the comment-skipped cursor, with the input after its
/// single separating space.
pub open spec fn spec_parse_keyword(s: Seq<char>) -> Result<(Keyword, Seq<char>), ErrorModel> {
    let t = spec_skip_ws_comments(s);
    if is_kw_msgid(t) {
        Ok((Keyword::Msgid, t.skip(6)))
    } else if is_kw_msgstr(t) {
        Ok((Keyword::Msgstr, t.skip(7)))
    } else if is_kw_msgstr_plural(t) {
        Ok((Keyword::MsgstrPlural(spec_digit_val(t[7])), t.skip(10)))
    } else if is_kw_msgid_plural(t) {
        Ok((Keyword::MsgidPlural, t.skip(13)))
    } else if is_kw_msgctxt(t) {
        Ok((Keyword::Msgctxt, t.skip(8)))
    } else if t.len() == 0 {
        Err(ErrorModel::UnexpectedEnd { expected: Expected::Keyword })
    } else {
        Err(ErrorModel::UnexpectedToken { expected: Expected::Keyword, text: spec_snippet(t) })
    }
}

/// The body of a quoted literal, from just after an opening quote:
/// decoded escapes accumulate onto `acc` until the closing quote of the
/// last segment; a closing quote followed by optional whitespace and
/// another quote continues the same logical string.
pub open spec fn spec_string_body(acc: Seq<char>, t: Seq<char>) -> Result<
    (Seq<char>, Seq<char>),
    ErrorModel,
>
    decreases t.len(),
    via spec_string_body_decreases
{
    if t.len() == 0 {
        Err(ErrorModel::UnexpectedEnd { expected: Expected::Literal })
    } else if t[0] == '"' {
        let u = spec_skip_ws(t.skip(1));
        if u.len() > 0 && u[0] == '"' {
            spec_string_body(acc, u.skip(1))
        } else {
            Ok((acc, u))
        }
    } else if t[0] == '\\' && t.len() >= 2 {
        if t[1] == 'r' {
            spec_string_body(acc.push('\r'), t.skip(2))
        } else if t[1] == 'n' {
            spec_string_body(acc.push('\n'), t.skip(2))
        } else if t[1] == 't' {
            spec_string_body(acc.push('\t'), t.skip(2))
        } else if t[1] == '"' {
            spec_string_body(acc.push('"'), t.skip(2))
        } else if t[1] == '\\' {
            spec_string_body(acc.push('\\'), t.skip(2))
        } else {
            Err(ErrorModel::InvalidEscape { text: spec_snippet(t) })
        }
    } else if t[0] == '\r' || t[0] == '\n' {
        Err(ErrorModel::UnterminatedString)
    } else if is_control_char(t[0]) {
        Err(ErrorModel::RawControlChar { text: spec_snippet(t) })
    } else {
        spec_string_body(acc.push(t[0]), t.skip(1))
    }
}

#[via_fn]
proof fn spec_string_body_decreases(acc: Seq<char>, t: Seq<char>) {
    if t.len() > 0 && t[0] == '"' {
        lemma_skip_ws_len(t.skip(1));
    }
}

/// One quoted literal at the whitespace-skipped cursor, decoded, with
/// the input after its last closing quote and any following
/// whitespace.
pub open spec fn spec_parse_string(s: Seq<char>) -> Result<(Seq<char>, Seq<char>), ErrorModel> {
    let t = spec_skip_ws(s);
    if t.len() == 0 {
        Err(ErrorModel::UnexpectedEnd { expected: Expected::Literal })
    } else if t[0] != '"' {
        Err(ErrorModel::UnexpectedToken { expected: Expected::Literal, text: spec_snippet(t) })
    } else {
        spec_string_body(Seq::empty(), t.skip(1))
    }
}

/// One keyword and its quoted literal.
pub open spec fn spec_field(s: Seq<char>) -> Result<(Keyword, Seq<char>, Seq<char>), ErrorModel> {
    match spec_parse_keyword(s) {
        Err(e) => Err(e),
        Ok((kw, t)) => match spec_parse_string(t) {
            Err(e) => Err(e),
            Ok((v, u)) => Ok((kw, v, u)),
        },
    }
}

/// The header tail, after `msgid ""`: exactly one non-empty `msgstr`
/// field and nothing else.
pub open spec fn spec_header(t: Seq<char>) -> Result<MessageModel, ErrorModel> {
    match spec_field(t) {
        Err(e) => Err(e),
        Ok((kw, v, u)) => {
            let rest = spec_skip_ws_comments(u);
            match kw {
                Keyword::Msgstr => {
                    if v.len() > 0 && rest.len() == 0 {
                        Ok(MessageModel::Header { msgstr: v })
                    } else if v.len() == 0 && rest.len() == 0 {
                        Err(ErrorModel::EmptyHeaderText)
                    } else {
                        Err(
                            ErrorModel::UnexpectedKeyword {
                                site: FieldSite::Header,
                                found: kw,
                            },
                        )
                    }
                },
                _ => Err(ErrorModel::UnexpectedKeyword { site: FieldSite::Header, found: kw }),
            }
        },
    }
}

/// The `msgstr[i]` fields of a plural record from slot `n` on, in
/// strictly increasing slot order, until the buffer is exhausted.
pub open spec fn spec_plural_items(n: int, t: Seq<char>) -> Result<
    (Seq<Seq<char>>, Seq<char>),
    ErrorModel,
>
    decreases t.len(),
    via spec_plural_items_decreases
{
    if t.len() == 0 {
        Ok((Seq::empty(), t))
    } else {
        match spec_parse_keyword(t) {
            Err(e) => Err(e),
            Ok((kw, u)) => match kw {
                Keyword::MsgstrPlural(k) => {
                    if k as int == n {
                        match spec_parse_string(u) {
                            Err(e) => Err(e),
                            Ok((v, w)) => match spec_plural_items(n + 1, w) {
                                Err(e) => Err(e),
                                Ok((items, rest)) => Ok((seq![v] + items, rest)),
                            },
                        }
                    } else {
                        Err(
                            ErrorModel::WrongPluralIndex {
                                expected: n,
                                found: k,
                                text: spec_snippet(t),
                            },
                        )
                    }
                },
                _ => Err(ErrorModel::UnexpectedKeyword { site: FieldSite::Plural, found: kw }),
            },
        }
    }
}

#[via_fn]
proof fn spec_plural_items_decreases(n: int, t: Seq<char>) {
    if t.len() != 0 {
        lemma_parse_keyword_len(t);
        if let Ok((kw, u)) = spec_parse_keyword(t) {
            lemma_parse_string_len(u);
        }
    }
}

/// The plural-arity coercion: with a configured count, excess slots are
/// cut and missing slots are filled with empty strings.
pub open spec fn spec_coerce(items: Seq<Seq<char>>, cases: Option<usize>) -> Seq<Seq<char>> {
    match cases {
        Option::None => items,
        Option::Some(n) => if items.len() >= n {
            items.take(n as int)
        } else {
            items + Seq::new((n - items.len()) as nat, |i: int| Seq::<char>::empty())
        },
    }
}

/// The record body after a non-empty `msgid`: either one `msgstr`
/// field, or a `msgid_plural` field and its `msgstr[i]` sequence, with
/// nothing after the last field.
pub open spec fn spec_body(
    ctx: Option<Seq<char>>,
    id: Seq<char>,
    t: Seq<char>,
    cases: Option<usize>,
) -> Result<MessageModel, ErrorModel> {
    match spec_field(t) {
        Err(e) => Err(e),
        Ok((kw, v, u)) => match kw {
            Keyword::Msgstr => {
                let rest = spec_skip_ws_comments(u);
                if rest.len() != 0 {
                    Err(ErrorModel::GarbageAfterField { plural: false, text: spec_snippet(rest) })
                } else {
                    match ctx {
                        Option::None => Ok(MessageModel::Regular { msgid: id, msgstr: v }),
                        Option::Some(c) => Ok(
                            MessageModel::RegularWithContext { msgid: id, msgctxt: c, msgstr: v },
                        ),
                    }
                }
            },
            Keyword::MsgidPlural => {
                match spec_plural_items(0, u) {
                    Err(e) => Err(e),
                    Ok((items, after)) => {
                        let coerced = spec_coerce(items, cases);
                        let rest = spec_skip_ws_comments(after);
                        if rest.len() != 0 {
                            Err(
                                ErrorModel::GarbageAfterField {
                                    plural: true,
                                    text: spec_snippet(rest),
                                },
                            )
                        } else {
                            match ctx {
                                Option::None => Ok(
                                    MessageModel::Plural {
                                        msgid: id,
                                        msgid_plural: v,
                                        msgstr: coerced,
                                    },
                                ),
                                Option::Some(c) => Ok(
                                    MessageModel::PluralWithContext {
                                        msgid: id,
                                        msgid_plural: v,
                                        msgctxt: c,
                                        msgstr: coerced,
                                    },
                                ),
                            }
                        }
                    },
                }
            },
            _ => Err(ErrorModel::UnexpectedKeyword { site: FieldSite::Body, found: kw }),
        },
    }
}

/// One whole record buffer: an optional non-empty context, then either
/// the header special case (empty `msgid`) or a record body.
pub open spec fn spec_parse_message(s: Seq<char>, cases: Option<usize>) -> Result<
    MessageModel,
    ErrorModel,
> {
    match spec_field(s) {
        Err(e) => Err(e),
        Ok((kw, v, t)) => match kw {
            Keyword::Msgctxt => {
                if v.len() == 0 {
                    Err(ErrorModel::EmptyContext)
                } else {
                    match spec_field(t) {
                        Err(e) => Err(e),
                        Ok((kw2, v2, t2)) => match kw2 {
                            Keyword::Msgctxt => Err(ErrorModel::DuplicateContext),
                            Keyword::Msgid => {
                                if v2.len() == 0 {
                                    Err(ErrorModel::HeaderWithContext)
                                } else {
                                    spec_body(Some(v), v2, t2, cases)
                                }
                            },
                            _ => Err(
                                ErrorModel::UnexpectedKeyword {
                                    site: FieldSite::Start,
                                    found: kw2,
                                },
                            ),
                        },
                    }
                }
            },
            Keyword::Msgid => {
                if v.len() == 0 {
                    spec_header(t)
                } else {
                    spec_body(None, v, t, cases)
                }
            },
            _ => Err(ErrorModel::UnexpectedKeyword { site: FieldSite::Start, found: kw }),
        },
    }
}

/// Skipping whitespace never lengthens the input.
pub proof fn lemma_skip_ws_len(s: Seq<char>)
    ensures
        spec_skip_ws(s).len() <= s.len(),
    decreases s.len(),
{
    if s.len() > 0 && is_space_char(s[0]) {
        lemma_skip_ws_len(s.skip(1));
    }
}

/// Skipping whitespace and comments never lengthens the input.
pub proof fn lemma_skip_ws_comments_from_len(s: Seq<char>, in_comment: bool)
    ensures
        spec_skip_ws_comments_from(s, in_comment).len() <= s.len(),
    decreases s.len(),
{
    if s.len() == 0 {
    } else if in_comment {
        lemma_skip_ws_comments_from_len(s.skip(1), s[0] != '\n');
    } else if is_space_char(s[0]) {
        lemma_skip_ws_comments_from_len(s.skip(1), false);
    } else if s[0] == '#' {
        lemma_skip_ws_comments_from_len(s.skip(1), true);
    } else if s.len() >= 2 && s[0] == '/' && s[1] == '/' {
        lemma_skip_ws_comments_from_len(s.skip(1), true);
    }
}

/// A recognized keyword consumes at least its own characters.
pub proof fn lemma_parse_keyword_len(s: Seq<char>)
    ensures
        spec_parse_keyword(s) matches Ok((kw, u)) ==> u.len() < s.len(),
{
    lemma_skip_ws_comments_from_len(s, false);
}

/// The literal body consumes at least the closing quote.
pub proof fn lemma_string_body_len(acc: Seq<char>, t: Seq<char>)
    ensures
        spec_string_body(acc, t) matches Ok((v, w)) ==> w.len() < t.len(),
    decreases t.len(),
{
    if t.len() == 0 {
    } else if t[0] == '"' {
        lemma_skip_ws_len(t.skip(1));
        let u = spec_skip_ws(t.skip(1));
        if u.len() > 0 && u[0] == '"' {
            lemma_string_body_len(acc, u.skip(1));
        }
    } else if t[0] == '\\' && t.len() >= 2 {
        if t[1] == 'r' {
            lemma_string_body_len(acc.push('\r'), t.skip(2));
        } else if t[1] == 'n' {
            lemma_string_body_len(acc.push('\n'), t.skip(2));
        } else if t[1] == 't' {
            lemma_string_body_len(acc.push('\t'), t.skip(2));
        } else if t[1] == '"' {
            lemma_string_body_len(acc.push('"'), t.skip(2));
        } else if t[1] == '\\' {
            lemma_string_body_len(acc.push('\\'), t.skip(2));
        }
    } else if t[0] == '\r' || t[0] == '\n' {
    } else if is_control_char(t[0]) {
    } else {
        lemma_string_body_len(acc.push(t[0]), t.skip(1));
    }
}

/// A parsed literal consumes at least its quotes.
pub proof fn lemma_parse_string_len(s: Seq<char>)
    ensures
        spec_parse_string(s) matches Ok((v, w)) ==> w.len() < s.len(),
{
    lemma_skip_ws_len(s);
    let t = spec_skip_ws(s);
    if t.len() > 0 && t[0] == '"' {
        lemma_string_body_len(Seq::empty(), t.skip(1));
    }
}

} // verus!
