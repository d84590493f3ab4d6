//! The executable parser: a positional cursor over the characters of
//! one record buffer, proved equal to the grammar model.

use vstd::prelude::*;
use crate::chars::chars_to_string;
use crate::chars::is_control;
use crate::chars::is_space;
use crate::chars::str_chars;
use crate::grammar::ErrorModel;
use crate::grammar::Expected;
use crate::grammar::FieldSite;
use crate::grammar::Keyword;
use crate::grammar::ParseError;
use crate::grammar::spec_body;
use crate::grammar::spec_coerce;
use crate::grammar::spec_field;
use crate::grammar::spec_header;
use crate::grammar::spec_parse_keyword;
use crate::grammar::spec_parse_message;
use crate::grammar::spec_parse_string;
use crate::grammar::spec_plural_items;
use crate::grammar::spec_skip_ws;
use crate::grammar::spec_skip_ws_comments;
use crate::grammar::spec_skip_ws_comments_from;
use crate::grammar::spec_snippet;
use crate::grammar::spec_string_body;
use crate::message::MessageModel;
use crate::message::PoMessage;

verus! {

/// Parser for messages in Portable Object format.
pub struct Parser {
    /// Number of plural cases that parsed plural records are coerced
    /// to; absent means no coercion.
    pub number_of_plural_cases: Option<usize>,
}

/// The leading characters of the remaining input, cut to twenty.
fn snippet(text: &[char], i: usize) -> (r: String)
    requires
        i <= text@.len(),
    ensures
        r@ == spec_snippet(text@.skip(i as int)),
{
    let n = text.len();
    let end = if n - i > 20 {
        i + 20
    } else {
        n
    };
    let mut v: Vec<char> = Vec::new();
    let mut j = i;
    while j < end
        invariant
            i <= j <= end <= n,
            n == text@.len(),
            v@ == text@.subrange(i as int, j as int),
        decreases end - j,
    {
        v.push(text[j]);
        assert(v@ =~= text@.subrange(i as int, j + 1));
        j = j + 1;
    }
    proof {
        let s = text@.skip(i as int);
        if n - i > 20 {
            assert(v@ =~= s.take(20));
        } else {
            assert(v@ =~= s);
        }
    }
    chars_to_string(&v)
}

/// Advances the cursor past whitespace.
pub fn skip_spaces(text: &[char], i: usize) -> (j: usize)
    requires
        i <= text@.len(),
    ensures
        i <= j <= text@.len(),
        text@.skip(j as int) == spec_skip_ws(text@.skip(i as int)),
{
    let n = text.len();
    let mut j = i;
    while j < n && is_space(text[j])
        invariant
            i <= j <= n,
            n == text@.len(),
            spec_skip_ws(text@.skip(i as int)) == spec_skip_ws(text@.skip(j as int)),
        decreases n - j,
    {
        proof {
            assert(text@.skip(j as int)[0] == text@[j as int]);
            assert(text@.skip(j as int).skip(1) =~= text@.skip(j + 1));
        }
        j = j + 1;
    }
    proof {
        let s = text@.skip(j as int);
        if j < n {
            assert(s[0] == text@[j as int]);
        }
        assert(spec_skip_ws(s) == s);
    }
    j
}

/// Advances the cursor past whitespace and full-line comments, which
/// open with `#` or `//` and run to the end of the line.
pub fn skip_spaces_and_comments(text: &[char], i: usize) -> (j: usize)
    requires
        i <= text@.len(),
    ensures
        i <= j <= text@.len(),
        text@.skip(j as int) == spec_skip_ws_comments(text@.skip(i as int)),
{
    let n = text.len();
    let mut j = i;
    let mut in_comment = false;
    loop
        invariant
            i <= j <= n,
            n == text@.len(),
            spec_skip_ws_comments_from(text@.skip(i as int), false)
                == spec_skip_ws_comments_from(text@.skip(j as int), in_comment),
        decreases n - j, if in_comment { 0int } else { 1int },
    {
        proof {
            if j < n {
                assert(text@.skip(j as int)[0] == text@[j as int]);
                assert(text@.skip(j as int).skip(1) =~= text@.skip(j + 1));
                if j + 1 < n {
                    assert(text@.skip(j as int)[1] == text@[j + 1]);
                }
            }
        }
        if j == n {
            return j;
        }
        let c = text[j];
        if in_comment {
            if c == '\n' {
                in_comment = false;
            }
            j = j + 1;
        } else if is_space(c) {
            j = j + 1;
        } else if c == '#' {
            in_comment = true;
            j = j + 1;
        } else if c == '/' && j + 1 < n && text[j + 1] == '/' {
            in_comment = true;
            j = j + 1;
        } else {
            return j;
        }
    }
}

impl Parser {
    pub fn new(number_of_plural_cases: Option<usize>) -> (r: Self)
        ensures
            r.number_of_plural_cases == number_of_plural_cases,
    {
        Self { number_of_plural_cases }
    }

    /// Recognizes one keyword at the comment-skipped cursor, each
    /// required to be followed by a single space.
    fn parse_keyword(&self, text: &[char], i: usize) -> (r: Result<(Keyword, usize), ParseError>)
        requires
            i <= text@.len(),
        ensures
            ({
                let sp = spec_parse_keyword(text@.skip(i as int));
                match r {
                    Ok((kw, j)) => i <= j <= text@.len() && sp == Ok::<
                        (Keyword, Seq<char>),
                        ErrorModel,
                    >((kw, text@.skip(j as int))),
                    Err(e) => sp == Err::<(Keyword, Seq<char>), ErrorModel>(e@),
                }
            }),
    {
        let n = text.len();
        let j = skip_spaces_and_comments(text, i);
        let ghost t = text@.skip(j as int);
        proof {
            let k = n - j;
            assert forall|p: int| 0 <= p < k implies t[p] == text@[j + p] by {}
        }
        if n - j >= 6 && text[j] == 'm' && text[j + 1] == 's' && text[j + 2] == 'g'
            && text[j + 3] == 'i' && text[j + 4] == 'd' && text[j + 5] == ' ' {
            proof {
                assert(t.skip(6) =~= text@.skip(j + 6));
            }
            Ok((Keyword::Msgid, j + 6))
        } else if n - j >= 7 && text[j] == 'm' && text[j + 1] == 's' && text[j + 2] == 'g'
            && text[j + 3] == 's' && text[j + 4] == 't' && text[j + 5] == 'r'
            && text[j + 6] == ' ' {
            proof {
                assert(t.skip(7) =~= text@.skip(j + 7));
            }
            Ok((Keyword::Msgstr, j + 7))
        } else if n - j >= 10 && text[j] == 'm' && text[j + 1] == 's' && text[j + 2] == 'g'
            && text[j + 3] == 's' && text[j + 4] == 't' && text[j + 5] == 'r'
            && text[j + 6] == '[' && (text[j + 7] as u32) >= 48 && (text[j + 7] as u32) <= 57
            && text[j + 8] == ']' && text[j + 9] == ' ' {
            proof {
                assert(t.skip(10) =~= text@.skip(j + 10));
            }
            let d = ((text[j + 7] as u32) - 48) as u8;
            Ok((Keyword::MsgstrPlural(d), j + 10))
        } else if n - j >= 13 && text[j] == 'm' && text[j + 1] == 's' && text[j + 2] == 'g'
            && text[j + 3] == 'i' && text[j + 4] == 'd' && text[j + 5] == '_'
            && text[j + 6] == 'p' && text[j + 7] == 'l' && text[j + 8] == 'u'
            && text[j + 9] == 'r' && text[j + 10] == 'a' && text[j + 11] == 'l'
            && text[j + 12] == ' ' {
            proof {
                assert(t.skip(13) =~= text@.skip(j + 13));
            }
            Ok((Keyword::MsgidPlural, j + 13))
        } else if n - j >= 8 && text[j] == 'm' && text[j + 1] == 's' && text[j + 2] == 'g'
            && text[j + 3] == 'c' && text[j + 4] == 't' && text[j + 5] == 'x'
            && text[j + 6] == 't' && text[j + 7] == ' ' {
            proof {
                assert(t.skip(8) =~= text@.skip(j + 8));
            }
            Ok((Keyword::Msgctxt, j + 8))
        } else if j == n {
            Err(ParseError::UnexpectedEnd { expected: Expected::Keyword })
        } else {
            Err(ParseError::UnexpectedToken { expected: Expected::Keyword, text: snippet(text, j) })
        }
    }

    /// Reads one quoted literal at the whitespace-skipped cursor,
    /// decoding escapes and joining continuation segments.
    #[verifier::loop_isolation(false)]
    fn parse_string(&self, text: &[char], i: usize) -> (r: Result<(Vec<char>, usize), ParseError>)
        requires
            i <= text@.len(),
        ensures
            ({
                let sp = spec_parse_string(text@.skip(i as int));
                match r {
                    Ok((v, j)) => i <= j <= text@.len() && sp == Ok::<
                        (Seq<char>, Seq<char>),
                        ErrorModel,
                    >((v@, text@.skip(j as int))),
                    Err(e) => sp == Err::<(Seq<char>, Seq<char>), ErrorModel>(e@),
                }
            }),
    {
        let n = text.len();
        let j0 = skip_spaces(text, i);
        let ghost t0 = text@.skip(j0 as int);
        if j0 == n {
            assert(t0.len() == 0);
            return Err(ParseError::UnexpectedEnd { expected: Expected::Literal });
        }
        proof {
            assert(t0[0] == text@[j0 as int]);
        }
        if text[j0] != '"' {
            return Err(
                ParseError::UnexpectedToken { expected: Expected::Literal, text: snippet(text, j0) },
            );
        }
        proof {
            assert(t0.skip(1) =~= text@.skip(j0 + 1));
        }
        let mut acc: Vec<char> = Vec::new();
        let mut j = j0 + 1;
        loop
            invariant
                j0 + 1 <= j <= n,
                spec_string_body(acc@, text@.skip(j as int)) == spec_string_body(
                    Seq::empty(),
                    text@.skip(j0 + 1),
                ),
            decreases n - j,
        {
            if j == n {
                assert(text@.skip(j as int).len() == 0);
                return Err(ParseError::UnexpectedEnd { expected: Expected::Literal });
            }
            let ghost t = text@.skip(j as int);
            let c = text[j];
            proof {
                assert(t[0] == c);
                assert(t.skip(1) =~= text@.skip(j + 1));
            }
            if c == '"' {
                let j2 = skip_spaces(text, j + 1);
                let ghost u = text@.skip(j2 as int);
                if j2 < n && text[j2] == '"' {
                    proof {
                        assert(u[0] == text@[j2 as int]);
                        assert(u.skip(1) =~= text@.skip(j2 + 1));
                        assert(spec_string_body(acc@, t) == spec_string_body(
                            acc@,
                            text@.skip(j2 + 1),
                        ));
                    }
                    j = j2 + 1;
                } else {
                    proof {
                        if j2 < n {
                            assert(u[0] == text@[j2 as int]);
                        }
                        assert(spec_string_body(acc@, t) == Ok::<
                            (Seq<char>, Seq<char>),
                            ErrorModel,
                        >((acc@, u)));
                    }
                    return Ok((acc, j2));
                }
            } else if c == '\\' && j + 1 < n {
                let e = text[j + 1];
                proof {
                    assert(t[1] == e);
                    assert(t.skip(2) =~= text@.skip(j + 2));
                }
                if e == 'r' {
                    acc.push('\r');
                    j = j + 2;
                } else if e == 'n' {
                    acc.push('\n');
                    j = j + 2;
                } else if e == 't' {
                    acc.push('\t');
                    j = j + 2;
                } else if e == '"' {
                    acc.push('"');
                    j = j + 2;
                } else if e == '\\' {
                    acc.push('\\');
                    j = j + 2;
                } else {
                    return Err(ParseError::InvalidEscape { text: snippet(text, j) });
                }
            } else if c == '\r' || c == '\n' {
                return Err(ParseError::UnterminatedString);
            } else if is_control(c) {
                return Err(ParseError::RawControlChar { text: snippet(text, j) });
            } else {
                acc.push(c);
                j = j + 1;
            }
        }
    }

    /// Reads one keyword and its quoted literal.
    fn parse_field(&self, text: &[char], i: usize) -> (r: Result<
        (Keyword, Vec<char>, usize),
        ParseError,
    >)
        requires
            i <= text@.len(),
        ensures
            ({
                let sp = spec_field(text@.skip(i as int));
                match r {
                    Ok((kw, v, j)) => i <= j <= text@.len() && sp == Ok::<
                        (Keyword, Seq<char>, Seq<char>),
                        ErrorModel,
                    >((kw, v@, text@.skip(j as int))),
                    Err(e) => sp == Err::<(Keyword, Seq<char>, Seq<char>), ErrorModel>(e@),
                }
            }),
    {
        match self.parse_keyword(text, i) {
            Err(e) => Err(e),
            Ok((kw, j1)) => match self.parse_string(text, j1) {
                Err(e) => Err(e),
                Ok((v, j2)) => Ok((kw, v, j2)),
            },
        }
    }

    /// Reads the `msgstr[i]` fields of a plural record, in strictly
    /// increasing slot order, until the buffer is exhausted.
    #[verifier::loop_isolation(false)]
    fn parse_plural_items(&self, text: &[char], i: usize) -> (r: Result<
        (Vec<String>, usize),
        ParseError,
    >)
        requires
            i <= text@.len(),
        ensures
            ({
                let sp = spec_plural_items(0, text@.skip(i as int));
                match r {
                    Ok((items, j)) => i <= j <= text@.len() && sp == Ok::<
                        (Seq<Seq<char>>, Seq<char>),
                        ErrorModel,
                    >((items.deep_view(), text@.skip(j as int))),
                    Err(e) => sp == Err::<(Seq<Seq<char>>, Seq<char>), ErrorModel>(e@),
                }
            }),
    {
        let n = text.len();
        let mut items: Vec<String> = Vec::new();
        let mut j = i;
        proof {
            assert(items.deep_view() =~= Seq::<Seq<char>>::empty());
            let sp = spec_plural_items(0, text@.skip(i as int));
            if let Ok((its, rest)) = sp {
                assert(items.deep_view() + its =~= its);
            }
        }
        loop
            invariant
                i <= j <= n,
                extend_items(
                    items.deep_view(),
                    spec_plural_items(items@.len() as int, text@.skip(j as int)),
                ) == spec_plural_items(0, text@.skip(i as int)),
            decreases n - j,
        {
            let ghost k = items@.len() as int;
            let ghost t = text@.skip(j as int);
            if j == n {
                proof {
                    assert(t.len() == 0);
                    assert(spec_plural_items(k, t) == Ok::<
                        (Seq<Seq<char>>, Seq<char>),
                        ErrorModel,
                    >((Seq::<Seq<char>>::empty(), t)));
                    assert(items.deep_view() + Seq::<Seq<char>>::empty() =~= items.deep_view());
                }
                return Ok((items, j));
            }
            match self.parse_keyword(text, j) {
                Err(e) => {
                    return Err(e);
                },
                Ok((kw, u)) => {
                    match kw {
                        Keyword::MsgstrPlural(d) => {
                            if (d as usize) == items.len() {
                                match self.parse_string(text, u) {
                                    Err(e) => {
                                        return Err(e);
                                    },
                                    Ok((v, w)) => {
                                        proof {
                                            crate::grammar::lemma_parse_keyword_len(t);
                                            crate::grammar::lemma_parse_string_len(
                                                text@.skip(u as int),
                                            );
                                            let tail = spec_plural_items(k + 1, text@.skip(w as int));
                                            assert(spec_plural_items(k, t) == (match tail {
                                                Ok((its, rest)) => Ok::<
                                                    (Seq<Seq<char>>, Seq<char>),
                                                    ErrorModel,
                                                >((seq![v@] + its, rest)),
                                                Err(e) => Err(e),
                                            }));
                                            if let Ok((its, rest)) = tail {
                                                assert(items.deep_view() + (seq![v@] + its)
                                                    =~= items.deep_view().push(v@) + its);
                                            }
                                        }
                                        let ghost dv_old = items.deep_view();
                                        let s = chars_to_string(&v);
                                        items.push(s);
                                        proof {
                                            assert(items.deep_view() =~= dv_old.push(v@));
                                        }
                                        j = w;
                                    },
                                }
                            } else {
                                return Err(
                                    ParseError::WrongPluralIndex {
                                        expected: items.len(),
                                        found: d,
                                        text: snippet(text, j),
                                    },
                                );
                            }
                        },
                        _ => {
                            return Err(
                                ParseError::UnexpectedKeyword {
                                    site: FieldSite::Plural,
                                    found: kw,
                                },
                            );
                        },
                    }
                },
            }
        }
    }

    /// Applies the plural-arity coercion to the collected slots.
    fn coerce_items(&self, items: Vec<String>) -> (r: Vec<String>)
        ensures
            r.deep_view() == spec_coerce(items.deep_view(), self.number_of_plural_cases),
    {
        let ghost orig = items.deep_view();
        match self.number_of_plural_cases {
            Option::None => items,
            Option::Some(nc) => {
                let mut items = items;
                if items.len() >= nc {
                    items.truncate(nc);
                    proof {
                        assert(items.deep_view() =~= orig.take(nc as int));
                    }
                    items
                } else {
                    let ghost k = items@.len();
                    while items.len() < nc
                        invariant
                            k <= items@.len() <= nc,
                            items.deep_view().take(k as int) =~= orig,
                            forall|p: int| k <= p < items@.len() ==> items.deep_view()[p]
                                =~= Seq::<char>::empty(),
                        decreases nc - items@.len(),
                    {
                        let ghost dv_old = items.deep_view();
                        items.push(String::new());
                        proof {
                            assert(items.deep_view() =~= dv_old.push(Seq::<char>::empty()));
                            assert(items.deep_view().take(k as int) =~= orig);
                        }
                    }
                    proof {
                        assert(items.deep_view() =~= orig + Seq::new(
                            (nc - orig.len()) as nat,
                            |p: int| Seq::<char>::empty(),
                        ));
                    }
                    items
                }
            },
        }
    }

    /// The record body after a non-empty `msgid`.
    fn parse_body(
        &self,
        text: &[char],
        ctx: Option<Vec<char>>,
        id: Vec<char>,
        i: usize,
    ) -> (r: Result<PoMessage, ParseError>)
        requires
            i <= text@.len(),
        ensures
            ({
                let sp = spec_body(
                    (match ctx {
                        Option::Some(c) => Option::Some(c@),
                        Option::None => Option::None,
                    }),
                    id@,
                    text@.skip(i as int),
                    self.number_of_plural_cases,
                );
                match r {
                    Ok(m) => sp == Ok::<MessageModel, ErrorModel>(m@),
                    Err(e) => sp == Err::<MessageModel, ErrorModel>(e@),
                }
            }),
    {
        let n = text.len();
        let (kw, v, u) = match self.parse_field(text, i) {
            Err(e) => {
                return Err(e);
            },
            Ok(x) => x,
        };
        match kw {
            Keyword::Msgstr => {
                let rest = skip_spaces_and_comments(text, u);
                if rest != n {
                    assert(text@.skip(rest as int).len() != 0);
                    Err(ParseError::GarbageAfterField { plural: false, text: snippet(text, rest) })
                } else {
                    assert(text@.skip(rest as int).len() == 0);
                    match ctx {
                        Option::None => Ok(
                            PoMessage::Regular {
                                msgid: chars_to_string(&id),
                                msgstr: chars_to_string(&v),
                            },
                        ),
                        Option::Some(c) => Ok(
                            PoMessage::RegularWithContext {
                                msgid: chars_to_string(&id),
                                msgctxt: chars_to_string(&c),
                                msgstr: chars_to_string(&v),
                            },
                        ),
                    }
                }
            },
            Keyword::MsgidPlural => {
                match self.parse_plural_items(text, u) {
                    Err(e) => Err(e),
                    Ok((items, after)) => {
                        let coerced = self.coerce_items(items);
                        let rest = skip_spaces_and_comments(text, after);
                        if rest != n {
                            assert(text@.skip(rest as int).len() != 0);
                            Err(
                                ParseError::GarbageAfterField {
                                    plural: true,
                                    text: snippet(text, rest),
                                },
                            )
                        } else {
                            assert(text@.skip(rest as int).len() == 0);
                            match ctx {
                                Option::None => Ok(
                                    PoMessage::Plural {
                                        msgid: chars_to_string(&id),
                                        msgid_plural: chars_to_string(&v),
                                        msgstr: coerced,
                                    },
                                ),
                                Option::Some(c) => Ok(
                                    PoMessage::PluralWithContext {
                                        msgid: chars_to_string(&id),
                                        msgid_plural: chars_to_string(&v),
                                        msgctxt: chars_to_string(&c),
                                        msgstr: coerced,
                                    },
                                ),
                            }
                        }
                    },
                }
            },
            _ => Err(ParseError::UnexpectedKeyword { site: FieldSite::Body, found: kw }),
        }
    }

    /// The header tail, after `msgid ""`.
    fn parse_header(&self, text: &[char], i: usize) -> (r: Result<PoMessage, ParseError>)
        requires
            i <= text@.len(),
        ensures
            ({
                let sp = spec_header(text@.skip(i as int));
                match r {
                    Ok(m) => sp == Ok::<MessageModel, ErrorModel>(m@),
                    Err(e) => sp == Err::<MessageModel, ErrorModel>(e@),
                }
            }),
    {
        let n = text.len();
        let (kw, v, u) = match self.parse_field(text, i) {
            Err(e) => {
                return Err(e);
            },
            Ok(x) => x,
        };
        let rest = skip_spaces_and_comments(text, u);
        proof {
            if rest == n {
                assert(text@.skip(rest as int).len() == 0);
            } else {
                assert(text@.skip(rest as int).len() != 0);
            }
        }
        match kw {
            Keyword::Msgstr => {
                if v.len() > 0 && rest == n {
                    Ok(PoMessage::Header { msgstr: chars_to_string(&v) })
                } else if v.len() == 0 && rest == n {
                    Err(ParseError::EmptyHeaderText)
                } else {
                    Err(ParseError::UnexpectedKeyword { site: FieldSite::Header, found: kw })
                }
            },
            _ => Err(ParseError::UnexpectedKeyword { site: FieldSite::Header, found: kw }),
        }
    }

    /// Parses one whole record buffer, already isolated from the
    /// stream: an optional non-empty context, then the header special
    /// case or a record body. Every path yields exactly one record or
    /// one error.
    pub fn parse_message(&self, text: &[char]) -> (r: Result<PoMessage, ParseError>)
        ensures
            ({
                let sp = spec_parse_message(text@, self.number_of_plural_cases);
                match r {
                    Ok(m) => sp == Ok::<MessageModel, ErrorModel>(m@),
                    Err(e) => sp == Err::<MessageModel, ErrorModel>(e@),
                }
            }),
    {
        proof {
            assert(text@.skip(0) =~= text@);
        }
        let (kw1, v1, t1) = match self.parse_field(text, 0) {
            Err(e) => {
                return Err(e);
            },
            Ok(x) => x,
        };
        match kw1 {
            Keyword::Msgctxt => {
                if v1.len() == 0 {
                    return Err(ParseError::EmptyContext);
                }
                let (kw2, v2, t2) = match self.parse_field(text, t1) {
                    Err(e) => {
                        return Err(e);
                    },
                    Ok(x) => x,
                };
                match kw2 {
                    Keyword::Msgctxt => Err(ParseError::DuplicateContext),
                    Keyword::Msgid => {
                        if v2.len() == 0 {
                            Err(ParseError::HeaderWithContext)
                        } else {
                            self.parse_body(text, Some(v1), v2, t2)
                        }
                    },
                    _ => Err(ParseError::UnexpectedKeyword { site: FieldSite::Start, found: kw2 }),
                }
            },
            Keyword::Msgid => {
                if v1.len() == 0 {
                    self.parse_header(text, t1)
                } else {
                    self.parse_body(text, None, v1, t1)
                }
            },
            _ => Err(ParseError::UnexpectedKeyword { site: FieldSite::Start, found: kw1 }),
        }
    }

    /// Parses one record buffer given as a string.
    pub fn parse_message_from_str(&self, text: &str) -> (r: Result<PoMessage, ParseError>)
        ensures
            ({
                let sp = spec_parse_message(text@, self.number_of_plural_cases);
                match r {
                    Ok(m) => sp == Ok::<MessageModel, ErrorModel>(m@),
                    Err(e) => sp == Err::<MessageModel, ErrorModel>(e@),
                }
            }),
    {
        let v = str_chars(text);
        self.parse_message(v.as_slice())
    }
}

/// The items already read, prepended onto the outcome of reading the
/// rest.
spec fn extend_items(
    pre: Seq<Seq<char>>,
    r: Result<(Seq<Seq<char>>, Seq<char>), ErrorModel>,
) -> Result<(Seq<Seq<char>>, Seq<char>), ErrorModel> {
    match r {
        Ok((items, rest)) => Ok((pre + items, rest)),
        Err(e) => Err(e),
    }
}

} // verus!
