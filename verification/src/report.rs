//! Diagnostic text for parse failures: one line per failure, with the
//! snippet of remaining input where one was captured.

use vstd::prelude::*;
use crate::chars::chars_to_string;
use crate::chars::push_str_chars;
use crate::escape::push_decimal;
use crate::escape::spec_decimal;
use crate::grammar::ErrorModel;
use crate::grammar::Expected;
use crate::grammar::FieldSite;
use crate::grammar::Keyword;
use crate::grammar::ParseError;
use crate::stream::StreamError;
use crate::stream::StreamErrorModel;

verus! {

/// The display name of a keyword.
pub open spec fn spec_keyword_name(kw: Keyword) -> Seq<char> {
    match kw {
        Keyword::Msgctxt => "msgctxt"@,
        Keyword::Msgid => "msgid"@,
        Keyword::Msgstr => "msgstr"@,
        Keyword::MsgidPlural => "msgid_plural"@,
        Keyword::MsgstrPlural(_) => "msgstr[N]"@,
    }
}

/// The diagnostic line of a parse failure.
pub open spec fn spec_message(e: ErrorModel) -> Seq<char> {
    match e {
        ErrorModel::UnexpectedEnd { expected } => match expected {
            Expected::Keyword => "Unexpected end of text. Expected: msgid, msgstr, msgid_plural, msgstr[N]."@,
            Expected::Literal => "Unexpected end of text. Expected string sequence."@,
        },
        ErrorModel::UnexpectedToken { expected, text } => match expected {
            Expected::Keyword => "Unexpected character or keyword. Expected: msgid, msgstr, msgid_plural, msgstr[N]. Text: \""@
                + text + "\"."@,
            Expected::Literal => "Unexpected character at beginning of the string sequence. Expected: '\"'. Text: \""@
                + text + "\"."@,
        },
        ErrorModel::UnterminatedString => "Unterminated string sequence. Expected: '\"' at the end of line."@,
        ErrorModel::InvalidEscape { text } => "Unexpected escape sequence in the string sequence. Expected: \\ followed by n, t, \", or \\. Text: \""@
            + text + "\"."@,
        ErrorModel::RawControlChar { text } => "Raw control character in the string sequence. Text: \""@
            + text + "\"."@,
        ErrorModel::EmptyContext => "Empty context. Expected: non-empty msgctxt \"\"."@,
        ErrorModel::DuplicateContext => "Second msgctxt after first one. Expected: single msgctxt."@,
        ErrorModel::HeaderWithContext => "msgctxt before empty msgid (AKA header). Expected: no msgctxt in header."@,
        ErrorModel::EmptyHeaderText => "Expected non-empty string after msgstr in header. Actual string length: 0."@,
        ErrorModel::UnexpectedKeyword { site, found } => match site {
            FieldSite::Start => "Unexpected keyword at beginning of the gettext PO message. Expected: msgid field with optional msgctxt before msgid. Actual keyword: "@
                + spec_keyword_name(found) + "."@,
            FieldSite::Header => "Unexpected keyword after empty msgid (AKA header). Expected: msgstr. Actual keyword: "@
                + spec_keyword_name(found) + "."@,
            FieldSite::Body => "Unexpected keyword after msgid. Expected: msgid_plural, msgstr. Actual keyword: "@
                + spec_keyword_name(found) + "."@,
            FieldSite::Plural => "Unexpected keyword after msgid_plural. Expected: msgstr[N]. Actual keyword: "@
                + spec_keyword_name(found) + "."@,
        },
        ErrorModel::WrongPluralIndex { expected, found, text } => "Unexpected index of plural msgstr[N]. Expected index: "@
            + spec_decimal(expected as nat) + ", actual index: "@ + spec_decimal(found as nat)
            + ". Text: \""@ + text + "\"."@,
        ErrorModel::GarbageAfterField { plural, text } => if plural {
            "Garbage after msgstr[N]. Text: \""@ + text + "\"."@
        } else {
            "Garbage after msgstr. Text: \""@ + text + "\"."@
        },
    }
}

/// The diagnostic line of a stream failure, without its cause's line.
pub open spec fn spec_stream_message(e: StreamErrorModel) -> Seq<char> {
    "Cannot parse message at line #"@ + spec_decimal(e.line_number as nat) + ". Message:\n\n"@
        + e.text
}

fn push_keyword_name(out: &mut Vec<char>, kw: Keyword)
    ensures
        final(out)@ == old(out)@ + spec_keyword_name(kw),
{
    match kw {
        Keyword::Msgctxt => push_str_chars(out, "msgctxt"),
        Keyword::Msgid => push_str_chars(out, "msgid"),
        Keyword::Msgstr => push_str_chars(out, "msgstr"),
        Keyword::MsgidPlural => push_str_chars(out, "msgid_plural"),
        Keyword::MsgstrPlural(_) => push_str_chars(out, "msgstr[N]"),
    }
}

fn push_snippet_tail(out: &mut Vec<char>, text: &String)
    ensures
        final(out)@ == old(out)@ + text@ + "\"."@,
{
    push_str_chars(out, text.as_str());
    push_str_chars(out, "\".");
    assert(out@ =~= old(out)@ + text@ + "\"."@);
}

impl ParseError {
    /// The diagnostic line of this failure.
    pub fn message(&self) -> (r: String)
        ensures
            r@ == spec_message(self@),
    {
        let mut out: Vec<char> = Vec::new();
        match self {
            ParseError::UnexpectedEnd { expected } => match expected {
                Expected::Keyword => push_str_chars(
                    &mut out,
                    "Unexpected end of text. Expected: msgid, msgstr, msgid_plural, msgstr[N].",
                ),
                Expected::Literal => push_str_chars(
                    &mut out,
                    "Unexpected end of text. Expected string sequence.",
                ),
            },
            ParseError::UnexpectedToken { expected, text } => {
                match expected {
                    Expected::Keyword => push_str_chars(
                        &mut out,
                        "Unexpected character or keyword. Expected: msgid, msgstr, msgid_plural, msgstr[N]. Text: \"",
                    ),
                    Expected::Literal => push_str_chars(
                        &mut out,
                        "Unexpected character at beginning of the string sequence. Expected: '\"'. Text: \"",
                    ),
                }
                push_snippet_tail(&mut out, text);
            },
            ParseError::UnterminatedString => push_str_chars(
                &mut out,
                "Unterminated string sequence. Expected: '\"' at the end of line.",
            ),
            ParseError::InvalidEscape { text } => {
                push_str_chars(
                    &mut out,
                    "Unexpected escape sequence in the string sequence. Expected: \\ followed by n, t, \", or \\. Text: \"",
                );
                push_snippet_tail(&mut out, text);
            },
            ParseError::RawControlChar { text } => {
                push_str_chars(&mut out, "Raw control character in the string sequence. Text: \"");
                push_snippet_tail(&mut out, text);
            },
            ParseError::EmptyContext => push_str_chars(
                &mut out,
                "Empty context. Expected: non-empty msgctxt \"\".",
            ),
            ParseError::DuplicateContext => push_str_chars(
                &mut out,
                "Second msgctxt after first one. Expected: single msgctxt.",
            ),
            ParseError::HeaderWithContext => push_str_chars(
                &mut out,
                "msgctxt before empty msgid (AKA header). Expected: no msgctxt in header.",
            ),
            ParseError::EmptyHeaderText => push_str_chars(
                &mut out,
                "Expected non-empty string after msgstr in header. Actual string length: 0.",
            ),
            ParseError::UnexpectedKeyword { site, found } => {
                match site {
                    FieldSite::Start => push_str_chars(
                        &mut out,
                        "Unexpected keyword at beginning of the gettext PO message. Expected: msgid field with optional msgctxt before msgid. Actual keyword: ",
                    ),
                    FieldSite::Header => push_str_chars(
                        &mut out,
                        "Unexpected keyword after empty msgid (AKA header). Expected: msgstr. Actual keyword: ",
                    ),
                    FieldSite::Body => push_str_chars(
                        &mut out,
                        "Unexpected keyword after msgid. Expected: msgid_plural, msgstr. Actual keyword: ",
                    ),
                    FieldSite::Plural => push_str_chars(
                        &mut out,
                        "Unexpected keyword after msgid_plural. Expected: msgstr[N]. Actual keyword: ",
                    ),
                }
                push_keyword_name(&mut out, *found);
                push_str_chars(&mut out, ".");
            },
            ParseError::WrongPluralIndex { expected, found, text } => {
                push_str_chars(
                    &mut out,
                    "Unexpected index of plural msgstr[N]. Expected index: ",
                );
                push_decimal(&mut out, *expected);
                push_str_chars(&mut out, ", actual index: ");
                push_decimal(&mut out, *found as usize);
                push_str_chars(&mut out, ". Text: \"");
                push_snippet_tail(&mut out, text);
            },
            ParseError::GarbageAfterField { plural, text } => {
                if *plural {
                    push_str_chars(&mut out, "Garbage after msgstr[N]. Text: \"");
                } else {
                    push_str_chars(&mut out, "Garbage after msgstr. Text: \"");
                }
                push_snippet_tail(&mut out, text);
            },
        }
        assert(out@ =~= spec_message(self@));
        chars_to_string(&out)
    }
}

impl StreamError {
    /// The diagnostic line of this failure, naming the line at which
    /// the record's parse was triggered and the record's buffered
    /// text; the cause keeps its own diagnostic line.
    pub fn message(&self) -> (r: String)
        ensures
            r@ == spec_stream_message(self@),
    {
        let mut out: Vec<char> = Vec::new();
        push_str_chars(&mut out, "Cannot parse message at line #");
        push_decimal(&mut out, self.line_number);
        push_str_chars(&mut out, ". Message:\n\n");
        push_str_chars(&mut out, self.text.as_str());
        assert(out@ =~= spec_stream_message(self@));
        chars_to_string(&out)
    }
}

} // verus!
