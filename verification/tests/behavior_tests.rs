use po_tools::escape::escape_string;
use po_tools::grammar::Expected;
use po_tools::grammar::FieldSite;
use po_tools::grammar::Keyword;
use po_tools::grammar::ParseError;
use po_tools::message::PoMessage;
use po_tools::parser::Parser;

fn parse(text: &str) -> Result<PoMessage, ParseError> {
    Parser::new(None).parse_message_from_str(text)
}

#[test]
fn scenario_simple_round_trip() {
    let input = "msgid \"%d matching item\"\nmsgstr \"%d item\"\n";
    let msg = parse(input).unwrap();
    assert_eq!(
        msg,
        PoMessage::Regular {
            msgid: "%d matching item".to_string(),
            msgstr: "%d item".to_string(),
        }
    );
    // The canonical form pads `msgid` with a second space; reparsing it
    // yields the same record.
    assert_eq!(msg.to_text(), "msgid  \"%d matching item\"\nmsgstr \"%d item\"\n");
    assert_eq!(parse(&msg.to_text()).unwrap(), msg);
}

#[test]
fn scenario_context_prefix() {
    let input = "msgctxt \"listbox\"\nmsgid \"%d matching item\"\nmsgstr \"%d item\"\n";
    let msg = parse(input).unwrap();
    assert_eq!(
        msg,
        PoMessage::RegularWithContext {
            msgid: "%d matching item".to_string(),
            msgctxt: "listbox".to_string(),
            msgstr: "%d item".to_string(),
        }
    );
}

#[test]
fn scenario_plural_without_arity() {
    let input =
        "msgid \"%d item\"\nmsgid_plural \"%d items\"\nmsgstr[0] \"a\"\nmsgstr[1] \"b\"\nmsgstr[2] \"c\"\n";
    let msg = parse(input).unwrap();
    assert_eq!(
        msg,
        PoMessage::Plural {
            msgid: "%d item".to_string(),
            msgid_plural: "%d items".to_string(),
            msgstr: vec!["a".to_string(), "b".to_string(), "c".to_string()],
        }
    );
}

#[test]
fn scenario_plural_arity_truncates() {
    let input =
        "msgid \"%d item\"\nmsgid_plural \"%d items\"\nmsgstr[0] \"a\"\nmsgstr[1] \"b\"\nmsgstr[2] \"c\"\n";
    let msg = Parser::new(Some(2)).parse_message_from_str(input).unwrap();
    assert_eq!(
        msg,
        PoMessage::Plural {
            msgid: "%d item".to_string(),
            msgid_plural: "%d items".to_string(),
            msgstr: vec!["a".to_string(), "b".to_string()],
        }
    );
}

#[test]
fn plural_arity_pads_with_empty_slots() {
    let input = "msgid \"%d item\"\nmsgid_plural \"%d items\"\nmsgstr[0] \"a\"\n";
    let msg = Parser::new(Some(3)).parse_message_from_str(input).unwrap();
    assert_eq!(
        msg,
        PoMessage::Plural {
            msgid: "%d item".to_string(),
            msgid_plural: "%d items".to_string(),
            msgstr: vec!["a".to_string(), String::new(), String::new()],
        }
    );
}

#[test]
fn scenario_continuation_joins_segments() {
    let input = "msgid \"key\"\nmsgstr \"line1\\n\"\n\"line2\"\n";
    let msg = parse(input).unwrap();
    assert_eq!(
        msg,
        PoMessage::Regular { msgid: "key".to_string(), msgstr: "line1\nline2".to_string() }
    );
    // Serializing writes the embedded line break back in continuation
    // form, with an empty leading segment.
    assert_eq!(msg.to_text(), "msgid  \"key\"\nmsgstr \"\"\n\"line1\\n\"\n\"line2\"\n");
    assert_eq!(parse(&msg.to_text()).unwrap(), msg);
}

#[test]
fn scenario_comment_only_buffer_fails() {
    let err = parse("# just a comment\n").unwrap_err();
    assert!(matches!(err, ParseError::UnexpectedEnd { expected: Expected::Keyword }));
}

#[test]
fn strict_plural_ordering_rejects_gap() {
    let input = "msgid \"a\"\nmsgid_plural \"b\"\nmsgstr[0] \"x\"\nmsgstr[2] \"y\"\n";
    let err = parse(input).unwrap_err();
    assert!(matches!(err, ParseError::WrongPluralIndex { expected: 1, found: 2, .. }));
}

#[test]
fn header_special_case() {
    let msg = parse("msgid \"\"\nmsgstr \"Key: v\\n\"\n").unwrap();
    assert_eq!(msg, PoMessage::Header { msgstr: "Key: v\n".to_string() });

    let err = parse("msgid \"\"\nmsgstr \"Key: v\\n\"\nmsgid \"tail\"\n").unwrap_err();
    assert!(matches!(
        err,
        ParseError::UnexpectedKeyword { site: FieldSite::Header, found: Keyword::Msgstr }
    ));
}

#[test]
fn error_unexpected_end_in_literal() {
    let err = parse("msgid \"open").unwrap_err();
    assert!(matches!(err, ParseError::UnexpectedEnd { expected: Expected::Literal }));
    assert_eq!(err.message(), "Unexpected end of text. Expected string sequence.");
}

#[test]
fn error_unexpected_token_cases() {
    let err = parse("nonsense \"a\"\n").unwrap_err();
    assert!(matches!(err, ParseError::UnexpectedToken { expected: Expected::Keyword, .. }));

    let err = parse("msgid x\n").unwrap_err();
    assert!(matches!(err, ParseError::UnexpectedToken { expected: Expected::Literal, .. }));
}

#[test]
fn error_unterminated_string() {
    let err = parse("msgid \"a\nb\"\nmsgstr \"c\"\n").unwrap_err();
    assert!(matches!(err, ParseError::UnterminatedString));
}

#[test]
fn error_invalid_escape() {
    let err = parse("msgid \"a\\x\"\nmsgstr \"b\"\n").unwrap_err();
    assert!(matches!(err, ParseError::InvalidEscape { .. }));
}

#[test]
fn error_raw_control_char() {
    let err = parse("msgid \"a\tb\"\nmsgstr \"c\"\n").unwrap_err();
    assert!(matches!(err, ParseError::RawControlChar { .. }));
}

#[test]
fn error_context_cases() {
    let err = parse("msgctxt \"\"\nmsgid \"a\"\nmsgstr \"b\"\n").unwrap_err();
    assert!(matches!(err, ParseError::EmptyContext));

    let err = parse("msgctxt \"c\"\nmsgctxt \"d\"\nmsgid \"a\"\nmsgstr \"b\"\n").unwrap_err();
    assert!(matches!(err, ParseError::DuplicateContext));

    let err = parse("msgctxt \"c\"\nmsgid \"\"\nmsgstr \"Key: v\\n\"\n").unwrap_err();
    assert!(matches!(err, ParseError::HeaderWithContext));
}

#[test]
fn error_empty_header_text() {
    let err = parse("msgid \"\"\nmsgstr \"\"\n").unwrap_err();
    assert!(matches!(err, ParseError::EmptyHeaderText));
}

#[test]
fn error_unexpected_keyword_sites() {
    let err = parse("msgstr \"a\"\n").unwrap_err();
    assert!(matches!(
        err,
        ParseError::UnexpectedKeyword { site: FieldSite::Start, found: Keyword::Msgstr }
    ));

    let err = parse("msgid \"a\"\nmsgctxt \"c\"\nmsgstr \"b\"\n").unwrap_err();
    assert!(matches!(
        err,
        ParseError::UnexpectedKeyword { site: FieldSite::Body, found: Keyword::Msgctxt }
    ));

    let err = parse("msgid \"a\"\nmsgid_plural \"b\"\nmsgstr \"c\"\n").unwrap_err();
    assert!(matches!(
        err,
        ParseError::UnexpectedKeyword { site: FieldSite::Plural, found: Keyword::Msgstr }
    ));
}

#[test]
fn error_garbage_after_field() {
    let err = parse("msgid \"a\"\nmsgstr \"b\"\nmsgstr \"c\"\n").unwrap_err();
    assert!(matches!(err, ParseError::GarbageAfterField { plural: false, .. }));
    assert!(err.message().starts_with("Garbage after msgstr. Text: \""));
}

#[test]
fn wrong_plural_index_message() {
    let input = "msgid \"a\"\nmsgid_plural \"b\"\nmsgstr[1] \"x\"\n";
    let err = parse(input).unwrap_err();
    assert_eq!(
        err.message(),
        "Unexpected index of plural msgstr[N]. Expected index: 0, actual index: 1. Text: \"msgstr[1] \"x\"\n\"."
    );
}

#[test]
fn to_key_erases_translations() {
    let msg = PoMessage::RegularWithContext {
        msgid: "id".to_string(),
        msgctxt: "ctx".to_string(),
        msgstr: "tr".to_string(),
    };
    assert_eq!(
        msg.to_key(),
        PoMessage::RegularWithContext {
            msgid: "id".to_string(),
            msgctxt: "ctx".to_string(),
            msgstr: String::new(),
        }
    );

    let plural = PoMessage::Plural {
        msgid: "id".to_string(),
        msgid_plural: "ids".to_string(),
        msgstr: vec!["a".to_string(), "b".to_string()],
    };
    assert_eq!(
        plural.to_key(),
        PoMessage::Plural {
            msgid: "id".to_string(),
            msgid_plural: "ids".to_string(),
            msgstr: Vec::new(),
        }
    );

    let header = PoMessage::Header { msgstr: "Key: v\n".to_string() };
    assert_eq!(header.to_key(), header);
}

#[test]
fn with_key_transplants_translations() {
    let source = PoMessage::Regular { msgid: "broken".to_string(), msgstr: "tr".to_string() };
    let key = PoMessage::Regular { msgid: "good".to_string(), msgstr: String::new() };
    assert_eq!(
        source.with_key(&key),
        PoMessage::Regular { msgid: "good".to_string(), msgstr: "tr".to_string() }
    );

    // A context on either side merges field by field.
    let key_ctx = PoMessage::RegularWithContext {
        msgid: "good".to_string(),
        msgctxt: "c".to_string(),
        msgstr: String::new(),
    };
    assert_eq!(
        source.with_key(&key_ctx),
        PoMessage::RegularWithContext {
            msgid: "good".to_string(),
            msgctxt: "c".to_string(),
            msgstr: "tr".to_string(),
        }
    );

    // Families that do not match fall back to the key itself.
    let plural_key = PoMessage::Plural {
        msgid: "good".to_string(),
        msgid_plural: "goods".to_string(),
        msgstr: Vec::new(),
    };
    assert_eq!(source.with_key(&plural_key), plural_key);
}

#[test]
fn escape_string_forms() {
    assert_eq!(escape_string("plain"), "plain");
    assert_eq!(escape_string("a\nb"), "\"\n\"a\\n\"\n\"b");
    assert_eq!(escape_string("trailing\n"), "trailing\\n");
    assert_eq!(escape_string("q\"t\\r\t\r"), "q\\\"t\\\\r\\t\\r");
}
