use po_tools::message::PoMessage;
use po_tools::parser::Parser;

#[test]
fn stream_splits_records_on_blank_lines() {
    let text = "\
# A leading comment

msgid \"a\"
msgstr \"1\"

msgctxt \"c\"
msgid \"b\"
msgstr \"2\"
";
    let msgs = Parser::new(None).parse_messages_from_stream(text).unwrap();
    assert_eq!(
        msgs,
        vec![
            PoMessage::Regular { msgid: "a".to_string(), msgstr: "1".to_string() },
            PoMessage::RegularWithContext {
                msgid: "b".to_string(),
                msgctxt: "c".to_string(),
                msgstr: "2".to_string(),
            },
        ]
    );
}

#[test]
fn stream_parses_final_record_without_trailing_blank_line() {
    let text = "msgid \"a\"\nmsgstr \"1\"";
    let msgs = Parser::new(None).parse_messages_from_stream(text).unwrap();
    assert_eq!(
        msgs,
        vec![PoMessage::Regular { msgid: "a".to_string(), msgstr: "1".to_string() }]
    );
}

#[test]
fn stream_keeps_file_order_and_applies_arity() {
    let text = "\
msgid \"a\"
msgid_plural \"as\"
msgstr[0] \"x\"

msgid \"b\"
msgstr \"y\"
";
    let msgs = Parser::new(Some(2)).parse_messages_from_stream(text).unwrap();
    assert_eq!(
        msgs,
        vec![
            PoMessage::Plural {
                msgid: "a".to_string(),
                msgid_plural: "as".to_string(),
                msgstr: vec!["x".to_string(), String::new()],
            },
            PoMessage::Regular { msgid: "b".to_string(), msgstr: "y".to_string() },
        ]
    );
}

#[test]
fn stream_error_reports_line_and_record_text() {
    let text = "\
msgid \"a\"
msgstr \"1\"

msgid \"broken
";
    let err = Parser::new(None).parse_messages_from_stream(text).unwrap_err();
    // The failing record's parse is triggered at the end of the four
    // input lines.
    assert_eq!(err.line_number, 4);
    assert_eq!(err.text, "msgid \"broken");
    assert_eq!(
        err.message(),
        "Cannot parse message at line #4. Message:\n\nmsgid \"broken"
    );
}

#[test]
fn stream_aborts_at_first_bad_record() {
    let text = "\
msgid \"broken

msgid \"ok\"
msgstr \"x\"
";
    let err = Parser::new(None).parse_messages_from_stream(text).unwrap_err();
    // The first record's parse is triggered at the blank line, the
    // second of the input lines counting from zero; nothing after the
    // failure is parsed.
    assert_eq!(err.line_number, 1);
    assert_eq!(err.text, "msgid \"broken");
}

#[test]
fn stream_round_trip_with_arity() {
    let text = "\
msgid \"a\"
msgid_plural \"as\"
msgstr[0] \"x\"
msgstr[1] \"y\"
msgstr[2] \"z\"
";
    let parser = Parser::new(Some(2));
    let msgs = parser.parse_messages_from_stream(text).unwrap();
    let rendered = msgs[0].to_text();
    let again = parser.parse_messages_from_stream(&rendered).unwrap();
    assert_eq!(msgs, again);
}

#[test]
fn stream_empty_input_yields_no_records() {
    assert_eq!(Parser::new(None).parse_messages_from_stream("").unwrap(), vec![]);
    assert_eq!(
        Parser::new(None).parse_messages_from_stream("# only comments\n\n# more\n").unwrap(),
        vec![]
    );
}
