use po_tools::message::PoMessage;
use po_tools::parser::Parser;
use po_tools::symbols::check_symbols;
use po_tools::symbols::strip_non_symbols;
use po_tools::symbols::validate_message;

#[test]
fn command_check_symbols_header() {
    let parser = Parser::new(None);

    let message = parser
        .parse_message_from_str(
            r#"
msgid "B<%man_recode%> B<-t> I<to-code> {\\|B<--suffix=>I<suffix\\/>\\||\\|B<--in-place>\\|} [\\|B<-dqhV>\\|] [\\|I<filename>\\|]"
msgstr "B<%man_recode%> B<-t> I<в-кодування> {\\|B<--suffix=>I<суфікс\\/>\\||\\|B<--in-place>\\|} [\\|B<-dqhV>\\|] [\\|I<імʼя_файлу>\\|]"
"#,
        )
        .unwrap();

    let result = check_symbols(&message);

    assert_eq!(result, Some("# Warning: Incorrect symbols:\n# msgid:  <%_%><-><->{\\|<--=><\\/>\\||\\|<--->\\|}[\\|<->\\|][\\|<>\\|]\n# msgstr: <%_%><-><->{\\|<--=><\\/>\\||\\|<--->\\|}[\\|<->\\|][\\|<_>\\|]\n".into()));
}

#[test]
fn strip_non_symbols_keeps_special_characters() {
    assert_eq!(strip_non_symbols("a1 ,b%s-c"), "%-");
    assert_eq!(strip_non_symbols("plain words only"), "");
}

#[test]
fn check_symbols_passes_header_and_matching_records() {
    let header = PoMessage::Header { msgstr: "Key: value\n".to_string() };
    assert_eq!(check_symbols(&header), None);

    let ok = PoMessage::Regular {
        msgid: "%d item".to_string(),
        msgstr: "%d елемент".to_string(),
    };
    assert_eq!(check_symbols(&ok), None);
    assert_eq!(validate_message(&ok), "");
}

#[test]
fn check_symbols_flags_first_mismatching_plural_slot() {
    let msg = PoMessage::Plural {
        msgid: "%d item".to_string(),
        msgid_plural: "%d items".to_string(),
        msgstr: vec!["%d a".to_string(), "d b".to_string()],
    };
    let warning = check_symbols(&msg).unwrap();
    assert_eq!(warning, "# Warning: Incorrect symbols:\n# msgid:  %\n# msgstr: \n");
    assert_eq!(validate_message(&msg), warning);
}
