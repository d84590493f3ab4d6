use po_tools::parser::Parser;

#[test]
fn parser_header() {
    let orig = "\
msgid \"\"
msgstr \"\"
\"Key: value\\n\"
\"Key2: value2\\n\"
\"Key3: value3\\n\"
";
    let chars: Vec<char> = orig.chars().chain("\n".chars()).collect();
    let parser = Parser { number_of_plural_cases: None };
    let msg = parser.parse_message(&chars[..]).expect("Message must be parsed correctly.");
    assert_eq!(orig, msg.to_text());
}

#[test]
fn simple_message() {
    let orig = "\
msgid  \"%d matching item\"
msgstr \"%d відповідний елемент\"
";
    let chars: Vec<char> = orig.chars().chain("\n".chars()).collect();
    let parser = Parser { number_of_plural_cases: None };
    let msg = parser.parse_message(&chars[..]).expect("Message must be parsed correctly.");
    assert_eq!(orig, msg.to_text());
}

#[test]
fn simple_message_with_whitespace() {
    let orig = r#"

    msgid ""
    "\n"
    "The minimum length for passwords consisting of characters from two classes\n"
    "that don't meet requirements for passphrases: %s."
    msgstr ""
    "\n"
    "Мінімальна довжина паролів, які складаються з символів двох класів\n"
    "та не відповідають вимогам до парольних фраз: %s."
"#;

    let expected = r#"msgid  ""
"\n"
"The minimum length for passwords consisting of characters from two classes\n"
"that don't meet requirements for passphrases: %s."
msgstr ""
"\n"
"Мінімальна довжина паролів, які складаються з символів двох класів\n"
"та не відповідають вимогам до парольних фраз: %s."
"#;
    let chars: Vec<char> = orig.chars().chain("\n".chars()).collect();
    let parser = Parser { number_of_plural_cases: None };
    let msg = parser.parse_message(&chars[..]).expect("Message must be parsed correctly.");
    assert_eq!(expected, msg.to_text());
}

#[test]
fn simple_message_with_context() {
    let orig = "\
msgctxt \"listbox\"
msgid  \"%d matching item\"
msgstr \"%d відповідний елемент\"
";
    let chars: Vec<char> = orig.chars().chain("\n".chars()).collect();
    let parser = Parser { number_of_plural_cases: None };
    let msg = parser.parse_message(&chars[..]).expect("Message must be parsed correctly.");
    assert_eq!(orig, msg.to_text());
}

#[test]
fn plural_message() {
    let orig = "\
msgid \"%d matching item\"
msgid_plural \"%d matching items\"
msgstr[0] \"%d відповідний елемент\"
msgstr[1] \"%d відповідні елементи\"
msgstr[2] \"%d відповідних елементів\"
";
    let chars: Vec<char> = orig.chars().chain("\n".chars()).collect();
    let parser = Parser { number_of_plural_cases: None };
    let msg = parser.parse_message(&chars[..]).expect("Message must be parsed correctly.");
    assert_eq!(orig, msg.to_text());
}

#[test]
fn plural_message_with_context() {
    let orig = "\
msgctxt \"listbox\"
msgid \"%d matching item\"
msgid_plural \"%d matching items\"
msgstr[0] \"%d відповідний елемент\"
msgstr[1] \"%d відповідні елементи\"
msgstr[2] \"%d відповідних елементів\"
";
    let chars: Vec<char> = orig.chars().chain("\n".chars()).collect();
    let parser = Parser { number_of_plural_cases: None };
    let msg = parser.parse_message(&chars[..]).expect("Message must be parsed correctly.");
    assert_eq!(orig, msg.to_text());
}

#[test]
fn simple_multiline_message() {
    let orig = "\
msgid  \"foo\"
msgstr \"\"
\"bar\\n\"
\"baz\\n\"
";
    let chars: Vec<char> = orig.chars().chain("\n".chars()).collect();
    let parser = Parser { number_of_plural_cases: None };
    let msg = parser.parse_message(&chars[..]).expect("Message must be parsed correctly.");
    assert_eq!(orig, msg.to_text());
}

#[test]
fn simple_singleline_message_with_endline() {
    let orig = r#"msgid  "Only one of -s, -g, -r, or -l allowed\n"
msgstr "Дозволено лише одне з -s, -g, -r або -l\n"
"#;
    let chars: Vec<char> = orig.chars().chain("\n".chars()).collect();
    let parser = Parser { number_of_plural_cases: None };
    let msg = parser.parse_message(&chars[..]).expect("Message must be parsed correctly.");
    assert_eq!(orig, msg.to_text());
}

#[test]
fn simple_message_with_comments() {
    let orig = "\
# Foo
msgid \"foo\"
# Bar
msgstr \"\"
\"bar\\n\"
\"baz\\n\"
# Baz
";
    let expected = "\
msgid  \"foo\"
msgstr \"\"
\"bar\\n\"
\"baz\\n\"
";
    let chars: Vec<char> = orig.chars().chain("\n".chars()).collect();
    let parser = Parser { number_of_plural_cases: None };
    let msg = parser.parse_message(&chars[..]).expect("Message must be parsed correctly.");
    assert_eq!(expected, msg.to_text());
}

#[test]
fn no_message_error() {
    let orig = "\
# Foo
";
    let expected_err = "Unexpected end of text. Expected: msgid, msgstr, msgid_plural, msgstr[N].";

    let chars: Vec<char> = orig.chars().chain("\n".chars()).collect();
    let parser = Parser { number_of_plural_cases: None };
    let err = parser.parse_message(&chars[..]).unwrap_err();
    assert_eq!(expected_err, err.message());
}
