use cryptography::parser::commands::{Command, KeyValue};
use cryptography::parser::{
    parse, parse_decrypt, parse_encrypt, parse_exit, parse_help, parse_key, parse_key_value,
    parse_message, parse_select, parse_status, parse_text, parse_words_and_spaces,
};

#[test]
fn test_select() {
    assert_eq!(parse_select("select cesar").unwrap().1, Command::Select("cesar".to_string()));
}

#[test]
fn test_words_and_spaces() {
    assert_eq!(parse_words_and_spaces("hello world").unwrap().1, "hello world".to_string());
}

#[test]
fn test_parse_key() {
    assert_eq!(parse_key("key 67").unwrap().1, Command::Key(KeyValue::Integer(67_i8)));
}

#[test]
fn mod_test_encrypt() {
    assert_eq!(
        parse_encrypt("encrypt \"Hello\" with 5").unwrap().1,
        Command::Encrypt(Some((KeyValue::Integer(5), "Hello".to_string())))
    );
}

#[test]
fn test_message() {
    assert_eq!(parse_message("message \"Hello\"").unwrap().1, Command::Message("Hello".to_string()));
}

#[test]
fn test_status() {
    assert_eq!(parse_status("status").unwrap().1, Command::Status);
}

#[test]
fn test_exit() {
    assert_eq!(parse_exit("exit").unwrap().1, Command::Exit);
}

#[test]
fn test_help() {
    assert_eq!(parse_help("help").unwrap().1, Command::Help);
}

#[test]
fn key_literals_read_back() {
    assert_eq!(parse_key_value("42"), Some((String::new(), KeyValue::Integer(42))));
    assert_eq!(
        parse_key_value("\"hello\""),
        Some((String::new(), KeyValue::Text("hello".to_string())))
    );
}

#[test]
fn range_literal_reads_as_range() {
    assert_eq!(parse_key_value("3..9"), Some((String::new(), KeyValue::Range(3, 9))));
    assert_eq!(parse_key_value("3..9 x"), Some((" x".to_string(), KeyValue::Range(3, 9))));
    assert_eq!(parse_key_value("200..1"), Some((String::new(), KeyValue::Range(0, 1))));
    assert_eq!(parse_key_value("3.."), None);
    assert_eq!(parse_key_value("3.x"), Some((".x".to_string(), KeyValue::Integer(3))));
    assert_eq!(parse("key 3..9"), Command::Key(KeyValue::Range(3, 9)));
    assert_eq!(parse(" key 3..9"), Command::Empty);
}

#[test]
fn integer_key_out_of_range_reads_as_zero() {
    assert_eq!(parse_key_value("127"), Some((String::new(), KeyValue::Integer(127))));
    assert_eq!(parse_key_value("128"), Some((String::new(), KeyValue::Integer(0))));
    assert_eq!(parse_key_value("99999999999999999999"), Some((String::new(), KeyValue::Integer(0))));
    assert_eq!(parse_key_value("007"), Some((String::new(), KeyValue::Integer(7))));
}

#[test]
fn key_value_rejects_other_input() {
    assert_eq!(parse_key_value("abc"), None);
    assert_eq!(parse_key_value(""), None);
    assert_eq!(parse_key_value("\"\""), None);
    assert_eq!(parse_key_value("-5"), None);
}

#[test]
fn quoted_text_is_canonicalised() {
    assert_eq!(
        parse_text("\"hello   world\" rest"),
        Some((" rest".to_string(), "hello world".to_string()))
    );
    assert_eq!(parse_text("\"a\tb \""), Some((String::new(), "a b".to_string())));
    assert_eq!(parse_text("\" a\""), None);
    assert_eq!(parse_text("\"a"), None);
    assert_eq!(parse_text("\"\""), None);
}

#[test]
fn words_keep_what_follows() {
    assert_eq!(
        parse_words_and_spaces("ab cd!"),
        Some(("!".to_string(), "ab cd".to_string()))
    );
    assert_eq!(parse_words_and_spaces(" ab"), None);
}

#[test]
fn select_names_any_word() {
    assert_eq!(parse("select caesar"), Command::Select("caesar".to_string()));
    assert_eq!(parse("select bogus"), Command::Select("bogus".to_string()));
    assert_eq!(parse("select "), Command::Empty);
}

#[test]
fn encrypt_full_and_bare() {
    assert_eq!(
        parse("encrypt \"hello\" with 5"),
        Command::Encrypt(Some((KeyValue::Integer(5), "hello".to_string())))
    );
    assert_eq!(parse("encrypt"), Command::Encrypt(None));
    assert_eq!(parse("encrypt \"hello\""), Command::Empty);
    assert_eq!(parse("encrypt now"), Command::Empty);
    assert_eq!(
        parse("encrypt \"hello\" with \"b\""),
        Command::Encrypt(Some((KeyValue::Text("b".to_string()), "hello".to_string())))
    );
}

#[test]
fn decrypt_full_and_bare() {
    assert_eq!(
        parse_decrypt("decrypt \"ifmmp\" with \"b\"").unwrap().1,
        Command::Decrypt(Some((KeyValue::Text("b".to_string()), "ifmmp".to_string())))
    );
    assert_eq!(parse("decrypt"), Command::Decrypt(None));
    assert_eq!(parse("decrypt "), Command::Empty);
}

#[test]
fn argumentless_commands_stand_alone() {
    assert_eq!(parse("status now"), Command::Empty);
    assert_eq!(parse("exit "), Command::Empty);
    assert_eq!(parse("helpme"), Command::Empty);
    assert_eq!(parse_status("status now"), None);
    assert_eq!(parse_exit("exit"), Some((String::new(), Command::Exit)));
    assert_eq!(parse_encrypt("encrypt"), Some((String::new(), Command::Encrypt(None))));
    assert_eq!(parse_encrypt("encrypted"), None);
}

#[test]
fn keywords_and_unrecognised_lines() {
    assert_eq!(parse("status"), Command::Status);
    assert_eq!(parse("exit"), Command::Exit);
    assert_eq!(parse("help"), Command::Help);
    assert_eq!(parse("message \"a b\""), Command::Message("a b".to_string()));
    assert_eq!(parse("key \"b\""), Command::Key(KeyValue::Text("b".to_string())));
    assert_eq!(parse(""), Command::Empty);
    assert_eq!(parse("hello"), Command::Empty);
    assert_eq!(parse("Status"), Command::Empty);
}

#[test]
fn describe_keys() {
    assert_eq!(KeyValue::Integer(42).describe(), "42 [integer]");
    assert_eq!(KeyValue::Integer(-128).describe(), "-128 [integer]");
    assert_eq!(KeyValue::Range(3, 9).describe(), "3..9 [range]");
    assert_eq!(KeyValue::Text("b".to_string()).describe(), "\"b\" [string]");
    assert_eq!(KeyValue::Empty.describe(), "Empty [empty]");
}

#[test]
fn describe_commands() {
    assert_eq!(Command::Select(String::new()).describe(), "Select an algo [??]");
    assert_eq!(Command::Status.describe(), "Get the status of the current algorithm");
    assert_eq!(Command::Empty.describe(), "");
}
