use cryptography::base_cryptography::Algo;
use cryptography::cesar::Cesar;
use cryptography::console::{apply, eval, help_message, run_session, select_algo};
use cryptography::parser::commands::{Command, KeyValue};
use cryptography::parser::parse;
use cryptography::vigenere::Vigenere;

fn feed(lines: &[&str]) -> (Algo, Vec<String>) {
    let mut state = Algo::Empty;
    let mut replies = Vec::new();
    for line in lines {
        let (next, reply) = eval(line, &state);
        state = next;
        replies.push(reply);
    }
    (state, replies)
}

#[test]
fn bare_encrypt_uses_stored_key_and_message() {
    assert_eq!(parse("encrypt"), Command::Encrypt(None));
    let state = Algo::Cesar(Cesar { key: 2, message: "a".to_string() });
    let (next, reply) = apply(state.clone(), Command::Encrypt(None));
    assert_eq!(reply, "c");
    assert_eq!(next, state);
}

#[test]
fn key_without_cipher_is_ignored() {
    let (next, reply) = apply(Algo::Empty, Command::Key(KeyValue::Text("b".to_string())));
    assert_eq!(next, Algo::Empty);
    assert_eq!(reply, "");
    assert_ne!(reply, "Key value set");
}

#[test]
fn message_without_cipher_is_ignored() {
    let (next, reply) = apply(Algo::Empty, Command::Message("a".to_string()));
    assert_eq!(next, Algo::Empty);
    assert_eq!(reply, "");
}

#[test]
fn text_key_against_caesar_is_reported() {
    let (state, _) = feed(&["select caesar"]);
    let (next, reply) = apply(
        state.clone(),
        Command::Encrypt(Some((KeyValue::Text("b".to_string()), "hello".to_string()))),
    );
    assert_eq!(next, state);
    assert_eq!(
        reply,
        "The algorithm Cesar(Cesar { key: 0, message: \"\" }) don't work with a key \"b\" [string]. hint: try to change the key type"
    );
}

#[test]
fn range_key_fits_no_cipher() {
    let (state, _) = feed(&["select caesar"]);
    let (next, reply) = eval("encrypt \"a\" with 3..9", &state);
    assert_eq!(next, state);
    assert_eq!(
        reply,
        "The algorithm Cesar(Cesar { key: 0, message: \"\" }) don't work with a key 3..9 [range]. hint: try to change the key type"
    );
}

#[test]
fn integer_key_against_vigenere_is_reported() {
    let state = Algo::Vigenere(Vigenere { key: "b".to_string(), message: "x".to_string() });
    let (next, reply) = apply(
        state.clone(),
        Command::Decrypt(Some((KeyValue::Integer(42), "hello".to_string()))),
    );
    assert_eq!(next, state);
    assert_eq!(
        reply,
        "The algorithm Vigenere(Vigenere { key: \"b\", message: \"x\" }) don't work with a key 42 [integer]. hint: try to change the key type"
    );
    let (kept, reply) = apply(state.clone(), Command::Key(KeyValue::Range(3, 9)));
    assert_eq!(kept, state);
    assert_eq!(reply, "");
}

#[test]
fn status_twice_gives_the_same_reply() {
    let (state, _) = feed(&["select caesar", "key 2", "message \"a\""]);
    let (s1, r1) = apply(state.clone(), Command::Status);
    let (s2, r2) = apply(s1.clone(), Command::Status);
    assert_eq!(r1, "algo: caesar | key: 2 | message: a");
    assert_eq!(r1, r2);
    assert_eq!(s1, state);
    assert_eq!(s2, state);
}

#[test]
fn caesar_session() {
    let (state, replies) = feed(&["select caesar", "key 2", "message \"a\"", "encrypt"]);
    assert_eq!(replies, vec!["Caesar algorithm selected.", "Key value set", "Message set", "c"]);
    assert_eq!(state, Algo::Cesar(Cesar { key: 2, message: "a".to_string() }));
    let (_, back) = eval("decrypt \"c\" with 2", &state);
    assert_eq!(back, "a");
    let (stored, _) = eval("message \"c\"", &state);
    let (_, back) = eval("decrypt", &stored);
    assert_eq!(back, "a");
    // The stored message is still the plain text, so a bare decrypt shifts it back.
    let (_, shifted) = eval("decrypt", &state);
    assert_eq!(shifted, "y");
}

#[test]
fn vigenere_session() {
    let (state, replies) = feed(&["select vigenere", "key \"b\"", "message \"hello\"", "encrypt"]);
    assert_eq!(replies[3], "ifmmp");
    assert_eq!(
        state,
        Algo::Vigenere(Vigenere { key: "b".to_string(), message: "hello".to_string() })
    );
    let (_, status) = eval("status", &state);
    assert_eq!(status, "algo: vigenere | key: b | message: hello");
}

#[test]
fn explicit_key_and_message() {
    let (state, _) = feed(&["select caesar"]);
    let (_, reply) = eval("encrypt \"abc\" with 1", &state);
    assert_eq!(reply, "bcd");
    let (_, reply) = eval("decrypt \"bcd\" with 1", &state);
    assert_eq!(reply, "abc");
    let (state, _) = feed(&["select vigenere"]);
    let (_, reply) = eval("decrypt \"ifmmp\" with \"b\"", &state);
    assert_eq!(reply, "hello");
}

#[test]
fn exit_from_any_state() {
    let states = vec![
        Algo::Empty,
        Algo::Exit,
        Algo::Cesar(Cesar { key: 3, message: "x".to_string() }),
        Algo::Vigenere(Vigenere { key: "k".to_string(), message: "y".to_string() }),
    ];
    for s in states {
        let (next, reply) = eval("exit", &s);
        assert_eq!(next, Algo::Exit);
        assert_eq!(reply, "exit");
        assert!(next.is_exit());
    }
}

#[test]
fn session_stops_after_exit() {
    let lines: Vec<String> = vec![
        "select caesar".to_string(),
        "exit".to_string(),
        "select vigenere".to_string(),
        "status".to_string(),
    ];
    let (state, replies) = run_session(&lines);
    assert_eq!(state, Algo::Exit);
    assert_eq!(replies, vec!["Caesar algorithm selected.".to_string(), "exit".to_string()]);
}

#[test]
fn session_without_exit_reads_every_line() {
    let lines: Vec<String> = vec!["select caesar".to_string(), "key 1".to_string(), "bogus".to_string()];
    let (state, replies) = run_session(&lines);
    assert_eq!(state, Algo::Cesar(Cesar { key: 1, message: String::new() }));
    assert_eq!(replies.len(), 3);
    assert_eq!(replies[2], "");
}

#[test]
fn unknown_algorithm_keeps_state() {
    let state = Algo::Cesar(Cesar { key: 5, message: "m".to_string() });
    let (next, reply) = select_algo("bogus", &state);
    assert_eq!(next, state);
    assert_eq!(reply, " ");
    let (next, reply) = select_algo("cesar", &Algo::Empty);
    assert_eq!(next, Algo::Empty);
    assert_eq!(reply, " ");
}

#[test]
fn select_starts_afresh() {
    let state = Algo::Cesar(Cesar { key: 5, message: "m".to_string() });
    let (next, reply) = select_algo("vigenere", &state);
    assert_eq!(next, Algo::Vigenere(Vigenere { key: String::new(), message: String::new() }));
    assert_eq!(reply, "Vigenere algorithm selected.");
    let (next, _) = eval("select caesar", &state);
    assert_eq!(next, Algo::Cesar(Cesar { key: 0, message: String::new() }));
}

#[test]
fn help_and_unrecognised() {
    let (next, reply) = help_message("", &Algo::Empty);
    assert_eq!(next, Algo::Empty);
    assert_eq!(reply, "select: select an algo\nencrypt\t key message status exit help");
    let (next, reply) = eval("what", &Algo::Empty);
    assert_eq!(next, Algo::Empty);
    assert_eq!(reply, "");
}

#[test]
fn no_cipher_replies() {
    assert_eq!(Algo::Empty.encrypt2(), "The algorithm doesn't exist");
    assert_eq!(Algo::Empty.decrypt2(), "The algorithm doesn't exist");
    assert_eq!(
        Algo::Empty.encrypt("a", KeyValue::Integer(1)),
        "The algorithm Empty don't work with a key 1 [integer]. hint: try to change the key type"
    );
    assert_eq!(Algo::Empty.get_status(), "algo: [not defined] | key:  | message: ");
}

#[test]
fn algo_accessors() {
    let c = Algo::new("caesar");
    assert_eq!(c, Algo::Cesar(Cesar { key: 0, message: String::new() }));
    assert_eq!(Algo::new("vigenere"), Algo::Vigenere(Vigenere { key: String::new(), message: String::new() }));
    assert_eq!(Algo::new("rot13"), Algo::Empty);
    assert_eq!(c.get_prompt(), ":[Caesar]:> ");
    assert_eq!(Algo::Empty.get_prompt(), ":[?]:> ");
    assert_eq!(Algo::new("vigenere").get_prompt(), ":[Vigenere]:> ");
    assert_eq!(c.get_algo(), "caesar");
    assert_eq!(Algo::Exit.get_algo(), "[not defined]");
    assert_eq!(Algo::list_algo(), "??");
    let k = c.set_key(KeyValue::Integer(7));
    assert_eq!(k.get_key(), KeyValue::Integer(7));
    let m = k.set_message("hi");
    assert_eq!(m.get_message(), "hi");
    assert_eq!(m.get_key(), KeyValue::Integer(7));
    assert_eq!(Algo::Empty.set_message("hi"), Algo::Empty);
    assert_eq!(Algo::Empty.get_key(), KeyValue::Empty);
    assert_eq!(Algo::from(m.clone()), Algo::Cesar(Cesar { key: 0, message: String::new() }));
    assert_eq!(Algo::from(Algo::Exit), Algo::Empty);
    assert_eq!(m.duplicate(), m);
    assert_eq!(
        m.debug_text(),
        "Cesar(Cesar { key: 7, message: \"hi\" })"
    );
    assert_eq!(m.debug_text(), format!("{:?}", m));
}
