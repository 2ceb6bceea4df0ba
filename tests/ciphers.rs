use cryptography::cesar::Cesar;
use cryptography::tools::{get_alphabet, letter_to_number, number_to_letter};
use cryptography::vigenere::{inverse_key, Vigenere};

#[test]
fn test() {
    assert_eq!(letter_to_number('a'), 0);
    assert_eq!(letter_to_number('z'), 25);
}

#[test]
fn test_number_to_letter() {
    assert_eq!(number_to_letter(0), 'a');
}

#[test]
fn cesar_test_encrypt() {
    assert_eq!(Cesar { key: 2, message: "a".to_string() }.encrypt2(), "c");
}

#[test]
fn test_decrypt() {
    assert_eq!(Cesar { key: 2, message: "c".to_string() }.decrypt2(), "a");
}

#[test]
fn test_vigenere_encrypt() {
    let v = Vigenere { message: "hello".to_string().to_string(), key: "b".to_string() };
    assert_eq!(v.encrypt2(), "ifmmp".to_string());
}

#[test]
fn test_vigenere_encrypt2() {
    let v = Vigenere { message: "hello".to_string(), key: "bc".to_string() };
    assert_eq!(v.encrypt2(), "igmnp".to_string());
}

#[test]
fn test_vigenere_decrypt() {
    let v = Vigenere { message: "ifmmp".to_string(), key: "b".to_string() };
    assert_eq!(v.decrypt2(), "hello".to_string());
}

#[test]
fn test_inverse_key() {
    assert_eq!(inverse_key("a"), "a".to_string());
}

#[test]
fn inverse_key_of_letters() {
    assert_eq!(inverse_key("bz"), "zb".to_string());
}

#[test]
fn letters_outside_the_alphabet() {
    assert_eq!(letter_to_number('A'), -1);
    assert_eq!(letter_to_number(' '), -1);
    assert_eq!(number_to_letter(25), 'z');
    assert_eq!(number_to_letter(26), ' ');
    assert_eq!(number_to_letter(-1), ' ');
}

#[test]
fn alphabet_in_order() {
    let a = get_alphabet();
    assert_eq!(a.len(), 26);
    assert_eq!(a[0], ('a', 0));
    assert_eq!(a[7], ('h', 7));
    assert_eq!(a[25], ('z', 25));
}

#[test]
fn caesar_wraps_around_the_alphabet() {
    let c = Cesar { key: 0, message: String::new() };
    assert_eq!(c.encrypt("xyz", 3), "abc");
    assert_eq!(c.decrypt("abc", 3), "xyz");
    assert_eq!(c.encrypt("abc", -1), "zab");
}

#[test]
fn caesar_extreme_keys() {
    let c = Cesar { key: -128, message: "hello".to_string() };
    let e = c.encrypt2();
    assert_eq!(e, "jgnnq");
    let back = Cesar { key: -128, message: e }.decrypt2();
    assert_eq!(back, "hello");
    assert_eq!(c.encrypt("a", 127), "x");
}

#[test]
fn caesar_round_trip_on_letters() {
    let c = Cesar { key: 0, message: String::new() };
    let e = c.encrypt("thequickbrownfox", 11);
    assert_eq!(e, "espbftnvmczhyqzi");
    assert_eq!(c.decrypt(&e, 11), "thequickbrownfox");
}

#[test]
fn caesar_keeps_key_and_message_apart() {
    let c = Cesar { key: 1, message: "a".to_string() };
    let k = c.set_key(4);
    assert_eq!(k.get_key(), 4);
    assert_eq!(k.get_message(), "a");
    let m = k.set_message("zz");
    assert_eq!(m.get_key(), 4);
    assert_eq!(m.get_message(), "zz");
}

#[test]
fn vigenere_round_trip() {
    let v = Vigenere { key: String::new(), message: String::new() };
    let e = v.encrypt("attackatdawn", "lemon");
    assert_eq!(e, "lxfopvefrnhr");
    assert_eq!(v.decrypt(&e, "lemon"), "attackatdawn");
}

#[test]
fn vigenere_empty_key_leaves_letters() {
    let v = Vigenere { key: String::new(), message: "hello".to_string() };
    assert_eq!(v.encrypt2(), "hello");
    assert_eq!(v.decrypt2(), "hello");
}

#[test]
fn vigenere_setters() {
    let v = Vigenere { key: "a".to_string(), message: "x".to_string() };
    let k = v.set_key("bc");
    assert_eq!(k.get_key(), "bc");
    assert_eq!(k.get_message(), "x");
    let m = k.set_message("hello");
    assert_eq!(m.get_key(), "bc");
    assert_eq!(m.get_message(), "hello");
}
