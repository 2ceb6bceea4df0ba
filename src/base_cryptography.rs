//! The cipher state: which algorithm is selected, with its key and message.
use vstd::prelude::*;
use crate::cesar::{caesar_text, Cesar};
use crate::parser::commands::{key_description, KeyValue, KeyValueView};
use crate::tools::{int_text, push_decimal};
use crate::vigenere::{inverse_letters, vigenere_text, Vigenere};

verus! {

/// Marker for the types that serve as cipher keys: values that can be added.
pub trait Key: std::ops::Add + Sized {

}

/// Marker for the types that ciphers work on.
pub trait Cipher {

}

#[derive(PartialEq, Eq, Debug, Clone)]
pub enum Algo {
    Cesar(Cesar),
    Vigenere(Vigenere),
    Empty,
    Exit,
}

/// Mathematical model of the cipher state: each cipher with its key and message.
pub enum AlgoView {
    Cesar(i8, Seq<char>),
    Vigenere(Seq<char>, Seq<char>),
    Empty,
    Exit,
}

impl View for Algo {
    type V = AlgoView;

    open spec fn view(&self) -> AlgoView {
        match self {
            Algo::Cesar(c) => AlgoView::Cesar(c.key, c.message@),
            Algo::Vigenere(v) => AlgoView::Vigenere(v.key@, v.message@),
            Algo::Empty => AlgoView::Empty,
            Algo::Exit => AlgoView::Exit,
        }
    }
}

/// A cipher, Caesar or Vigenere, is selected.
pub open spec fn is_cipher(a: AlgoView) -> bool {
    a is Cesar || a is Vigenere
}

/// The kind of key that the selected cipher takes: an integer for Caesar, text for Vigenere.
pub open spec fn key_fits(a: AlgoView, k: KeyValueView) -> bool {
    (a is Cesar && k is Integer) || (a is Vigenere && k is Text)
}

/// The state that a known algorithm name starts in: a zero key and an empty message.
pub open spec fn algo_named(name: Seq<char>) -> AlgoView {
    if name == "caesar"@ {
        AlgoView::Cesar(0, Seq::empty())
    } else if name == "vigenere"@ {
        AlgoView::Vigenere(Seq::empty(), Seq::empty())
    } else {
        AlgoView::Empty
    }
}

/// The state and its fields, written the way Rust's derived `Debug` writes plain text.
pub open spec fn algo_debug(a: AlgoView) -> Seq<char> {
    match a {
        AlgoView::Cesar(k, m) => "Cesar(Cesar { key: "@ + int_text(k as int) + ", message: \""@ + m
            + "\" })"@,
        AlgoView::Vigenere(k, m) => "Vigenere(Vigenere { key: \""@ + k + "\", message: \""@ + m
            + "\" })"@,
        AlgoView::Empty => "Empty"@,
        AlgoView::Exit => "Exit"@,
    }
}

/// Reply to a key that the selected algorithm does not take.
pub open spec fn mismatch_text(a: AlgoView, k: KeyValueView) -> Seq<char> {
    "The algorithm "@ + algo_debug(a) + " don't work with a key "@ + key_description(k)
        + ". hint: try to change the key type"@
}

/// Reply to a request on the stored key and message when no cipher is selected.
pub open spec fn no_algo_text() -> Seq<char> {
    "The algorithm doesn't exist"@
}

/// `msg` encrypted with `k` by the selected cipher, or the mismatch reply.
pub open spec fn encrypt_with(a: AlgoView, msg: Seq<char>, k: KeyValueView) -> Seq<char> {
    match (a, k) {
        (AlgoView::Cesar(_, _), KeyValueView::Integer(i)) => caesar_text(msg, i as int),
        (AlgoView::Vigenere(_, _), KeyValueView::Text(t)) => vigenere_text(msg, t),
        _ => mismatch_text(a, k),
    }
}

/// `msg` decrypted with `k` by the selected cipher, or the mismatch reply.
pub open spec fn decrypt_with(a: AlgoView, msg: Seq<char>, k: KeyValueView) -> Seq<char> {
    match (a, k) {
        (AlgoView::Cesar(_, _), KeyValueView::Integer(i)) => caesar_text(msg, -(i as int)),
        (AlgoView::Vigenere(_, _), KeyValueView::Text(t)) => vigenere_text(msg, inverse_letters(t)),
        _ => mismatch_text(a, k),
    }
}

/// The stored message encrypted with the stored key.
pub open spec fn encrypt_stored(a: AlgoView) -> Seq<char> {
    match a {
        AlgoView::Cesar(k, m) => caesar_text(m, k as int),
        AlgoView::Vigenere(k, m) => vigenere_text(m, k),
        _ => no_algo_text(),
    }
}

/// The stored message decrypted with the stored key.
pub open spec fn decrypt_stored(a: AlgoView) -> Seq<char> {
    match a {
        AlgoView::Cesar(k, m) => caesar_text(m, -(k as int)),
        AlgoView::Vigenere(k, m) => vigenere_text(m, inverse_letters(k)),
        _ => no_algo_text(),
    }
}

/// The state with its key replaced, where the key fits; else the state as it was.
pub open spec fn with_key(a: AlgoView, k: KeyValueView) -> AlgoView {
    match (a, k) {
        (AlgoView::Cesar(_, m), KeyValueView::Integer(i)) => AlgoView::Cesar(i, m),
        (AlgoView::Vigenere(_, m), KeyValueView::Text(t)) => AlgoView::Vigenere(t, m),
        _ => a,
    }
}

/// The state with its message replaced, where a cipher is selected; else the state as it was.
pub open spec fn with_message(a: AlgoView, m: Seq<char>) -> AlgoView {
    match a {
        AlgoView::Cesar(k, _) => AlgoView::Cesar(k, m),
        AlgoView::Vigenere(k, _) => AlgoView::Vigenere(k, m),
        _ => a,
    }
}

/// The selected cipher's key, as a key value.
pub open spec fn key_of(a: AlgoView) -> KeyValueView {
    match a {
        AlgoView::Cesar(k, _) => KeyValueView::Integer(k),
        AlgoView::Vigenere(k, _) => KeyValueView::Text(k),
        _ => KeyValueView::Empty,
    }
}

/// The selected cipher's message; empty when none is selected.
pub open spec fn message_of(a: AlgoView) -> Seq<char> {
    match a {
        AlgoView::Cesar(_, m) => m,
        AlgoView::Vigenere(_, m) => m,
        _ => Seq::empty(),
    }
}

/// Identifier of the selected algorithm.
pub open spec fn algo_name(a: AlgoView) -> Seq<char> {
    match a {
        AlgoView::Cesar(_, _) => "caesar"@,
        AlgoView::Vigenere(_, _) => "vigenere"@,
        _ => "[not defined]"@,
    }
}

/// A key as shown in the status line: the number, the text, or nothing.
pub open spec fn key_text(k: KeyValueView) -> Seq<char> {
    match k {
        KeyValueView::Integer(i) => int_text(i as int),
        KeyValueView::Text(t) => t,
        KeyValueView::Range(b, e) => int_text(b as int) + ".."@ + int_text(e as int),
        KeyValueView::Empty => Seq::empty(),
    }
}

/// One line with the algorithm, its key and its message.
pub open spec fn status_text(a: AlgoView) -> Seq<char> {
    "algo: "@ + algo_name(a) + " | key: "@ + key_text(key_of(a)) + " | message: "@ + message_of(a)
}

/// The prompt that names the selected cipher.
pub open spec fn prompt_text(a: AlgoView) -> Seq<char> {
    match a {
        AlgoView::Cesar(_, _) => ":[Caesar]:> "@,
        AlgoView::Vigenere(_, _) => ":[Vigenere]:> "@,
        _ => ":[?]:> "@,
    }
}

fn fresh_cesar() -> (r: Cesar)
    ensures
        r.key == 0,
        r.message@ == Seq::<char>::empty(),
{
    Cesar { key: 0, message: String::new() }
}

fn fresh_vigenere() -> (r: Vigenere)
    ensures
        r.key@ == Seq::<char>::empty(),
        r.message@ == Seq::<char>::empty(),
{
    Vigenere { key: String::new(), message: String::new() }
}

impl Algo {
    /// A fresh Caesar state for a Caesar state; `Empty` for any other.
    pub fn from(algo: Algo) -> (r: Algo)
        ensures
            r@ == (if algo@ is Cesar {
                AlgoView::Cesar(0, Seq::empty())
            } else {
                AlgoView::Empty
            }),
    {
        match algo {
            Algo::Cesar(_) => Algo::Cesar(fresh_cesar()),
            _ => Algo::Empty,
        }
    }

    /// The state that the algorithm `algo` starts in; `Empty` for an unknown name.
    pub fn new(algo: &str) -> (r: Algo)
        ensures
            r@ == algo_named(algo@),
    {
        let name = String::from_str(algo);
        if name == String::from_str("caesar") {
            Algo::Cesar(fresh_cesar())
        } else if name == String::from_str("vigenere") {
            Algo::Vigenere(fresh_vigenere())
        } else {
            Algo::Empty
        }
    }

    /// A copy of the state.
    pub fn duplicate(&self) -> (r: Algo)
        ensures
            r == *self,
    {
        match self {
            Algo::Cesar(c) => Algo::Cesar(Cesar { key: c.key, message: c.message.clone() }),
            Algo::Vigenere(v) => Algo::Vigenere(
                Vigenere { key: v.key.clone(), message: v.message.clone() },
            ),
            Algo::Empty => Algo::Empty,
            Algo::Exit => Algo::Exit,
        }
    }

    /// The state and its fields, as the mismatch reply shows them.
    pub fn debug_text(&self) -> (r: String)
        ensures
            r@ == algo_debug(self@),
    {
        match self {
            Algo::Cesar(c) => {
                let mut r = String::from_str("Cesar(Cesar { key: ");
                push_decimal(&mut r, c.key);
                r.append(", message: \"");
                r.append(c.message.as_str());
                r.append("\" })");
                r
            },
            Algo::Vigenere(v) => {
                let mut r = String::from_str("Vigenere(Vigenere { key: \"");
                r.append(v.key.as_str());
                r.append("\", message: \"");
                r.append(v.message.as_str());
                r.append("\" })");
                r
            },
            Algo::Empty => String::from_str("Empty"),
            Algo::Exit => String::from_str("Exit"),
        }
    }

    fn mismatch(&self, key: &KeyValue) -> (r: String)
        ensures
            r@ == mismatch_text(self@, key@),
    {
        let mut r = String::from_str("The algorithm ");
        let d = self.debug_text();
        r.append(d.as_str());
        r.append(" don't work with a key ");
        let k = key.describe();
        r.append(k.as_str());
        r.append(". hint: try to change the key type");
        r
    }

    /// `msg` encrypted with `key`, where the selected cipher takes that kind of key.
    pub fn encrypt(&self, msg: &str, key: KeyValue) -> (r: String)
        ensures
            r@ == encrypt_with(self@, msg@, key@),
    {
        match (self, &key) {
            (Algo::Cesar(c), KeyValue::Integer(i)) => c.encrypt(msg, *i),
            (Algo::Vigenere(v), KeyValue::Text(s)) => v.encrypt(msg, s.as_str()),
            _ => self.mismatch(&key),
        }
    }

    /// The stored message encrypted with the stored key.
    pub fn encrypt2(&self) -> (r: String)
        ensures
            r@ == encrypt_stored(self@),
    {
        match self {
            Algo::Cesar(c) => c.encrypt2(),
            Algo::Vigenere(v) => v.encrypt2(),
            _ => String::from_str("The algorithm doesn't exist"),
        }
    }

    /// `msg` decrypted with `key`, where the selected cipher takes that kind of key.
    pub fn decrypt(&self, msg: &str, key: KeyValue) -> (r: String)
        ensures
            r@ == decrypt_with(self@, msg@, key@),
    {
        match (self, &key) {
            (Algo::Cesar(c), KeyValue::Integer(i)) => c.decrypt(msg, *i),
            (Algo::Vigenere(v), KeyValue::Text(s)) => v.decrypt(msg, s.as_str()),
            _ => self.mismatch(&key),
        }
    }

    /// The stored message decrypted with the stored key.
    pub fn decrypt2(&self) -> (r: String)
        ensures
            r@ == decrypt_stored(self@),
    {
        match self {
            Algo::Cesar(c) => c.decrypt2(),
            Algo::Vigenere(v) => v.decrypt2(),
            _ => String::from_str("The algorithm doesn't exist"),
        }
    }

    pub fn set_key(&self, key: KeyValue) -> (r: Algo)
        ensures
            r@ == with_key(self@, key@),
    {
        match (self, &key) {
            (Algo::Cesar(c), KeyValue::Integer(i)) => Algo::Cesar(c.set_key(*i)),
            (Algo::Vigenere(v), KeyValue::Text(s)) => Algo::Vigenere(v.set_key(s.as_str())),
            _ => self.duplicate(),
        }
    }

    pub fn get_key(&self) -> (r: KeyValue)
        ensures
            r@ == key_of(self@),
    {
        match self {
            Algo::Cesar(c) => KeyValue::Integer(c.get_key()),
            Algo::Vigenere(v) => KeyValue::Text(v.get_key()),
            _ => KeyValue::Empty,
        }
    }

    pub fn get_prompt(&self) -> (r: String)
        ensures
            r@ == prompt_text(self@),
    {
        match self {
            Algo::Cesar(_) => String::from_str(":[Caesar]:> "),
            Algo::Vigenere(_) => String::from_str(":[Vigenere]:> "),
            _ => String::from_str(":[?]:> "),
        }
    }

    pub fn set_message(&self, message: &str) -> (r: Algo)
        ensures
            r@ == with_message(self@, message@),
    {
        match self {
            Algo::Cesar(c) => Algo::Cesar(c.set_message(message)),
            Algo::Vigenere(v) => Algo::Vigenere(v.set_message(message)),
            _ => self.duplicate(),
        }
    }

    pub fn get_message(&self) -> (r: String)
        ensures
            r@ == message_of(self@),
    {
        match self {
            Algo::Cesar(c) => c.get_message(),
            Algo::Vigenere(v) => v.get_message(),
            _ => String::new(),
        }
    }

    pub fn get_algo(&self) -> (r: String)
        ensures
            r@ == algo_name(self@),
    {
        match self {
            Algo::Cesar(_) => String::from_str("caesar"),
            Algo::Vigenere(_) => String::from_str("vigenere"),
            Algo::Empty => String::from_str("[not defined]"),
            Algo::Exit => String::from_str("[not defined]"),
        }
    }

    pub fn get_status(&self) -> (r: String)
        ensures
            r@ == status_text(self@),
    {
        let mut r = String::from_str("algo: ");
        let name = self.get_algo();
        r.append(name.as_str());
        r.append(" | key: ");
        match self.get_key() {
            KeyValue::Integer(i) => push_decimal(&mut r, i),
            KeyValue::Text(t) => r.append(t.as_str()),
            KeyValue::Range(b, e) => {
                push_decimal(&mut r, b);
                r.append("..");
                push_decimal(&mut r, e);
            },
            KeyValue::Empty => {},
        }
        r.append(" | message: ");
        let m = self.get_message();
        r.append(m.as_str());
        proof {
            assert(r@ =~= status_text(self@));
        }
        r
    }

    /// The terminal state has been reached.
    pub fn is_exit(&self) -> (r: bool)
        ensures
            r == (self@ is Exit),
    {
        match self {
            Algo::Exit => true,
            _ => false,
        }
    }

    pub fn list_algo() -> (r: String)
        ensures
            r@ == "??"@,
    {
        String::from_str("??")
    }
}

} // verus!
