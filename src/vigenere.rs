//! The Vigenere cipher: the letters of a key, repeated, give the shift of each character.
use vstd::prelude::*;
use vstd::arithmetic::div_mod::lemma_mod_multiples_vanish;
use crate::cesar::{shift, shift_number};
use crate::tools::{
    chars_of, is_lowercase_text, letter_at, letter_to_number, letter_value,
    lemma_letter_round_trip, number_to_letter, push_char,
};

verus! {

/// Shift applied at position `i`: the key's letters in turn; no shift for an empty key.
pub open spec fn key_shift(key: Seq<char>, i: int) -> int {
    if key.len() == 0 {
        0
    } else {
        letter_value(key[i % key.len() as int])
    }
}

/// Every character of `s` moved by the key letter that falls on its position.
pub open spec fn vigenere_text(s: Seq<char>, key: Seq<char>) -> Seq<char> {
    Seq::new(s.len(), |i: int| letter_at(shift(letter_value(s[i]), key_shift(key, i))))
}

/// Each key letter replaced by the one that undoes its shift.
pub open spec fn inverse_letters(key: Seq<char>) -> Seq<char> {
    Seq::new(key.len(), |i: int| letter_at((26 - letter_value(key[i])) % 26))
}

pub fn inverse_key(key: &str) -> (r: String)
    ensures
        r@ == inverse_letters(key@),
{
    let cs = chars_of(key);
    let mut r = String::new();
    let mut i: usize = 0;
    while i < cs.len()
        invariant
            cs@ == key@,
            i <= cs@.len(),
            r@ == inverse_letters(key@).subrange(0, i as int),
        decreases cs@.len() - i,
    {
        let x = letter_to_number(cs[i]);
        push_char(&mut r, number_to_letter(((26 - x) % 26) as i8));
        i = i + 1;
    }
    r
}

#[derive(PartialEq, Eq, Debug, Clone)]
pub struct Vigenere {
    pub key: String,
    pub message: String,
}

impl Vigenere {
    pub fn encrypt(&self, msg: &str, key: &str) -> (r: String)
        ensures
            r@ == vigenere_text(msg@, key@),
    {
        let kc = chars_of(key);
        let mut keys: Vec<i8> = Vec::new();
        let mut j: usize = 0;
        while j < kc.len()
            invariant
                kc@ == key@,
                j <= kc@.len(),
                keys@.len() == j,
                forall|t: int| 0 <= t < j ==> #[trigger] keys@[t] == letter_value(key@[t]),
            decreases kc@.len() - j,
        {
            keys.push(letter_to_number(kc[j]));
            j = j + 1;
        }
        let base = keys.len();
        let cs = chars_of(msg);
        let mut r = String::new();
        let mut i: usize = 0;
        while i < cs.len()
            invariant
                cs@ == msg@,
                i <= cs@.len(),
                base == key@.len(),
                keys@.len() == base,
                forall|t: int| 0 <= t < base ==> #[trigger] keys@[t] == letter_value(key@[t]),
                r@ == vigenere_text(msg@, key@).subrange(0, i as int),
            decreases cs@.len() - i,
        {
            let k: i8 = if base == 0 {
                0
            } else {
                keys[i % base]
            };
            let x = letter_to_number(cs[i]);
            push_char(&mut r, number_to_letter(shift_number(x, k as i32)));
            i = i + 1;
        }
        r
    }

    /// Encrypts the stored message with the stored key.
    pub fn encrypt2(&self) -> (r: String)
        ensures
            r@ == vigenere_text(self.message@, self.key@),
    {
        self.encrypt(self.message.as_str(), self.key.as_str())
    }

    pub fn decrypt(&self, msg: &str, key: &str) -> (r: String)
        ensures
            r@ == vigenere_text(msg@, inverse_letters(key@)),
    {
        let inv = inverse_key(key);
        self.encrypt(msg, inv.as_str())
    }

    /// Decrypts the stored message with the stored key.
    pub fn decrypt2(&self) -> (r: String)
        ensures
            r@ == vigenere_text(self.message@, inverse_letters(self.key@)),
    {
        self.decrypt(self.message.as_str(), self.key.as_str())
    }

    pub fn set_key(&self, key: &str) -> (r: Vigenere)
        ensures
            r.key@ == key@,
            r.message == self.message,
    {
        Vigenere { key: key.to_string(), message: self.message.clone() }
    }

    pub fn get_key(&self) -> (r: String)
        ensures
            r == self.key,
    {
        self.key.clone()
    }

    pub fn get_message(&self) -> (r: String)
        ensures
            r == self.message,
    {
        self.message.clone()
    }

    pub fn set_message(&self, message: &str) -> (r: Vigenere)
        ensures
            r.key == self.key,
            r.message@ == message@,
    {
        Vigenere { key: self.key.clone(), message: message.to_string() }
    }
}

/// Decrypting with the key that encrypted a lower-case text gives the text back.
pub proof fn lemma_vigenere_round_trip(s: Seq<char>, key: Seq<char>)
    requires
        is_lowercase_text(s),
    ensures
        vigenere_text(vigenere_text(s, key), inverse_letters(key)) == s,
{
    let c = vigenere_text(s, key);
    let inv = inverse_letters(key);
    assert forall|i: int| 0 <= i < s.len() implies #[trigger] vigenere_text(c, inv)[i] == s[i] by {
        let x = letter_value(s[i]);
        let k = key_shift(key, i);
        lemma_letter_round_trip(x);
        lemma_letter_round_trip(shift(x, k));
        if key.len() > 0 {
            let kv = letter_value(key[i % key.len() as int]);
            lemma_letter_round_trip((26 - kv) % 26);
            assert(key_shift(inv, i) == (26 - kv) % 26);
            assert(shift(shift(x, k), (26 - kv) % 26) == x) by {
                lemma_mod_multiples_vanish(-((x + kv) / 26), x + 26 - 26 * ((26 - kv) / 26), 26);
                lemma_mod_multiples_vanish(1 - ((x + kv) / 26) - ((26 - kv) / 26), x, 26);
            }
        } else {
            assert(shift(shift(x, 0), 0) == x);
        }
    }
    assert(vigenere_text(c, inv) =~= s);
}

} // verus!
