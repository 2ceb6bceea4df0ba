//! The Caesar cipher: every letter moves by the same number of places.
use vstd::prelude::*;
use vstd::arithmetic::div_mod::lemma_mod_multiples_vanish;
use crate::base_cryptography::{Cipher, Key};
use crate::tools::{
    chars_of, is_lowercase_text, letter_at, letter_to_number, letter_value,
    lemma_letter_round_trip, number_to_letter, push_char,
};

verus! {

/// Position reached from `x` after moving `k` places, taken around the alphabet.
pub open spec fn shift(x: int, k: int) -> int {
    (x + k) % 26
}

/// Every character of `s` turned into its position, moved by `k`, and read back as a letter.
pub open spec fn caesar_text(s: Seq<char>, k: int) -> Seq<char> {
    Seq::new(s.len(), |i: int| letter_at(shift(letter_value(s[i]), k)))
}

/// Moves a letter position by `k` places around the alphabet.
pub(crate) fn shift_number(x: i8, k: i32) -> (r: i8)
    requires
        -1 <= x <= 25,
        -128 <= k <= 128,
    ensures
        r == shift(x as int, k as int),
        0 <= r < 26,
{
    let t: u32 = (x as i32 + k + 260) as u32;
    proof {
        lemma_mod_multiples_vanish(10, x as int + k as int, 26);
    }
    (t % 26) as i8
}

/// Text with every character moved by `k` places.
pub(crate) fn shift_text(msg: &str, k: i32) -> (r: String)
    requires
        -128 <= k <= 128,
    ensures
        r@ == caesar_text(msg@, k as int),
{
    let cs = chars_of(msg);
    let mut r = String::new();
    let mut i: usize = 0;
    while i < cs.len()
        invariant
            cs@ == msg@,
            i <= cs@.len(),
            -128 <= k <= 128,
            r@ == caesar_text(msg@, k as int).subrange(0, i as int),
        decreases cs@.len() - i,
    {
        let x = letter_to_number(cs[i]);
        push_char(&mut r, number_to_letter(shift_number(x, k)));
        i = i + 1;
    }
    r
}

impl Key for i8 {

}

impl Cipher for String {

}

#[derive(PartialEq, Eq, Debug, Clone)]
pub struct Cesar {
    pub key: i8,
    pub message: String,
}

impl Cesar {
    pub fn encrypt(&self, msg: &str, key: i8) -> (r: String)
        ensures
            r@ == caesar_text(msg@, key as int),
    {
        shift_text(msg, key as i32)
    }

    /// Encrypts the stored message with the stored key.
    pub fn encrypt2(&self) -> (r: String)
        ensures
            r@ == caesar_text(self.message@, self.key as int),
    {
        shift_text(self.message.as_str(), self.key as i32)
    }

    pub fn decrypt(&self, ct: &str, key: i8) -> (r: String)
        ensures
            r@ == caesar_text(ct@, -(key as int)),
    {
        shift_text(ct, -(key as i32))
    }

    /// Decrypts the stored message with the stored key.
    pub fn decrypt2(&self) -> (r: String)
        ensures
            r@ == caesar_text(self.message@, -(self.key as int)),
    {
        shift_text(self.message.as_str(), -(self.key as i32))
    }

    pub fn set_key(&self, value: i8) -> (r: Cesar)
        ensures
            r.key == value,
            r.message == self.message,
    {
        Cesar { key: value, message: self.message.clone() }
    }

    pub fn get_key(&self) -> (r: i8)
        ensures
            r == self.key,
    {
        self.key
    }

    pub fn get_message(&self) -> (r: String)
        ensures
            r == self.message,
    {
        self.message.clone()
    }

    pub fn set_message(&self, message: &str) -> (r: Cesar)
        ensures
            r.key == self.key,
            r.message@ == message@,
    {
        Cesar { key: self.key, message: message.to_string() }
    }
}

/// Decrypting with the key that encrypted a lower-case text gives the text back.
pub proof fn lemma_caesar_round_trip(s: Seq<char>, k: int)
    requires
        is_lowercase_text(s),
    ensures
        caesar_text(caesar_text(s, k), -k) == s,
{
    let c = caesar_text(s, k);
    assert forall|i: int| 0 <= i < s.len() implies #[trigger] caesar_text(c, -k)[i] == s[i] by {
        let x = letter_value(s[i]);
        lemma_letter_round_trip(shift(x, k));
        assert(letter_value(c[i]) == shift(x, k));
        assert(shift(shift(x, k), -k) == x) by {
            lemma_mod_multiples_vanish(-((x + k) / 26), x, 26);
        }
        lemma_letter_round_trip(x);
    }
    assert(caesar_text(c, -k) =~= s);
}

} // verus!
