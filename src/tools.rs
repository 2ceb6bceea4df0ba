//! Letter and number conversions shared by the ciphers.
use vstd::prelude::*;

verus! {

/// Position of `c` in the lower-case latin alphabet, or -1 for any other character.
pub open spec fn letter_value(c: char) -> int {
    if 'a' <= c && c <= 'z' {
        c as int - 'a' as int
    } else {
        -1
    }
}

/// Lower-case letter at position `n` of the alphabet, or a space outside `0..26`.
pub open spec fn letter_at(n: int) -> char {
    if 0 <= n && n < 26 {
        (n + 'a' as int) as char
    } else {
        ' '
    }
}

/// A text made of lower-case latin letters only.
pub open spec fn is_lowercase_text(s: Seq<char>) -> bool {
    forall|i: int| 0 <= i < s.len() ==> 'a' <= #[trigger] s[i] && s[i] <= 'z'
}

/// The alphabet as (letter, position) pairs, in order.
pub fn get_alphabet() -> (r: Vec<(char, i8)>)
    ensures
        r@.len() == 26,
        forall|i: int| 0 <= i < 26 ==> #[trigger] r@[i] == (letter_at(i), i as i8),
{
    let mut r: Vec<(char, i8)> = Vec::new();
    let mut n: i8 = 0;
    while n < 26
        invariant
            0 <= n <= 26,
            r@.len() == n,
            forall|i: int| 0 <= i < n ==> #[trigger] r@[i] == (letter_at(i), i as i8),
        decreases 26 - n,
    {
        r.push((number_to_letter(n), n));
        n = n + 1;
    }
    r
}

pub fn letter_to_number(c: char) -> (r: i8)
    ensures
        r == letter_value(c),
{
    if 'a' <= c && c <= 'z' {
        ((c as u32) - ('a' as u32)) as i8
    } else {
        -1
    }
}

pub fn number_to_letter(n: i8) -> (r: char)
    ensures
        r == letter_at(n as int),
{
    if 0 <= n && n < 26 {
        ((n as u8) + 97u8) as char
    } else {
        ' '
    }
}

/// Letters and positions are inverse to each other on the alphabet.
pub proof fn lemma_letter_round_trip(n: int)
    requires
        0 <= n < 26,
    ensures
        letter_value(letter_at(n)) == n,
        'a' <= letter_at(n) <= 'z',
{
}

/// The characters of `s`, in order.
pub(crate) fn chars_of(s: &str) -> (r: Vec<char>)
    ensures
        r@ == s@,
{
    let n = s.unicode_len();
    let mut r: Vec<char> = Vec::new();
    let mut i: usize = 0;
    while i < n
        invariant
            n == s@.len(),
            i <= n,
            r@ == s@.subrange(0, i as int),
        decreases n - i,
    {
        r.push(s.get_char(i));
        i = i + 1;
    }
    r
}

/// Relies on `String::push`: the character is appended at the end.
#[verifier::external_body]
pub(crate) fn push_char(s: &mut String, c: char)
    ensures
        final(s)@ == old(s)@.push(c),
{
    s.push(c)
}

/// Decimal digit character for `d` in `0..10`.
pub open spec fn digit_char(d: int) -> char {
    (d + '0' as int) as char
}

/// Decimal notation of a natural number, without leading zeros.
pub open spec fn nat_text(n: nat) -> Seq<char>
    decreases n,
{
    if n < 10 {
        seq![digit_char(n as int)]
    } else {
        nat_text(n / 10).push(digit_char((n % 10) as int))
    }
}

/// Decimal notation of an integer, with a leading '-' when negative.
pub open spec fn int_text(n: int) -> Seq<char> {
    if n < 0 {
        seq!['-'] + nat_text((-n) as nat)
    } else {
        nat_text(n as nat)
    }
}

fn push_nat(out: &mut String, n: u8)
    ensures
        final(out)@ == old(out)@ + nat_text(n as nat),
    decreases n,
{
    if n >= 10 {
        push_nat(out, n / 10);
    }
    push_char(out, ((n % 10) + 48u8) as char);
    proof {
        if n < 10 {
            assert(old(out)@ + nat_text(n as nat) =~= old(out)@.push(digit_char(n as int)));
        } else {
            assert(old(out)@ + nat_text(n as nat) =~= (old(out)@ + nat_text((n / 10) as nat)).push(
                digit_char((n % 10) as int),
            ));
        }
    }
}

/// Appends the decimal notation of `n`.
pub(crate) fn push_decimal(out: &mut String, n: i8)
    ensures
        final(out)@ == old(out)@ + int_text(n as int),
{
    if n < 0 {
        push_char(out, '-');
        let m: u8 = (-(n as i16)) as u8;
        push_nat(out, m);
        assert(old(out)@ + int_text(n as int) =~= old(out)@.push('-') + nat_text(m as nat));
    } else {
        push_nat(out, n as u8);
    }
}

} // verus!
