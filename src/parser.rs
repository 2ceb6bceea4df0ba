//! The command grammar: one line of text to one command.
//!
//! Each rule reads from a position of the line and, on a match, gives a value
//! and the position just after what it read. Rules are tried in a fixed order
//! and the first that matches wins. A command word that takes no argument
//! (`status`, `exit`, `help`, a bare `encrypt` or `decrypt`) matches only
//! where nothing follows it; after any other match, what follows is left
//! unread.
use vstd::prelude::*;
use crate::tools::{chars_of, push_char};
use self::commands::{Command, CommandView, KeyValue, KeyValueView};

pub mod commands;

verus! {

/// Kinds of characters that the grammar reads in runs.
#[derive(Clone, Copy)]
pub enum CharClass {
    Alnum,
    Digit,
    Space,
}

/// ASCII letters and digits, spaces and tabs, ASCII digits.
pub open spec fn in_class(c: char, k: CharClass) -> bool {
    match k {
        CharClass::Alnum => ('a' <= c && c <= 'z') || ('A' <= c && c <= 'Z') || ('0' <= c && c <= '9'),
        CharClass::Digit => '0' <= c && c <= '9',
        CharClass::Space => c == ' ' || c == '\t',
    }
}

/// End of the longest run of characters of class `k` that starts at `i`.
pub open spec fn run_end(s: Seq<char>, i: int, k: CharClass) -> int
    decreases s.len() - i,
{
    if 0 <= i < s.len() && in_class(s[i], k) {
        run_end(s, i + 1, k)
    } else {
        i
    }
}

/// `t` stands in `s` at position `i`.
pub open spec fn has_tag(s: Seq<char>, i: int, t: Seq<char>) -> bool {
    0 <= i && i + t.len() <= s.len() && s.subrange(i, i + t.len()) == t
}

/// Words of letters and digits separated by runs of spaces, read from `i`:
/// the words joined by single spaces, and the end of what was read (spaces
/// after the last word included).
pub open spec fn words(s: Seq<char>, i: int) -> Option<(Seq<char>, int)>
    decreases s.len() - i,
{
    if 0 <= i < s.len() && in_class(s[i], CharClass::Alnum) {
        let j = run_end(s, i, CharClass::Alnum);
        let k = run_end(s, j, CharClass::Space);
        if i < j < k < s.len() && in_class(s[k], CharClass::Alnum) {
            match words(s, k) {
                Some((t, e)) => Some((s.subrange(i, j) + seq![' '] + t, e)),
                None => None,
            }
        } else {
            Some((s.subrange(i, j), k))
        }
    } else {
        None
    }
}

/// Words between double quotes.
pub open spec fn quoted(s: Seq<char>, i: int) -> Option<(Seq<char>, int)> {
    if 0 <= i < s.len() && s[i] == '"' {
        match words(s, i + 1) {
            Some((t, e)) => if 0 <= e < s.len() && s[e] == '"' {
                Some((t, e + 1))
            } else {
                None
            },
            None => None,
        }
    } else {
        None
    }
}

/// Value of a run of decimal digits.
pub open spec fn digits_value(d: Seq<char>) -> nat
    decreases d.len(),
{
    if d.len() == 0 {
        0
    } else {
        digits_value(d.drop_last()) * 10 + (d.last() as int - '0' as int) as nat
    }
}

/// A run of digits read as a signed byte; 0 where the value does not fit.
pub open spec fn small_int_of(d: Seq<char>) -> i8 {
    if digits_value(d) <= 127 {
        digits_value(d) as i8
    } else {
        0
    }
}

/// Two runs of digits around "..".
pub open spec fn range_key(s: Seq<char>, i: int) -> Option<(KeyValueView, int)> {
    let j = run_end(s, i, CharClass::Digit);
    if 0 <= i < j && has_tag(s, j, ".."@) {
        let a = j + ".."@.len();
        let k = run_end(s, a, CharClass::Digit);
        if a < k {
            Some((KeyValueView::Range(small_int_of(s.subrange(i, j)), small_int_of(s.subrange(a, k))), k))
        } else {
            None
        }
    } else {
        None
    }
}

/// A key: a run of digits not followed by "..", else quoted words, else a range.
pub open spec fn key_value(s: Seq<char>, i: int) -> Option<(KeyValueView, int)> {
    let j = run_end(s, i, CharClass::Digit);
    if 0 <= i < j && !has_tag(s, j, ".."@) {
        Some((KeyValueView::Integer(small_int_of(s.subrange(i, j))), j))
    } else {
        match quoted(s, i) {
            Some((t, e)) => Some((KeyValueView::Text(t), e)),
            None => range_key(s, i),
        }
    }
}

/// `select <name>`.
pub open spec fn select_rule(s: Seq<char>, i: int) -> Option<(CommandView, int)> {
    if has_tag(s, i, "select "@) {
        let a = i + "select "@.len();
        let j = run_end(s, a, CharClass::Alnum);
        if a < j {
            Some((CommandView::Select(s.subrange(a, j)), j))
        } else {
            None
        }
    } else {
        None
    }
}

/// `<head>"<text>" with <key>`: the key and the text.
pub open spec fn crypt_args(s: Seq<char>, i: int, head: Seq<char>) -> Option<((KeyValueView, Seq<char>), int)> {
    if has_tag(s, i, head) {
        match quoted(s, i + head.len()) {
            Some((m, b)) => if has_tag(s, b, " with "@) {
                match key_value(s, b + " with "@.len()) {
                    Some((k, e)) => Some(((k, m), e)),
                    None => None,
                }
            } else {
                None
            },
            None => None,
        }
    } else {
        None
    }
}

/// `encrypt "<text>" with <key>`, else `encrypt` alone up to the end of the line.
pub open spec fn encrypt_rule(s: Seq<char>, i: int) -> Option<(CommandView, int)> {
    match crypt_args(s, i, "encrypt "@) {
        Some((p, e)) => Some((CommandView::Encrypt(Some(p)), e)),
        None => if has_tag(s, i, "encrypt"@) && i + "encrypt"@.len() == s.len() {
            Some((CommandView::Encrypt(None), i + "encrypt"@.len()))
        } else {
            None
        },
    }
}

/// `decrypt "<text>" with <key>`, else `decrypt` alone up to the end of the line.
pub open spec fn decrypt_rule(s: Seq<char>, i: int) -> Option<(CommandView, int)> {
    match crypt_args(s, i, "decrypt "@) {
        Some((p, e)) => Some((CommandView::Decrypt(Some(p)), e)),
        None => if has_tag(s, i, "decrypt"@) && i + "decrypt"@.len() == s.len() {
            Some((CommandView::Decrypt(None), i + "decrypt"@.len()))
        } else {
            None
        },
    }
}

/// `key <key>`.
pub open spec fn key_rule(s: Seq<char>, i: int) -> Option<(CommandView, int)> {
    if has_tag(s, i, "key "@) {
        match key_value(s, i + "key "@.len()) {
            Some((k, e)) => Some((CommandView::Key(k), e)),
            None => None,
        }
    } else {
        None
    }
}

/// `message "<text>"`.
pub open spec fn message_rule(s: Seq<char>, i: int) -> Option<(CommandView, int)> {
    if has_tag(s, i, "message "@) {
        match quoted(s, i + "message "@.len()) {
            Some((t, e)) => Some((CommandView::Message(t), e)),
            None => None,
        }
    } else {
        None
    }
}

/// A single word that stands for a command, with nothing after it.
pub open spec fn word_rule(s: Seq<char>, i: int, w: Seq<char>, c: CommandView) -> Option<(CommandView, int)> {
    if has_tag(s, i, w) && i + w.len() == s.len() {
        Some((c, i + w.len()))
    } else {
        None
    }
}

/// The first rule that matches at `i`, in the grammar's order.
pub open spec fn command_rule(s: Seq<char>, i: int) -> Option<(CommandView, int)> {
    if select_rule(s, i) is Some {
        select_rule(s, i)
    } else if encrypt_rule(s, i) is Some {
        encrypt_rule(s, i)
    } else if decrypt_rule(s, i) is Some {
        decrypt_rule(s, i)
    } else if key_rule(s, i) is Some {
        key_rule(s, i)
    } else if message_rule(s, i) is Some {
        message_rule(s, i)
    } else if word_rule(s, i, "status"@, CommandView::Status) is Some {
        word_rule(s, i, "status"@, CommandView::Status)
    } else if word_rule(s, i, "exit"@, CommandView::Exit) is Some {
        word_rule(s, i, "exit"@, CommandView::Exit)
    } else {
        word_rule(s, i, "help"@, CommandView::Help)
    }
}

/// The command a whole line stands for; `Empty` where no rule matches.
pub open spec fn parse_line(s: Seq<char>) -> CommandView {
    match command_rule(s, 0) {
        Some((c, _)) => c,
        None => CommandView::Empty,
    }
}

/// Model of a positional parse result.
pub open spec fn view_at<T: View>(r: Option<(T, usize)>) -> Option<(T::V, int)> {
    match r {
        Some((v, e)) => Some((v@, e as int)),
        None => None,
    }
}

/// A positional parse result that ends between `i` and `n`.
pub open spec fn ends_within<T>(r: Option<(T, usize)>, i: int, n: int) -> bool {
    match r {
        Some((_, e)) => i <= e <= n,
        None => true,
    }
}

/// What is left of `s` after a match, with the matched value.
pub open spec fn with_rest<V>(s: Seq<char>, r: Option<(V, int)>) -> Option<(Seq<char>, V)> {
    match r {
        Some((v, e)) => Some((s.subrange(e, s.len() as int), v)),
        None => None,
    }
}

/// Model of a (rest, value) parse result.
pub open spec fn rest_view<T: View>(r: Option<(String, T)>) -> Option<(Seq<char>, T::V)> {
    match r {
        Some((rest, v)) => Some((rest@, v@)),
        None => None,
    }
}

fn in_class_exec(c: char, k: CharClass) -> (r: bool)
    ensures
        r == in_class(c, k),
{
    match k {
        CharClass::Alnum => ('a' <= c && c <= 'z') || ('A' <= c && c <= 'Z') || ('0' <= c && c <= '9'),
        CharClass::Digit => '0' <= c && c <= '9',
        CharClass::Space => c == ' ' || c == '\t',
    }
}

fn class_end(s: &Vec<char>, i: usize, k: CharClass) -> (r: usize)
    requires
        i <= s@.len(),
    ensures
        r == run_end(s@, i as int, k),
        i <= r <= s@.len(),
{
    let mut j = i;
    while j < s.len() && in_class_exec(s[j], k)
        invariant
            i <= j <= s@.len(),
            run_end(s@, j as int, k) == run_end(s@, i as int, k),
        decreases s@.len() - j,
    {
        j = j + 1;
    }
    j
}

fn tag_at(s: &Vec<char>, i: usize, t: &str) -> (r: Option<usize>)
    requires
        i <= s@.len(),
    ensures
        r is Some <==> has_tag(s@, i as int, t@),
        r is Some ==> r->0 == i + t@.len() && r->0 <= s@.len(),
{
    let tc = chars_of(t);
    if tc.len() > s.len() - i {
        return None;
    }
    let mut j: usize = 0;
    while j < tc.len()
        invariant
            tc@ == t@,
            i + tc@.len() <= s@.len(),
            j <= tc@.len(),
            forall|m: int| 0 <= m < j ==> s@[i + m] == tc@[m],
        decreases tc@.len() - j,
    {
        assert(i + j < s.len());
        if s[i + j] != tc[j] {
            assert(s@.subrange(i as int, i + t@.len())[j as int] != t@[j as int]);
            return None;
        }
        j = j + 1;
    }
    assert(s@.subrange(i as int, i + t@.len()) =~= t@);
    Some(i + tc.len())
}

fn slice_string(s: &Vec<char>, from: usize, to: usize) -> (r: String)
    requires
        from <= to <= s@.len(),
    ensures
        r@ == s@.subrange(from as int, to as int),
{
    let mut r = String::new();
    let mut j = from;
    while j < to
        invariant
            from <= j <= to <= s@.len(),
            r@ == s@.subrange(from as int, j as int),
        decreases to - j,
    {
        push_char(&mut r, s[j]);
        assert(s@.subrange(from as int, j + 1) =~= s@.subrange(from as int, j as int).push(s@[j as int]));
        j = j + 1;
    }
    r
}

fn words_at(s: &Vec<char>, i: usize) -> (r: Option<(String, usize)>)
    requires
        i <= s@.len(),
    ensures
        view_at(r) == words(s@, i as int),
        ends_within(r, i as int, s@.len() as int),
    decreases s@.len() - i,
{
    if i < s.len() && in_class_exec(s[i], CharClass::Alnum) {
        let j = class_end(s, i, CharClass::Alnum);
        let k = class_end(s, j, CharClass::Space);
        if i < j && j < k && k < s.len() && in_class_exec(s[k], CharClass::Alnum) {
            match words_at(s, k) {
                Some((t, e)) => {
                    let mut w = slice_string(s, i, j);
                    push_char(&mut w, ' ');
                    w.append(t.as_str());
                    assert(w@ =~= s@.subrange(i as int, j as int) + seq![' '] + t@);
                    Some((w, e))
                },
                None => None,
            }
        } else {
            Some((slice_string(s, i, j), k))
        }
    } else {
        None
    }
}

fn quoted_at(s: &Vec<char>, i: usize) -> (r: Option<(String, usize)>)
    requires
        i <= s@.len(),
    ensures
        view_at(r) == quoted(s@, i as int),
        ends_within(r, i as int, s@.len() as int),
{
    if i < s.len() && s[i] == '"' {
        match words_at(s, i + 1) {
            Some((t, e)) => if e < s.len() && s[e] == '"' {
                Some((t, e + 1))
            } else {
                None
            },
            None => None,
        }
    } else {
        None
    }
}


/// Every character of a run belongs to its class.
proof fn lemma_run_end(s: Seq<char>, i: int, k: CharClass)
    requires
        0 <= i <= s.len(),
    ensures
        i <= run_end(s, i, k) <= s.len(),
        forall|m: int| i <= m < run_end(s, i, k) ==> in_class(#[trigger] s[m], k),
        run_end(s, i, k) == s.len() || !in_class(s[run_end(s, i, k)], k),
    decreases s.len() - i,
{
    if i < s.len() && in_class(s[i], k) {
        lemma_run_end(s, i + 1, k);
    }
}

/// A run of digits read as a signed byte, 0 where its value exceeds 127.
fn parse_digit(s: &Vec<char>, from: usize, to: usize) -> (r: i8)
    requires
        from <= to <= s@.len(),
        forall|m: int| from <= m < to ==> in_class(#[trigger] s@[m], CharClass::Digit),
    ensures
        r == small_int_of(s@.subrange(from as int, to as int)),
{
    let mut acc: u16 = 0;
    let mut over = false;
    let mut j = from;
    assert(s@.subrange(from as int, from as int) =~= Seq::<char>::empty());
    while j < to
        invariant
            from <= j <= to <= s@.len(),
            forall|m: int| from <= m < to ==> in_class(#[trigger] s@[m], CharClass::Digit),
            over ==> digits_value(s@.subrange(from as int, j as int)) > 127,
            !over ==> acc as nat == digits_value(s@.subrange(from as int, j as int)) && acc <= 127,
        decreases to - j,
    {
        let c = s[j];
        assert(in_class(s@[j as int], CharClass::Digit));
        let d: u16 = ((c as u32) - ('0' as u32)) as u16;
        let ghost p = s@.subrange(from as int, j + 1);
        assert(p.drop_last() =~= s@.subrange(from as int, j as int));
        assert(p.last() == c);
        assert(digits_value(p) == digits_value(p.drop_last()) * 10 + d);
        if !over {
            let next: u16 = acc * 10 + d;
            if next > 127 {
                over = true;
            } else {
                acc = next;
            }
        } else {
            assert(digits_value(p) >= digits_value(p.drop_last())) by (nonlinear_arith)
                requires
                    digits_value(p) == digits_value(p.drop_last()) * 10 + d,
                    d >= 0,
            ;
        }
        j = j + 1;
    }
    if over {
        0
    } else {
        acc as i8
    }
}

fn range_key_at(s: &Vec<char>, i: usize) -> (r: Option<(KeyValue, usize)>)
    requires
        i <= s@.len(),
    ensures
        view_at(r) == range_key(s@, i as int),
        ends_within(r, i as int, s@.len() as int),
{
    let j = class_end(s, i, CharClass::Digit);
    proof {
        lemma_run_end(s@, i as int, CharClass::Digit);
    }
    if i < j {
        match tag_at(s, j, "..") {
            Some(a) => {
                let k = class_end(s, a, CharClass::Digit);
                proof {
                    lemma_run_end(s@, a as int, CharClass::Digit);
                }
                if a < k {
                    let lo = parse_digit(s, i, j);
                    let hi = parse_digit(s, a, k);
                    Some((KeyValue::Range(lo, hi), k))
                } else {
                    None
                }
            },
            None => None,
        }
    } else {
        None
    }
}

fn key_value_at(s: &Vec<char>, i: usize) -> (r: Option<(KeyValue, usize)>)
    requires
        i <= s@.len(),
    ensures
        view_at(r) == key_value(s@, i as int),
        ends_within(r, i as int, s@.len() as int),
{
    let j = class_end(s, i, CharClass::Digit);
    proof {
        lemma_run_end(s@, i as int, CharClass::Digit);
    }
    if i < j && tag_at(s, j, "..").is_none() {
        Some((KeyValue::Integer(parse_digit(s, i, j)), j))
    } else {
        match quoted_at(s, i) {
            Some((t, e)) => Some((KeyValue::Text(t), e)),
            None => range_key_at(s, i),
        }
    }
}


fn select_at(s: &Vec<char>, i: usize) -> (r: Option<(Command, usize)>)
    requires
        i <= s@.len(),
    ensures
        view_at(r) == select_rule(s@, i as int),
        ends_within(r, i as int, s@.len() as int),
{
    match tag_at(s, i, "select ") {
        Some(a) => {
            let j = class_end(s, a, CharClass::Alnum);
            if a < j {
                Some((Command::Select(slice_string(s, a, j)), j))
            } else {
                None
            }
        },
        None => None,
    }
}

fn crypt_args_at(s: &Vec<char>, i: usize, head: &str) -> (r: Option<((KeyValue, String), usize)>)
    requires
        i <= s@.len(),
    ensures
        match r {
            Some(((k, m), e)) => crypt_args(s@, i as int, head@) == Some(((k@, m@), e as int))
                && i <= e <= s@.len(),
            None => crypt_args(s@, i as int, head@) is None,
        },
{
    match tag_at(s, i, head) {
        Some(a) => match quoted_at(s, a) {
            Some((m, b)) => match tag_at(s, b, " with ") {
                Some(c) => match key_value_at(s, c) {
                    Some((k, e)) => Some(((k, m), e)),
                    None => None,
                },
                None => None,
            },
            None => None,
        },
        None => None,
    }
}

fn encrypt_at(s: &Vec<char>, i: usize) -> (r: Option<(Command, usize)>)
    requires
        i <= s@.len(),
    ensures
        view_at(r) == encrypt_rule(s@, i as int),
        ends_within(r, i as int, s@.len() as int),
{
    match crypt_args_at(s, i, "encrypt ") {
        Some((p, e)) => Some((Command::Encrypt(Some(p)), e)),
        None => match tag_at(s, i, "encrypt") {
            Some(e) => if e == s.len() {
                Some((Command::Encrypt(None), e))
            } else {
                None
            },
            None => None,
        },
    }
}

fn decrypt_at(s: &Vec<char>, i: usize) -> (r: Option<(Command, usize)>)
    requires
        i <= s@.len(),
    ensures
        view_at(r) == decrypt_rule(s@, i as int),
        ends_within(r, i as int, s@.len() as int),
{
    match crypt_args_at(s, i, "decrypt ") {
        Some((p, e)) => Some((Command::Decrypt(Some(p)), e)),
        None => match tag_at(s, i, "decrypt") {
            Some(e) => if e == s.len() {
                Some((Command::Decrypt(None), e))
            } else {
                None
            },
            None => None,
        },
    }
}

fn key_at(s: &Vec<char>, i: usize) -> (r: Option<(Command, usize)>)
    requires
        i <= s@.len(),
    ensures
        view_at(r) == key_rule(s@, i as int),
        ends_within(r, i as int, s@.len() as int),
{
    match tag_at(s, i, "key ") {
        Some(a) => match key_value_at(s, a) {
            Some((k, e)) => Some((Command::Key(k), e)),
            None => None,
        },
        None => None,
    }
}

fn message_at(s: &Vec<char>, i: usize) -> (r: Option<(Command, usize)>)
    requires
        i <= s@.len(),
    ensures
        view_at(r) == message_rule(s@, i as int),
        ends_within(r, i as int, s@.len() as int),
{
    match tag_at(s, i, "message ") {
        Some(a) => match quoted_at(s, a) {
            Some((t, e)) => Some((Command::Message(t), e)),
            None => None,
        },
        None => None,
    }
}

fn status_at(s: &Vec<char>, i: usize) -> (r: Option<(Command, usize)>)
    requires
        i <= s@.len(),
    ensures
        view_at(r) == word_rule(s@, i as int, "status"@, CommandView::Status),
        ends_within(r, i as int, s@.len() as int),
{
    match tag_at(s, i, "status") {
        Some(e) => if e == s.len() {
            Some((Command::Status, e))
        } else {
            None
        },
        None => None,
    }
}

fn exit_at(s: &Vec<char>, i: usize) -> (r: Option<(Command, usize)>)
    requires
        i <= s@.len(),
    ensures
        view_at(r) == word_rule(s@, i as int, "exit"@, CommandView::Exit),
        ends_within(r, i as int, s@.len() as int),
{
    match tag_at(s, i, "exit") {
        Some(e) => if e == s.len() {
            Some((Command::Exit, e))
        } else {
            None
        },
        None => None,
    }
}

fn help_at(s: &Vec<char>, i: usize) -> (r: Option<(Command, usize)>)
    requires
        i <= s@.len(),
    ensures
        view_at(r) == word_rule(s@, i as int, "help"@, CommandView::Help),
        ends_within(r, i as int, s@.len() as int),
{
    match tag_at(s, i, "help") {
        Some(e) => if e == s.len() {
            Some((Command::Help, e))
        } else {
            None
        },
        None => None,
    }
}

fn command_at(s: &Vec<char>, i: usize) -> (r: Option<(Command, usize)>)
    requires
        i <= s@.len(),
    ensures
        view_at(r) == command_rule(s@, i as int),
        ends_within(r, i as int, s@.len() as int),
{
    let r = select_at(s, i);
    if r.is_some() {
        return r;
    }
    let r = encrypt_at(s, i);
    if r.is_some() {
        return r;
    }
    let r = decrypt_at(s, i);
    if r.is_some() {
        return r;
    }
    let r = key_at(s, i);
    if r.is_some() {
        return r;
    }
    let r = message_at(s, i);
    if r.is_some() {
        return r;
    }
    let r = status_at(s, i);
    if r.is_some() {
        return r;
    }
    let r = exit_at(s, i);
    if r.is_some() {
        return r;
    }
    help_at(s, i)
}

/// Turns a positional result into (what is left of the line, value).
fn split_rest<T: View>(s: &Vec<char>, r: Option<(T, usize)>) -> (out: Option<(String, T)>)
    requires
        ends_within(r, 0, s@.len() as int),
    ensures
        rest_view(out) == with_rest(s@, view_at(r)),
{
    match r {
        Some((v, e)) => Some((slice_string(s, e, s.len()), v)),
        None => None,
    }
}

/// The command that a line stands for; `Command::Empty` where no rule matches.
pub fn parse(s: &str) -> (r: Command)
    ensures
        r@ == parse_line(s@),
{
    let cs = chars_of(s);
    match command_at(&cs, 0) {
        Some((c, _)) => c,
        None => Command::Empty,
    }
}

pub fn parse_select(s: &str) -> (r: Option<(String, Command)>)
    ensures
        rest_view(r) == with_rest(s@, select_rule(s@, 0)),
{
    let cs = chars_of(s);
    split_rest(&cs, select_at(&cs, 0))
}

pub fn parse_words_and_spaces(s: &str) -> (r: Option<(String, String)>)
    ensures
        rest_view(r) == with_rest(s@, words(s@, 0)),
{
    let cs = chars_of(s);
    split_rest(&cs, words_at(&cs, 0))
}

pub fn parse_text(s: &str) -> (r: Option<(String, String)>)
    ensures
        rest_view(r) == with_rest(s@, quoted(s@, 0)),
{
    let cs = chars_of(s);
    split_rest(&cs, quoted_at(&cs, 0))
}

pub fn parse_key_value(s: &str) -> (r: Option<(String, KeyValue)>)
    ensures
        rest_view(r) == with_rest(s@, key_value(s@, 0)),
{
    let cs = chars_of(s);
    split_rest(&cs, key_value_at(&cs, 0))
}

pub fn parse_encrypt(s: &str) -> (r: Option<(String, Command)>)
    ensures
        rest_view(r) == with_rest(s@, encrypt_rule(s@, 0)),
{
    let cs = chars_of(s);
    split_rest(&cs, encrypt_at(&cs, 0))
}

pub fn parse_decrypt(s: &str) -> (r: Option<(String, Command)>)
    ensures
        rest_view(r) == with_rest(s@, decrypt_rule(s@, 0)),
{
    let cs = chars_of(s);
    split_rest(&cs, decrypt_at(&cs, 0))
}

pub fn parse_key(s: &str) -> (r: Option<(String, Command)>)
    ensures
        rest_view(r) == with_rest(s@, key_rule(s@, 0)),
{
    let cs = chars_of(s);
    split_rest(&cs, key_at(&cs, 0))
}

pub fn parse_message(s: &str) -> (r: Option<(String, Command)>)
    ensures
        rest_view(r) == with_rest(s@, message_rule(s@, 0)),
{
    let cs = chars_of(s);
    split_rest(&cs, message_at(&cs, 0))
}

pub fn parse_status(s: &str) -> (r: Option<(String, Command)>)
    ensures
        rest_view(r) == with_rest(s@, word_rule(s@, 0, "status"@, CommandView::Status)),
{
    let cs = chars_of(s);
    split_rest(&cs, status_at(&cs, 0))
}

pub fn parse_exit(s: &str) -> (r: Option<(String, Command)>)
    ensures
        rest_view(r) == with_rest(s@, word_rule(s@, 0, "exit"@, CommandView::Exit)),
{
    let cs = chars_of(s);
    split_rest(&cs, exit_at(&cs, 0))
}

pub fn parse_help(s: &str) -> (r: Option<(String, Command)>)
    ensures
        rest_view(r) == with_rest(s@, word_rule(s@, 0, "help"@, CommandView::Help)),
{
    let cs = chars_of(s);
    split_rest(&cs, help_at(&cs, 0))
}


/// A run of class `k` from `i` that stops at `j` ends there.
proof fn lemma_run_end_at(s: Seq<char>, i: int, j: int, k: CharClass)
    requires
        0 <= i <= j <= s.len(),
        forall|m: int| i <= m < j ==> in_class(#[trigger] s[m], k),
        j == s.len() || !in_class(s[j], k),
    ensures
        run_end(s, i, k) == j,
    decreases j - i,
{
    if i < j {
        lemma_run_end_at(s, i + 1, j, k);
    }
}

/// Words of letters and digits, each two separated by one space.
pub open spec fn is_word_text(w: Seq<char>) -> bool {
    &&& w.len() > 0
    &&& in_class(w[0], CharClass::Alnum)
    &&& in_class(w.last(), CharClass::Alnum)
    &&& forall|m: int| 0 <= m < w.len() ==> in_class(#[trigger] w[m], CharClass::Alnum) || w[m] == ' '
    &&& forall|m: int| 0 <= m < w.len() - 1 && #[trigger] w[m] == ' ' ==> w[m + 1] != ' '
}

/// A run of ASCII digits.
pub open spec fn is_digit_text(d: Seq<char>) -> bool {
    d.len() > 0 && forall|m: int| 0 <= m < d.len() ==> in_class(#[trigger] d[m], CharClass::Digit)
}

/// The words of a quoted text, read from the start of any word, up to the closing quote.
proof fn lemma_words_of_quoted(w: Seq<char>, p: int)
    requires
        is_word_text(w),
        1 <= p <= w.len(),
        p == 1 || w[p - 2] == ' ',
    ensures
        words(seq!['"'] + w + seq!['"'], p) == Some((w.subrange(p - 1, w.len() as int), w.len() + 1 as int)),
    decreases w.len() + 2 - p,
{
    let s = seq!['"'] + w + seq!['"'];
    assert(forall|m: int| 1 <= m <= w.len() ==> s[m] == w[m - 1]);
    assert(s[0] == '"' && s[w.len() + 1 as int] == '"');
    assert(in_class(s[p], CharClass::Alnum)) by {
        if p > 1 {
            assert(w[p - 2] == ' ');
            assert(w[p - 1] != ' ');
        }
    }
    lemma_run_end(s, p, CharClass::Alnum);
    let j = run_end(s, p, CharClass::Alnum);
    assert(j < s.len()) by {
        if j == s.len() {
            assert(in_class(s[s.len() - 1], CharClass::Alnum));
        }
    }
    if s[j] == ' ' {
        assert(1 <= j <= w.len());
        assert(j < w.len()) by {
            if j == w.len() {
                assert(w[w.len() - 1] == ' ');
            }
        }
        assert(w[j - 1] == ' ');
        assert(w[j] != ' ');
        assert(in_class(s[j + 1], CharClass::Alnum));
        lemma_run_end_at(s, j, j + 1, CharClass::Space);
        lemma_words_of_quoted(w, j + 1);
        assert(s.subrange(p, j) + seq![' '] + w.subrange(j, w.len() as int) =~= w.subrange(
            p - 1,
            w.len() as int,
        ));
    } else {
        assert(j == w.len() + 1) by {
            if j <= w.len() {
                assert(in_class(w[j - 1], CharClass::Alnum) || w[j - 1] == ' ');
            }
        }
        lemma_run_end_at(s, j, j, CharClass::Space);
        assert(s.subrange(p, j) =~= w.subrange(p - 1, w.len() as int));
    }
}

/// A key literal reads back as what it was written from: a run of digits as
/// the integer it stands for (0 where that exceeds 127), quoted words as their
/// text, and two runs of digits around ".." as a range. The whole literal is read.
pub proof fn lemma_key_literal_round_trip(d: Seq<char>, w: Seq<char>, e: Seq<char>)
    requires
        is_digit_text(d),
        is_word_text(w),
        is_digit_text(e),
    ensures
        key_value(d, 0) == Some((KeyValueView::Integer(small_int_of(d)), d.len() as int)),
        digits_value(d) <= 127 ==> small_int_of(d) as int == digits_value(d),
        key_value(seq!['"'] + w + seq!['"'], 0) == Some(
            (KeyValueView::Text(w), w.len() + 2 as int),
        ),
        key_value(d + ".."@ + e, 0) == Some(
            (KeyValueView::Range(small_int_of(d), small_int_of(e)), d.len() + 2 + e.len() as int),
        ),
{
    reveal_strlit("..");
    lemma_run_end_at(d, 0, d.len() as int, CharClass::Digit);
    assert(d.subrange(0, d.len() as int) =~= d);
    assert(!has_tag(d, d.len() as int, ".."@));
    let s = seq!['"'] + w + seq!['"'];
    lemma_run_end_at(s, 0, 0, CharClass::Digit);
    lemma_words_of_quoted(w, 1);
    assert(w.subrange(0, w.len() as int) =~= w);
    let r = d + ".."@ + e;
    let j = d.len() as int;
    assert(r[j] == '.' && r[j + 1] == '.');
    assert(forall|m: int| 0 <= m < j ==> r[m] == d[m]);
    assert(forall|m: int| 0 <= m < e.len() ==> r[j + 2 + m] == e[m]);
    lemma_run_end_at(r, 0, j, CharClass::Digit);
    assert(r.subrange(j, j + 2) =~= ".."@);
    assert(forall|m: int| j + 2 <= m < r.len() ==> in_class(#[trigger] r[m], CharClass::Digit)) by {
        assert forall|m: int| j + 2 <= m < r.len() implies in_class(#[trigger] r[m], CharClass::Digit) by {
            assert(r[j + 2 + (m - j - 2)] == e[m - j - 2]);
        }
    }
    lemma_run_end_at(r, j + 2, r.len() as int, CharClass::Digit);
    assert(r.subrange(0, j) =~= d);
    assert(r.subrange(j + 2, r.len() as int) =~= e);
}

} // verus!
