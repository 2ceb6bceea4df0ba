//! The dispatcher: a parsed command applied to the cipher state gives the
//! next state and the reply to show.
use vstd::prelude::*;
use crate::base_cryptography::{
    algo_named, key_of, message_of, mismatch_text, decrypt_stored, decrypt_with, encrypt_stored, encrypt_with, is_cipher, key_fits,
    status_text, with_key, with_message, Algo, AlgoView,
};
use crate::parser::commands::{Command, CommandView, KeyValue, KeyValueView};
use crate::cesar::lemma_caesar_round_trip;
use crate::parser::{parse, parse_line};
use crate::tools::is_lowercase_text;
use crate::vigenere::lemma_vigenere_round_trip;

verus! {

/// Reply to selecting the algorithm `name`: the algorithm's name, or a blank for an unknown one.
pub open spec fn select_reply(name: Seq<char>) -> Seq<char> {
    if name == "caesar"@ {
        "Caesar algorithm selected."@
    } else if name == "vigenere"@ {
        "Vigenere algorithm selected."@
    } else {
        " "@
    }
}

/// Selecting a known algorithm starts it afresh; an unknown name leaves the state as it was.
pub open spec fn select_step(a: AlgoView, name: Seq<char>) -> (AlgoView, Seq<char>) {
    if algo_named(name) is Empty {
        (a, " "@)
    } else {
        (algo_named(name), select_reply(name))
    }
}

/// The list of commands.
pub open spec fn help_text() -> Seq<char> {
    "select: select an algo\nencrypt\t key message status exit help"@
}

/// Next state and reply for a command.
pub open spec fn step(a: AlgoView, c: CommandView) -> (AlgoView, Seq<char>) {
    match c {
        CommandView::Exit => (AlgoView::Exit, "exit"@),
        CommandView::Select(name) => select_step(a, name),
        CommandView::Encrypt(None) => (a, encrypt_stored(a)),
        CommandView::Encrypt(Some((k, m))) => (a, encrypt_with(a, m, k)),
        CommandView::Decrypt(None) => (a, decrypt_stored(a)),
        CommandView::Decrypt(Some((k, m))) => (a, decrypt_with(a, m, k)),
        CommandView::Key(k) => (with_key(a, k), if key_fits(a, k) {
            "Key value set"@
        } else {
            ""@
        }),
        CommandView::Message(m) => (with_message(a, m), if is_cipher(a) {
            "Message set"@
        } else {
            ""@
        }),
        CommandView::Status => (a, status_text(a)),
        CommandView::Help => (a, help_text()),
        CommandView::Empty => (a, ""@),
    }
}

/// Starts the algorithm `algo` where it is known; else keeps the state and replies with a blank.
pub fn select_algo(algo: &str, context: &Algo) -> (r: (Algo, String))
    ensures
        (r.0@, r.1@) == select_step(context@, algo@),
{
    let next = Algo::new(algo);
    match next {
        Algo::Cesar(_) => (next, String::from_str("Caesar algorithm selected.")),
        Algo::Vigenere(_) => (next, String::from_str("Vigenere algorithm selected.")),
        _ => (context.duplicate(), String::from_str(" ")),
    }
}

/// The list of commands; the state is kept.
pub fn help_message(_rest: &str, context: &Algo) -> (r: (Algo, String))
    ensures
        r.0 == *context,
        r.1@ == help_text(),
{
    (context.duplicate(), String::from_str("select: select an algo\nencrypt\t key message status exit help"))
}

/// Applies a command to the state: the next state and the reply.
pub fn apply(context: Algo, cmd: Command) -> (r: (Algo, String))
    ensures
        (r.0@, r.1@) == step(context@, cmd@),
{
    match cmd {
        Command::Exit => (Algo::Exit, String::from_str("exit")),
        Command::Select(name) => select_algo(name.as_str(), &context),
        Command::Encrypt(None) => {
            let out = context.encrypt2();
            (context, out)
        },
        Command::Encrypt(Some((k, m))) => {
            let out = context.encrypt(m.as_str(), k);
            (context, out)
        },
        Command::Decrypt(None) => {
            let out = context.decrypt2();
            (context, out)
        },
        Command::Decrypt(Some((k, m))) => {
            let out = context.decrypt(m.as_str(), k);
            (context, out)
        },
        Command::Key(k) => {
            let fits = match (&context, &k) {
                (Algo::Cesar(_), KeyValue::Integer(_)) => true,
                (Algo::Vigenere(_), KeyValue::Text(_)) => true,
                _ => false,
            };
            let next = context.set_key(k);
            if fits {
                (next, String::from_str("Key value set"))
            } else {
                (next, String::from_str(""))
            }
        },
        Command::Message(m) => {
            let selected = match &context {
                Algo::Cesar(_) | Algo::Vigenere(_) => true,
                _ => false,
            };
            let next = context.set_message(m.as_str());
            if selected {
                (next, String::from_str("Message set"))
            } else {
                (next, String::from_str(""))
            }
        },
        Command::Status => {
            let out = context.get_status();
            (context, out)
        },
        Command::Help => help_message("", &context),
        Command::Empty => (context, String::from_str("")),
    }
}

/// Parses one line of input and applies it to the state.
pub fn eval(input: &str, context: &Algo) -> (r: (Algo, String))
    ensures
        (r.0@, r.1@) == step(context@, parse_line(input@)),
{
    apply(context.duplicate(), parse(input))
}


/// Replies to the lines in turn, from state `a`, until the state is `Exit`:
/// the final state and the replies given.
pub open spec fn session(a: AlgoView, lines: Seq<Seq<char>>) -> (AlgoView, Seq<Seq<char>>)
    decreases lines.len(),
{
    if lines.len() == 0 || a is Exit {
        (a, Seq::empty())
    } else {
        let (b, out) = step(a, parse_line(lines[0]));
        let (c, rest) = session(b, lines.drop_first());
        (c, seq![out] + rest)
    }
}

/// Runs the lines through the dispatcher in order, from a state with no
/// cipher selected, and stops after `exit`: the final state and every reply.
pub fn run_session(lines: &Vec<String>) -> (r: (Algo, Vec<String>))
    ensures
        (r.0@, r.1@.map_values(|o: String| o@)) == session(
            AlgoView::Empty,
            lines@.map_values(|l: String| l@),
        ),
{
    let ghost all = lines@.map_values(|l: String| l@);
    let mut state = Algo::Empty;
    let mut out: Vec<String> = Vec::new();
    let mut i: usize = 0;
    proof {
        assert(all.skip(0) =~= all);
        let first = session(AlgoView::Empty, all).1;
        assert(out@.map_values(|o: String| o@) + first =~= first);
    }
    while i < lines.len() && !state.is_exit()
        invariant
            i <= lines@.len(),
            all == lines@.map_values(|l: String| l@),
            session(AlgoView::Empty, all) == (
                session(state@, all.skip(i as int)).0,
                out@.map_values(|o: String| o@) + session(state@, all.skip(i as int)).1,
            ),
        decreases lines@.len() - i,
    {
        let ghost before = state@;
        let (next, reply) = eval(lines[i].as_str(), &state);
        proof {
            assert(all.skip(i as int).drop_first() =~= all.skip(i + 1));
            assert(all.skip(i as int)[0] == lines@[i as int]@);
            assert(out@.map_values(|o: String| o@).push(reply@) =~= out@.push(reply).map_values(
                |o: String| o@,
            ));
        }
        out.push(reply);
        state = next;
        i = i + 1;
    }
    proof {
        assert(session(state@, all.skip(i as int)).1 =~= Seq::<Seq<char>>::empty());
        assert(out@.map_values(|o: String| o@) + Seq::<Seq<char>>::empty() =~= out@.map_values(
            |o: String| o@,
        ));
    }
    (state, out)
}

/// `exit` leads to the terminal state from any state.
pub proof fn lemma_exit_is_terminal(a: AlgoView)
    ensures
        step(a, CommandView::Exit) == (AlgoView::Exit, "exit"@),
{
}

/// Once a line reads `exit`, no later line is read: the session ends there,
/// in the terminal state, with "exit" as its last reply.
pub proof fn lemma_exit_ends_session(a: AlgoView, lines: Seq<Seq<char>>, i: int)
    requires
        0 <= i < lines.len(),
        parse_line(lines[i]) == CommandView::Exit,
    ensures
        session(a, lines).0 == AlgoView::Exit,
        session(a, lines).1.len() <= i + 1,
        session(a, lines).1.len() == i + 1 ==> session(a, lines).1.last() == "exit"@,
    decreases i,
{
    if a is Exit {
    } else if i == 0 {
        assert(session(AlgoView::Exit, lines.drop_first()).1 =~= Seq::<Seq<char>>::empty());
    } else {
        let b = step(a, parse_line(lines[0])).0;
        assert(lines.drop_first()[i - 1] == lines[i]);
        lemma_exit_ends_session(b, lines.drop_first(), i - 1);
    }
}

/// The session folds the lines through the dispatcher; once the state after
/// the first `k + 1` lines is the terminal one, no later line is read: the
/// whole session gives the same final state and replies as those lines alone.
pub proof fn lemma_no_line_read_after_exit(a: AlgoView, lines: Seq<Seq<char>>, k: int)
    requires
        0 <= k < lines.len(),
        session(a, lines.take(k + 1)).0 is Exit,
    ensures
        session(a, lines) == session(a, lines.take(k + 1)),
    decreases k,
{
    let t = lines.take(k + 1);
    if !(a is Exit) {
        let b = step(a, parse_line(lines[0])).0;
        assert(t[0] == lines[0]);
        if k == 0 {
            assert(t.drop_first() =~= Seq::<Seq<char>>::empty());
            assert(session(b, t.drop_first()) == (b, Seq::<Seq<char>>::empty()));
            assert(b is Exit);
            assert(session(b, lines.drop_first()) == (b, Seq::<Seq<char>>::empty()));
        } else {
            assert(t.drop_first() =~= lines.drop_first().take(k));
            lemma_no_line_read_after_exit(b, lines.drop_first(), k - 1);
        }
    }
}

/// `status` changes nothing, so asking twice gives the same reply twice.
pub proof fn lemma_status_idempotent(a: AlgoView)
    ensures
        step(a, CommandView::Status).0 == a,
        step(step(a, CommandView::Status).0, CommandView::Status) == step(a, CommandView::Status),
{
}

/// Setting a key with no cipher selected changes nothing and sets no key.
pub proof fn lemma_key_needs_cipher(k: KeyValueView)
    ensures
        step(AlgoView::Empty, CommandView::Key(k)) == (AlgoView::Empty, ""@),
        step(AlgoView::Empty, CommandView::Key(k)).1 != "Key value set"@,
{
    reveal_strlit("");
    reveal_strlit("Key value set");
    assert(""@.len() != "Key value set"@.len());
}

/// A key of a kind that the selected cipher does not take leaves the state
/// as it was, and the reply says so.
pub proof fn lemma_key_kind_mismatch(a: AlgoView, k: KeyValueView, m: Seq<char>)
    requires
        is_cipher(a),
        !key_fits(a, k),
    ensures
        step(a, CommandView::Encrypt(Some((k, m)))) == (a, mismatch_text(a, k)),
        step(a, CommandView::Decrypt(Some((k, m)))) == (a, mismatch_text(a, k)),
        step(a, CommandView::Key(k)).0 == a,
{
}


/// With a cipher selected and a lower-case message stored, decrypting what
/// `encrypt` replied, with the stored key, gives the message back.
pub proof fn lemma_encrypt_then_decrypt(a: AlgoView)
    requires
        is_cipher(a),
        is_lowercase_text(message_of(a)),
    ensures
        step(a, CommandView::Decrypt(Some((key_of(a), step(a, CommandView::Encrypt(None)).1)))) == (
            a,
            message_of(a),
        ),
{
    match a {
        AlgoView::Cesar(k, m) => lemma_caesar_round_trip(m, k as int),
        AlgoView::Vigenere(k, m) => lemma_vigenere_round_trip(m, k),
        _ => {},
    }
}

} // verus!
