//! What one line of input asks for, once parsed.
use vstd::prelude::*;
use crate::tools::{int_text, push_decimal};

verus! {

#[derive(PartialEq, Debug, Clone)]
pub enum Command {
    Select(String),
    Encrypt(Option<(KeyValue, String)>),
    Decrypt(Option<(KeyValue, String)>),
    Key(KeyValue),
    Message(String),
    Status,
    Exit,
    Help,
    Empty,
}

/// A key as written on a command line.
#[derive(PartialEq, Debug, Clone)]
pub enum KeyValue {
    Integer(i8),
    Range(i8, i8),
    Text(String),
    Empty,
}

/// Mathematical model of a key: text as a sequence of characters.
pub enum KeyValueView {
    Integer(i8),
    Range(i8, i8),
    Text(Seq<char>),
    Empty,
}

/// Mathematical model of a command.
pub enum CommandView {
    Select(Seq<char>),
    Encrypt(Option<(KeyValueView, Seq<char>)>),
    Decrypt(Option<(KeyValueView, Seq<char>)>),
    Key(KeyValueView),
    Message(Seq<char>),
    Status,
    Exit,
    Help,
    Empty,
}

impl View for KeyValue {
    type V = KeyValueView;

    open spec fn view(&self) -> KeyValueView {
        match self {
            KeyValue::Integer(i) => KeyValueView::Integer(*i),
            KeyValue::Range(b, e) => KeyValueView::Range(*b, *e),
            KeyValue::Text(s) => KeyValueView::Text(s@),
            KeyValue::Empty => KeyValueView::Empty,
        }
    }
}

/// Model of an optional (key, text) pair.
pub open spec fn payload_view(p: Option<(KeyValue, String)>) -> Option<(KeyValueView, Seq<char>)> {
    match p {
        Some((k, m)) => Some((k@, m@)),
        None => None,
    }
}

impl View for Command {
    type V = CommandView;

    open spec fn view(&self) -> CommandView {
        match self {
            Command::Select(s) => CommandView::Select(s@),
            Command::Encrypt(p) => CommandView::Encrypt(payload_view(*p)),
            Command::Decrypt(p) => CommandView::Decrypt(payload_view(*p)),
            Command::Key(k) => CommandView::Key(k@),
            Command::Message(m) => CommandView::Message(m@),
            Command::Status => CommandView::Status,
            Command::Exit => CommandView::Exit,
            Command::Help => CommandView::Help,
            Command::Empty => CommandView::Empty,
        }
    }
}

/// A key's value followed by its kind, as shown to the user.
pub open spec fn key_description(k: KeyValueView) -> Seq<char> {
    match k {
        KeyValueView::Integer(i) => int_text(i as int) + " [integer]"@,
        KeyValueView::Range(b, e) => int_text(b as int) + ".."@ + int_text(e as int) + " [range]"@,
        KeyValueView::Text(s) => "\""@ + s + "\" [string]"@,
        KeyValueView::Empty => "Empty [empty]"@,
    }
}

/// One line of help for each kind of command.
pub open spec fn command_help(c: CommandView) -> Seq<char> {
    match c {
        CommandView::Select(_) => "Select an algo [??]"@,
        CommandView::Encrypt(_) => "Encrypt according to the given algorithm.\noptional: [key] [message]"@,
        CommandView::Decrypt(_) => "Decrypt according to the given algorithm.\noptional: [key] [message]"@,
        CommandView::Key(_) => "[number] set the key"@,
        CommandView::Message(_) => "[string] set the message"@,
        CommandView::Status => "Get the status of the current algorithm"@,
        CommandView::Exit => "Quit the application"@,
        CommandView::Help => "Display the help message"@,
        CommandView::Empty => ""@,
    }
}

impl KeyValue {
    pub fn describe(&self) -> (r: String)
        ensures
            r@ == key_description(self@),
    {
        let mut r = String::new();
        match self {
            KeyValue::Integer(i) => {
                push_decimal(&mut r, *i);
                r.append(" [integer]");
            },
            KeyValue::Range(b, e) => {
                push_decimal(&mut r, *b);
                r.append("..");
                push_decimal(&mut r, *e);
                r.append(" [range]");
            },
            KeyValue::Text(s) => {
                r.append("\"");
                r.append(s.as_str());
                r.append("\" [string]");
            },
            KeyValue::Empty => {
                r.append("Empty [empty]");
            },
        }
        r
    }
}

impl Command {
    pub fn describe(&self) -> (r: String)
        ensures
            r@ == command_help(self@),
    {
        match self {
            Command::Select(_) => {
                let mut out = String::from_str("Select an algo [");
                let names = crate::base_cryptography::Algo::list_algo();
                out.append(names.as_str());
                out.append("]");
                proof {
                    reveal_strlit("Select an algo [");
                    reveal_strlit("??");
                    reveal_strlit("]");
                    reveal_strlit("Select an algo [??]");
                }
                assert(out@ =~= "Select an algo [??]"@);
                out
            },
            Command::Encrypt(_) => String::from_str(
                "Encrypt according to the given algorithm.\noptional: [key] [message]",
            ),
            Command::Decrypt(_) => String::from_str(
                "Decrypt according to the given algorithm.\noptional: [key] [message]",
            ),
            Command::Key(_) => String::from_str("[number] set the key"),
            Command::Message(_) => String::from_str("[string] set the message"),
            Command::Status => String::from_str("Get the status of the current algorithm"),
            Command::Exit => String::from_str("Quit the application"),
            Command::Help => String::from_str("Display the help message"),
            Command::Empty => String::from_str(""),
        }
    }
}

} // verus!
