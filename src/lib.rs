//! A console for two substitution ciphers, Caesar and Vigenere: a grammar
//! turns each line of input into a command, and a dispatcher applies the
//! command to the current cipher state, giving the next state and a reply.
use vstd::prelude::*;

pub mod tools;
pub mod cesar;
pub mod vigenere;
pub mod parser;
pub mod base_cryptography;
pub mod console;

verus! {

} // verus!
