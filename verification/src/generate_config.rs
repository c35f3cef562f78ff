//! What the user answers when a configuration file is to be written, and what follows from it.

use vstd::prelude::*;
use vstd::utf8::encode_utf8;
use crate::text::{lowercase_of, parse_number, parsed_number, same_text, to_lowercase, trim, trimmed_of};

verus! {

/// What an answer to the question for a place means.
#[derive(Debug, Clone, Copy, PartialEq, Eq, Structural)]
pub enum Choice {
    /// To give up.
    Quit,
    /// Nothing: it is no number.
    NotANumber,
    /// Nothing: no place has this number.
    OutOfRange,
    /// The place with this number.
    Picked(usize),
}

/// An answer as it is read: without the white space around it, in lowercase.
pub open spec fn normal_answer(response: Seq<char>) -> Seq<char> {
    lowercase_of(trimmed_of(response))
}

/// What the answer `answer` means where there are `candidates` places to choose from.
pub open spec fn choice_of(answer: Seq<char>, candidates: nat) -> Choice {
    if answer == "q"@ {
        Choice::Quit
    } else {
        match parsed_number(encode_utf8(answer)) {
            None => Choice::NotANumber,
            Some(number) => if number >= candidates {
                Choice::OutOfRange
            } else {
                Choice::Picked(number)
            },
        }
    }
}

/// What the answer `answer`, read as `normal_answer` reads it, means.
pub fn choose_candidate(answer: &str, candidates: usize) -> (choice: Choice)
    ensures
        choice == choice_of(answer@, candidates as nat),
{
    if same_text(answer, "q") {
        return Choice::Quit;
    }
    match parse_number(answer.as_bytes()) {
        None => Choice::NotANumber,
        Some(number) => {
            if number >= candidates {
                Choice::OutOfRange
            } else {
                Choice::Picked(number)
            }
        },
    }
}

/// What the user's answer `response` to the question for a place means.
pub fn read_choice(response: &str, candidates: usize) -> (choice: Choice)
    ensures
        choice == choice_of(normal_answer(response@), candidates as nat),
{
    let answer = to_lowercase(trim(response));
    choose_candidate(answer.as_str(), candidates)
}

/// Whether the answer `answer`, read as `normal_answer` reads it, allows writing over a file.
pub fn allows_overwrite(answer: &str) -> (allowed: bool)
    ensures
        allowed == (answer@ == "y"@),
{
    same_text(answer, "y")
}

/// Whether the user's answer `response` to the question whether a file that is there
/// already may be replaced allows it: nothing but `y` does.
pub fn confirm_overwrite(response: &str) -> (allowed: bool)
    ensures
        allowed == (normal_answer(response@) == "y"@),
{
    let answer = to_lowercase(trim(response));
    allows_overwrite(answer.as_str())
}

} // verus!
