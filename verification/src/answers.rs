//! What the answers mean that are typed at the prompts before the session
//! starts.

use vstd::prelude::*;
use crate::text::{chars_of, texts_equal, trim, trimmed};

verus! {

/// The character is the given lowercase letter of the Latin alphabet or
/// its capital.
pub open spec fn is_letter(c: char, letter: char) -> bool {
    c as u32 == letter as u32 || c as u32 + 32 == letter as u32
}

/// The text says yes: it is `y` or `yes`, in lowercase or in capitals or
/// mixed.
pub open spec fn says_yes_plainly(text: Seq<char>) -> bool {
    (text.len() == 1 && is_letter(text[0], 'y')) || (text.len() == 3 && is_letter(text[0], 'y')
        && is_letter(text[1], 'e') && is_letter(text[2], 's'))
}

/// The answer says yes: without the whitespace around it, it is `y` or
/// `yes` in any case.
pub open spec fn is_yes(answer: Seq<char>) -> bool {
    says_yes_plainly(trim(answer))
}

/// Whether the character is the given lowercase letter or its capital.
fn char_is_letter(c: char, letter: char) -> (same: bool)
    ensures
        same == is_letter(c, letter),
{
    let code = c as u32;
    let wanted = letter as u32;
    code == wanted || (code <= wanted && wanted - code == 32)
}

/// Whether the answer says yes.
pub fn says_yes(answer: &str) -> (yes: bool)
    ensures
        yes == is_yes(answer@),
{
    let inner = trimmed(answer);
    let chars = chars_of(inner.as_str());
    if chars.len() == 1 {
        char_is_letter(chars[0], 'y')
    } else if chars.len() == 3 {
        char_is_letter(chars[0], 'y') && char_is_letter(chars[1], 'e') && char_is_letter(
            chars[2],
            's',
        )
    } else {
        false
    }
}

/// The answer without the whitespace around it, or nothing where the
/// answer holds nothing else.
pub fn given_answer(answer: &str) -> (given: Option<String>)
    ensures
        match given {
            Some(text) => text@ == trim(answer@) && text@.len() > 0,
            None => trim(answer@).len() == 0,
        },
{
    let inner = trimmed(answer);
    if inner.as_str().is_empty() {
        None
    } else {
        Some(inner)
    }
}

/// How the remote of a new repository is set up.
#[derive(Clone, Copy, Debug, PartialEq, Eq, Structural)]
pub enum RemoteChoice {
    /// Add a remote that exists.
    Existing,
    /// Create a remote.
    Create,
    /// Set up none.
    Skip,
}

/// The choice that an answer stands for: `e` for a remote that exists, `g`
/// for one to be created, in either case; anything else for none.
pub open spec fn remote_choice_of(answer: Seq<char>) -> RemoteChoice {
    if answer == "e"@ || answer == "E"@ {
        RemoteChoice::Existing
    } else if answer == "g"@ || answer == "G"@ {
        RemoteChoice::Create
    } else {
        RemoteChoice::Skip
    }
}

/// The choice that an answer stands for.
pub fn remote_choice(answer: &str) -> (choice: RemoteChoice)
    ensures
        choice == remote_choice_of(answer@),
{
    if texts_equal(answer, "e") || texts_equal(answer, "E") {
        RemoteChoice::Existing
    } else if texts_equal(answer, "g") || texts_equal(answer, "G") {
        RemoteChoice::Create
    } else {
        RemoteChoice::Skip
    }
}

} // verus!
