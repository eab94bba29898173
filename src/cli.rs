//! The decisions of the command-line front end, apart from its I/O: where the input
//! text comes from, which cipher call a command makes, the brute-force candidates, and
//! what an interactive menu answer asks for.
use vstd::prelude::*;
use vstd::string::StringExecFns;

use crate::caesar_cipher::{
    decrypt, decrypt_safe, encrypt, encrypt_safe, invalid_shift_message, shift_in_range,
    shift_text, CipherError,
};
use crate::config::MAX_BRUTE_FORCE_SHIFT;

verus! {

/// A parsed command line.
pub struct Cli {
    pub command: Commands,
}

/// The commands of the command line.
pub enum Commands {
    /// Encrypt a text given directly, read from a file, or prompted for.
    Encrypt {
        text: Option<String>,
        file: Option<String>,
        shift: i16,
        output: Option<String>,
        safe: bool,
    },
    /// Decrypt a text given directly, read from a file, or prompted for.
    Decrypt {
        text: Option<String>,
        file: Option<String>,
        shift: i16,
        output: Option<String>,
        safe: bool,
    },
    /// Repeated operations on prompted input.
    Interactive,
    /// Every decryption of a text, one per shift.
    BruteForce { text: Option<String>, file: Option<String> },
}

/// Which way the cipher runs.
#[derive(Clone, Copy, Debug, PartialEq, Eq, Structural)]
pub enum Direction {
    Encrypt,
    Decrypt,
}

/// Where the input text of a command comes from.
#[derive(Debug, Clone, PartialEq, Eq)]
pub enum InputSource {
    /// The text itself, given on the command line.
    Text(String),
    /// A file to read the text from.
    File(String),
    /// Neither was given: ask for a line.
    Prompt,
}

/// A command line that names its input twice.
#[derive(Clone, Copy, Debug, PartialEq, Eq, Structural)]
pub enum InputError {
    BothTextAndFile,
}

/// What an answer at the interactive menu asks for.
#[derive(Clone, Copy, Debug, PartialEq, Eq, Structural)]
pub enum MenuChoice {
    Encrypt,
    Decrypt,
    BruteForce,
    Quit,
    Invalid,
}

/// The shift that `direction` applies for a given shift value.
pub open spec fn directed_shift(direction: Direction, shift: int) -> int {
    match direction {
        Direction::Encrypt => shift,
        Direction::Decrypt => -shift,
    }
}

/// How a user reads an `InputError`.
pub open spec fn input_error_text(e: InputError) -> Seq<char> {
    match e {
        InputError::BothTextAndFile => "Cannot specify both text and file"@,
    }
}

impl InputError {
    /// The error as a user reads it.
    pub fn to_string(&self) -> (r: String)
        ensures
            r@ == input_error_text(*self),
    {
        match self {
            InputError::BothTextAndFile => String::from_str("Cannot specify both text and file"),
        }
    }
}

/// Picks the input of a command: the text when only it is given, the file when only
/// it is given, a prompt when neither is, and an error when both are.
pub fn input_source(text: Option<String>, file: Option<String>) -> (r: Result<
    InputSource,
    InputError,
>)
    ensures
        text is Some && file is Some ==> r == Err::<InputSource, InputError>(
            InputError::BothTextAndFile,
        ),
        text is Some && file is None ==> (r matches Ok(InputSource::Text(t)) && t@ == text->0@),
        text is None && file is Some ==> (r matches Ok(InputSource::File(f)) && f@ == file->0@),
        text is None && file is None ==> r == Ok::<InputSource, InputError>(InputSource::Prompt),
{
    match (text, file) {
        (Some(t), None) => Ok(InputSource::Text(t)),
        (None, Some(f)) => Ok(InputSource::File(f)),
        (Some(_), Some(_)) => Err(InputError::BothTextAndFile),
        (None, None) => Ok(InputSource::Prompt),
    }
}

/// Runs the cipher as an encrypt or decrypt command does: the checked function when
/// `safe` is set, the permissive one otherwise.
pub fn run_cipher(direction: Direction, text: &str, shift: i16, safe: bool) -> (r: Result<
    String,
    CipherError,
>)
    ensures
        !safe || (text@.len() > 0 && shift_in_range(shift as int)) ==> (r matches Ok(v) && v@
            == shift_text(text@, directed_shift(direction, shift as int))),
        safe && text@.len() == 0 ==> r == Err::<String, CipherError>(CipherError::EmptyText),
        safe && text@.len() > 0 && !shift_in_range(shift as int) ==> (r matches Err(
            CipherError::InvalidShift(m),
        ) && m@ == invalid_shift_message(shift as int)),
{
    match direction {
        Direction::Encrypt => if safe {
            encrypt_safe(text, shift)
        } else {
            Ok(encrypt(text, shift))
        },
        Direction::Decrypt => if safe {
            decrypt_safe(text, shift)
        } else {
            Ok(decrypt(text, shift))
        },
    }
}

/// Every candidate decryption of `text`: entry `i` is `text` decrypted with shift `i + 1`,
/// for the shifts `1..=25`.
pub fn brute_force(text: &str) -> (r: Vec<String>)
    ensures
        r@.len() == MAX_BRUTE_FORCE_SHIFT,
        forall|i: int| 0 <= i < r@.len() ==> #[trigger] r@[i]@ == shift_text(text@, -(i + 1)),
{
    let mut out: Vec<String> = Vec::new();
    let mut shift: i16 = 1;
    while shift <= MAX_BRUTE_FORCE_SHIFT
        invariant
            1 <= shift <= MAX_BRUTE_FORCE_SHIFT + 1,
            out@.len() == shift - 1,
            forall|i: int| 0 <= i < out@.len() ==> #[trigger] out@[i]@ == shift_text(text@, -(i + 1)),
        decreases MAX_BRUTE_FORCE_SHIFT + 1 - shift,
    {
        out.push(decrypt(text, shift));
        shift = shift + 1;
    }
    out
}

/// The menu entry that a normalised answer names.
pub open spec fn menu_choice_of(choice: Seq<char>) -> MenuChoice {
    if choice == "e"@ || choice == "encrypt"@ {
        MenuChoice::Encrypt
    } else if choice == "d"@ || choice == "decrypt"@ {
        MenuChoice::Decrypt
    } else if choice == "b"@ || choice == "brute"@ || choice == "bruteforce"@ {
        MenuChoice::BruteForce
    } else if choice == "q"@ || choice == "quit"@ {
        MenuChoice::Quit
    } else {
        MenuChoice::Invalid
    }
}

/// Whether `answer` holds exactly the characters of `word`.
fn is_word(answer: &String, word: &str) -> (r: bool)
    ensures
        r == (answer@ == word@),
{
    *answer == String::from_str(word)
}

/// The menu entry that an answer names, given the answer trimmed and in lower case:
/// `e`/`encrypt`, `d`/`decrypt`, `b`/`brute`/`bruteforce`, `q`/`quit`; anything else is
/// invalid.
pub fn menu_choice(choice: &str) -> (r: MenuChoice)
    ensures
        r == menu_choice_of(choice@),
{
    let answer = String::from_str(choice);
    if is_word(&answer, "e") || is_word(&answer, "encrypt") {
        MenuChoice::Encrypt
    } else if is_word(&answer, "d") || is_word(&answer, "decrypt") {
        MenuChoice::Decrypt
    } else if is_word(&answer, "b") || is_word(&answer, "brute") || is_word(&answer, "bruteforce") {
        MenuChoice::BruteForce
    } else if is_word(&answer, "q") || is_word(&answer, "quit") {
        MenuChoice::Quit
    } else {
        MenuChoice::Invalid
    }
}

} // verus!
