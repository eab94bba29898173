//! Constants of the cipher and of its command-line front end.
use vstd::prelude::*;

verus! {

/// Size of the Latin alphabet (A-Z).
pub const ALPHABET_SIZE: i16 = 26;

/// Largest shift magnitude that the validated functions accept.
pub const MAX_SHIFT: i16 = 25;

/// Code point of uppercase 'A'.
pub const UPPERCASE_BASE: i16 = 65;

/// Code point of lowercase 'a'.
pub const LOWERCASE_BASE: i16 = 97;

/// Largest shift tried by the brute-force decryption.
pub const MAX_BRUTE_FORCE_SHIFT: i16 = 25;

/// Shift used when an interactive shift value cannot be parsed.
pub const DEFAULT_SHIFT: i16 = 3;

} // verus!
