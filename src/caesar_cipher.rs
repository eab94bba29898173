//! The cipher transform and its validated variants.
use vstd::arithmetic::div_mod::{
    lemma_add_mod_noop, lemma_add_mod_noop_right, lemma_fundamental_div_mod,
    lemma_mod_add_multiples_vanish, lemma_mod_multiples_vanish, lemma_mod_sub_multiples_vanish,
    lemma_mod_bound, lemma_small_mod,
};
use vstd::prelude::*;
use vstd::string::StringExecFns;

use crate::config::{ALPHABET_SIZE, LOWERCASE_BASE, MAX_SHIFT, UPPERCASE_BASE};

verus! {

/// `c` is one of `A`..=`Z`.
pub open spec fn is_upper(c: char) -> bool {
    'A' <= c && c <= 'Z'
}

/// `c` is one of `a`..=`z`.
pub open spec fn is_lower(c: char) -> bool {
    'a' <= c && c <= 'z'
}

/// The letter `shift` places after `c` in the 26-letter alphabet that starts at `base`,
/// wrapping around (Euclidean modulo, so any integer shift is allowed).
pub open spec fn rotate(c: char, base: int, shift: int) -> char {
    (base + (c as int - base + shift) % 26) as char
}

/// One character of the cipher: Latin letters rotate within their case, all else stays.
pub open spec fn shift_char(c: char, shift: int) -> char {
    if is_upper(c) {
        rotate(c, 'A' as int, shift)
    } else if is_lower(c) {
        rotate(c, 'a' as int, shift)
    } else {
        c
    }
}

/// The cipher on a whole text: each character shifted on its own.
pub open spec fn shift_text(t: Seq<char>, shift: int) -> Seq<char> {
    t.map_values(|c: char| shift_char(c, shift))
}

/// Shifts one character by a shift already reduced to `0..26`.
fn shift_one(c: char, normalized: i16) -> (r: char)
    requires
        0 <= normalized < ALPHABET_SIZE,
    ensures
        r == shift_char(c, normalized as int),
{
    if 'A' <= c && c <= 'Z' {
        let offset: i16 = (c as u32 as i16 - UPPERCASE_BASE + normalized) % ALPHABET_SIZE;
        ((offset + UPPERCASE_BASE) as u8) as char
    } else if 'a' <= c && c <= 'z' {
        let offset: i16 = (c as u32 as i16 - LOWERCASE_BASE + normalized) % ALPHABET_SIZE;
        ((offset + LOWERCASE_BASE) as u8) as char
    } else {
        c
    }
}

/// Shifts that agree modulo 26 shift every character alike.
pub proof fn lemma_shift_char_congruent(c: char, s: int, k: int)
    requires
        s % 26 == k % 26,
    ensures
        shift_char(c, s) == shift_char(c, k),
{
    lemma_add_mod_noop_right(c as int - 'A' as int, s, 26);
    lemma_add_mod_noop_right(c as int - 'A' as int, k, 26);
    lemma_add_mod_noop_right(c as int - 'a' as int, s, 26);
    lemma_add_mod_noop_right(c as int - 'a' as int, k, 26);
}

/// Reduces a shift to its residue in `0..26` (Euclidean modulo), for every `i16`.
fn normalize_shift(shift: i16) -> (r: i16)
    ensures
        r as int == shift as int % 26,
        0 <= r < ALPHABET_SIZE,
{
    match shift.checked_rem_euclid(ALPHABET_SIZE) {
        Some(r) => r,
        None => 0,
    }
}

/// Relies on `String::from_iter` over `char`s: the string holds those characters, in order.
#[verifier::external_body]
fn string_from_chars(chars: Vec<char>) -> (r: String)
    ensures
        r@ == chars@,
{
    String::from_iter(chars)
}

/// Shifts every Latin letter of `text` by `shift` places within its case.
fn encrypt_char(text: &str, shift: i16) -> (r: String)
    ensures
        r@ == shift_text(text@, shift as int),
{
    broadcast use vstd::string::group_string_axioms;

    let normalized = normalize_shift(shift);
    let mut out: Vec<char> = Vec::new();
    for c in it: text.chars()
        invariant
            0 <= normalized < ALPHABET_SIZE,
            normalized as int == shift as int % 26,
            it.seq() == text@,
            out@ == shift_text(text@.take(it.index()), shift as int),
    {
        let d = shift_one(c, normalized);
        proof {
            lemma_shift_char_congruent(c, normalized as int, shift as int);
            assert(text@.take(it.index() + 1) == text@.take(it.index()).push(c));
        }
        out.push(d);
    }
    proof {
        assert(text@.take(text@.len() as int) == text@);
    }
    string_from_chars(out)
}

/// Shifts that agree modulo 26 give the same text.
pub proof fn lemma_shift_text_congruent(t: Seq<char>, s: int, k: int)
    requires
        s % 26 == k % 26,
    ensures
        shift_text(t, s) == shift_text(t, k),
{
    assert forall|i: int| 0 <= i < t.len() implies shift_text(t, s)[i] == shift_text(t, k)[i] by {
        lemma_shift_char_congruent(t[i], s, k);
    }
    assert(shift_text(t, s) =~= shift_text(t, k));
}

/// The residue `26 - (s mod 26)` is a shift by `-s`.
proof fn lemma_negated_residue(s: int)
    ensures
        (26 - s % 26) % 26 == (-s) % 26,
{
    lemma_fundamental_div_mod(s, 26);
    lemma_mod_multiples_vanish(-(s / 26) - 1, 26 - s % 26, 26);
}

/// Rotating by `s` and then by `-s` within one case gives the letter back.
proof fn lemma_rotate_back(c: char, base: int, s: int)
    requires
        base <= (c as int) < base + 26,
        base == 'A' as int || base == 'a' as int,
    ensures
        base <= (rotate(c, base, s) as int) < base + 26,
        rotate(rotate(c, base, s), base, -s) == c,
{
    let x = c as int - base;
    let y = (x + s) % 26;
    lemma_mod_bound(x + s, 26);
    assert(rotate(c, base, s) as int == base + y);
    lemma_add_mod_noop(x + s, -s, 26);
    lemma_add_mod_noop_right((x + s) % 26, -s, 26);
    lemma_small_mod(x as nat, 26);
}

/// The cipher never changes the length of a text.
pub proof fn lemma_length_preserved(t: Seq<char>, s: int)
    ensures
        shift_text(t, s).len() == t.len(),
{
}

/// Shifting by `s` and then by `-s` (decrypting what was encrypted, or encrypting with
/// the negated shift) gives the text back, in either order.
pub proof fn lemma_round_trip(t: Seq<char>, s: int)
    ensures
        shift_text(shift_text(t, s), -s) == t,
        shift_text(shift_text(t, -s), s) == t,
{
    assert forall|i: int| 0 <= i < t.len() implies shift_text(shift_text(t, s), -s)[i] == t[i]
        && shift_text(shift_text(t, -s), s)[i] == t[i] by {
        let c = t[i];
        if is_upper(c) {
            lemma_rotate_back(c, 'A' as int, s);
            lemma_rotate_back(c, 'A' as int, -s);
        } else if is_lower(c) {
            lemma_rotate_back(c, 'a' as int, s);
            lemma_rotate_back(c, 'a' as int, -s);
        }
    }
    assert(shift_text(shift_text(t, s), -s) =~= t);
    assert(shift_text(shift_text(t, -s), s) =~= t);
}

/// An uppercase letter stays uppercase and a lowercase letter stays lowercase, and
/// no other character becomes a letter.
pub proof fn lemma_case_preserved(t: Seq<char>, s: int)
    ensures
        forall|i: int|
            0 <= i < t.len() ==> (is_upper(t[i]) <==> is_upper(#[trigger] shift_text(t, s)[i]))
                && (is_lower(t[i]) <==> is_lower(shift_text(t, s)[i])),
{
    assert forall|i: int| 0 <= i < t.len() implies (is_upper(t[i]) <==> is_upper(
        #[trigger] shift_text(t, s)[i],
    )) && (is_lower(t[i]) <==> is_lower(shift_text(t, s)[i])) by {
        let c = t[i];
        if is_upper(c) {
            lemma_rotate_back(c, 'A' as int, s);
        } else if is_lower(c) {
            lemma_rotate_back(c, 'a' as int, s);
        }
    }
}

/// Every character outside `A`..=`Z` and `a`..=`z` is copied unchanged.
pub proof fn lemma_non_letters_kept(t: Seq<char>, s: int)
    ensures
        forall|i: int|
            0 <= i < t.len() && !is_upper(t[i]) && !is_lower(t[i]) ==> #[trigger] shift_text(
                t,
                s,
            )[i] == t[i],
{
}

/// Shifts 26 apart encrypt alike.
pub proof fn lemma_periodic(t: Seq<char>, s: int)
    ensures
        shift_text(t, s) == shift_text(t, s + 26),
        shift_text(t, s) == shift_text(t, s - 26),
{
    lemma_mod_add_multiples_vanish(s, 26);
    lemma_mod_sub_multiples_vanish(s, 26);
    lemma_shift_text_congruent(t, s, s + 26);
    lemma_shift_text_congruent(t, s, s - 26);
}

/// Encrypts `text`: each Latin letter moves `shift` places forward (backward when
/// negative) within its case, wrapping around; every other character is kept.
/// Any shift is accepted and reduced modulo 26.
pub fn encrypt(text: &str, shift: i16) -> (r: String)
    ensures
        r@ == shift_text(text@, shift as int),
        r@.len() == text@.len(),
{
    encrypt_char(text, shift)
}

/// Decrypts `text`: the same as encrypting with the shift negated. Any shift is
/// accepted, `i16::MIN` included.
pub fn decrypt(text: &str, shift: i16) -> (r: String)
    ensures
        r@ == shift_text(text@, -(shift as int)),
        r@.len() == text@.len(),
{
    let normalized = normalize_shift(shift);
    let inverse: i16 = ALPHABET_SIZE - normalized;
    proof {
        lemma_negated_residue(shift as int);
        lemma_shift_text_congruent(text@, inverse as int, -(shift as int));
    }
    encrypt_char(text, inverse)
}

/// What can go wrong in the validated functions.
#[derive(Debug, Clone, PartialEq, Eq)]
pub enum CipherError {
    /// The shift lies outside `-25..=25`; the message names the value and the bound.
    InvalidShift(String),
    /// The text is empty.
    EmptyText,
}

/// The character of a decimal digit `0..10`.
pub open spec fn digit_char(d: int) -> char {
    ('0' as int + d) as char
}

/// The decimal digits of `n`, most significant first, with no leading zero.
pub open spec fn digits(n: nat) -> Seq<char>
    decreases n,
{
    if n < 10 {
        seq![digit_char(n as int)]
    } else {
        digits(n / 10) + seq![digit_char((n % 10) as int)]
    }
}

/// `n` written in decimal, with a leading `-` when negative.
pub open spec fn decimal(n: int) -> Seq<char> {
    if n < 0 {
        seq!['-'] + digits((-n) as nat)
    } else {
        digits(n as nat)
    }
}

/// The message of `InvalidShift` for the offending value `shift`.
pub open spec fn invalid_shift_message(shift: int) -> Seq<char> {
    "Shift value "@ + decimal(shift) + " is out of range (-"@ + decimal(25) + " to "@
        + decimal(25) + ")"@
}

/// How an error reads to a user.
pub open spec fn error_text(e: CipherError) -> Seq<char> {
    match e {
        CipherError::InvalidShift(m) => "Invalid shift value: "@ + m@,
        CipherError::EmptyText => "Input text cannot be empty"@,
    }
}

/// The validated functions accept shifts whose magnitude is at most 25.
pub open spec fn shift_in_range(shift: int) -> bool {
    -25 <= shift <= 25
}

/// Relies on `i16`'s `Display` (through `to_string`): plain decimal, `-` before negatives.
#[verifier::external_body]
fn decimal_string(n: i16) -> (r: String)
    ensures
        r@ == decimal(n as int),
{
    n.to_string()
}

/// The message of `InvalidShift` for `shift`.
fn invalid_shift_text(shift: i16) -> (r: String)
    ensures
        r@ == invalid_shift_message(shift as int),
{
    let bound = decimal_string(MAX_SHIFT);
    let mut m = String::from_str("Shift value ");
    m.append(decimal_string(shift).as_str());
    m.append(" is out of range (-");
    m.append(bound.as_str());
    m.append(" to ");
    m.append(bound.as_str());
    m.append(")");
    m
}

impl CipherError {
    /// The error as a user reads it.
    pub fn to_string(&self) -> (r: String)
        ensures
            r@ == error_text(*self),
    {
        match self {
            CipherError::InvalidShift(m) => String::from_str("Invalid shift value: ").concat(
                m.as_str(),
            ),
            CipherError::EmptyText => String::from_str("Input text cannot be empty"),
        }
    }
}

/// Encrypts `text` after checking it: an empty text gives `EmptyText` (whatever the
/// shift), else a shift outside `-25..=25` gives `InvalidShift`, else the result of
/// `encrypt`.
pub fn encrypt_safe(text: &str, shift: i16) -> (r: Result<String, CipherError>)
    ensures
        text@.len() == 0 ==> r == Err::<String, CipherError>(CipherError::EmptyText),
        text@.len() > 0 && !shift_in_range(shift as int) ==> (r matches Err(
            CipherError::InvalidShift(m),
        ) && m@ == invalid_shift_message(shift as int)),
        text@.len() > 0 && shift_in_range(shift as int) ==> (r matches Ok(v) && v@ == shift_text(
            text@,
            shift as int,
        )),
{
    if text.is_empty() {
        return Err(CipherError::EmptyText);
    }
    if shift > MAX_SHIFT || shift < -MAX_SHIFT {
        return Err(CipherError::InvalidShift(invalid_shift_text(shift)));
    }
    Ok(encrypt_char(text, shift))
}

/// Decrypts `text` after the checks of `encrypt_safe`, made on the shift as given
/// (so `i16::MIN` is rejected, and named in the message, without overflow).
pub fn decrypt_safe(text: &str, shift: i16) -> (r: Result<String, CipherError>)
    ensures
        text@.len() == 0 ==> r == Err::<String, CipherError>(CipherError::EmptyText),
        text@.len() > 0 && !shift_in_range(shift as int) ==> (r matches Err(
            CipherError::InvalidShift(m),
        ) && m@ == invalid_shift_message(shift as int)),
        text@.len() > 0 && shift_in_range(shift as int) ==> (r matches Ok(v) && v@ == shift_text(
            text@,
            -(shift as int),
        )),
{
    if text.is_empty() {
        return Err(CipherError::EmptyText);
    }
    if shift > MAX_SHIFT || shift < -MAX_SHIFT {
        return Err(CipherError::InvalidShift(invalid_shift_text(shift)));
    }
    Ok(encrypt_char(text, -shift))
}

} // verus!
