use vstd::prelude::*;

verus! {

/// Relies on `str`'s `PartialEq`: two string slices are equal exactly when
/// their character sequences are equal.
#[verifier::external_body]
pub(crate) fn str_eq(a: &str, b: &str) -> (r: bool)
    ensures
        r == (a@ == b@),
{
    a == b
}

/// Relies on `String`'s `FromIterator<char>`: collecting characters yields a
/// string holding exactly those characters, in order.
#[verifier::external_body]
pub(crate) fn chars_to_string(chars: &Vec<char>) -> (r: String)
    ensures
        r@ == chars@,
{
    chars.iter().collect()
}

/// Relies on slice indexing: returns the character at the given position.
/// (Indexing a character slice directly leaves the result's character
/// typing unknown to the verifier.)
#[verifier::external_body]
pub(crate) fn char_at(s: &[char], i: usize) -> (r: char)
    requires
        i < s@.len(),
    ensures
        r == s@[i as int],
{
    s[i]
}

/// Relies on dereferencing a `char` reference. (Reading a character through
/// a reference leaves the result's character typing unknown to the
/// verifier.)
#[verifier::external_body]
pub(crate) fn char_copy(c: &char) -> (r: char)
    ensures
        r == *c,
{
    *c
}

/// Relies on `str::chars`: the characters of the string, in order.
#[verifier::external_body]
pub(crate) fn str_chars(s: &str) -> (r: Vec<char>)
    ensures
        r@ == s@,
{
    s.chars().collect()
}

/// Relies on `char`'s `PartialEq`: two characters are equal exactly when
/// they are the same character.
#[verifier::external_body]
pub(crate) fn char_eq(a: char, b: char) -> (r: bool)
    ensures
        r == (a == b),
{
    a == b
}

/// Relies on `str::to_owned` through `to_string`: the owned copy holds the
/// same characters.
#[verifier::external_body]
pub(crate) fn str_to_string(s: &str) -> (r: String)
    ensures
        r@ == s@,
{
    s.to_owned()
}

/// Relies on `String`'s `FromIterator<char>` and `String::into_bytes`: the
/// UTF-8 encoding of exactly the given characters.
#[verifier::external_body]
pub(crate) fn chars_to_bytes(chars: &Vec<char>) -> (r: Vec<u8>)
    ensures
        r@ == vstd::utf8::encode_utf8(chars@),
{
    let s: String = chars.iter().collect();
    s.into_bytes()
}

} // verus!
