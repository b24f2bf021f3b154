//! Characters and strings for on-disk names: UTF-16 code units decoded to
//! characters, string building, and the ASCII case-insensitive comparison
//! used for path matching.

use vstd::prelude::*;

verus! {

/// The character a single UTF-16 code unit stands for: itself, or the
/// replacement character for a surrogate, which cannot stand alone.
pub open spec fn char_of_unit(u: u16) -> char {
    if 0xD800 <= u < 0xE000 {
        '\u{FFFD}'
    } else {
        u as char
    }
}

/// Relies on `char::from_u32`: it returns the character with the given code
/// for every value that is not a surrogate, and `None` on surrogates.
#[verifier::external_body]
pub fn unit_char(u: u16) -> (c: char)
    ensures
        c == char_of_unit(u),
{
    char::from_u32(u as u32).unwrap_or('\u{FFFD}')
}

/// Relies on `String::push`: it appends exactly the given character.
#[verifier::external_body]
pub fn push_char(s: &mut String, c: char)
    ensures
        final(s)@ == old(s)@.push(c),
{
    s.push(c);
}

/// Builds a string from a sequence of characters.
pub fn chars_to_string(v: &Vec<char>) -> (r: String)
    ensures
        r@ == v@,
{
    let mut r = String::new();
    let mut i: usize = 0;
    while i < v.len()
        invariant
            i <= v@.len(),
            r@ == v@.take(i as int),
        decreases v@.len() - i,
    {
        push_char(&mut r, v[i]);
        proof {
            assert(r@ =~= v@.take(i + 1));
        }
        i = i + 1;
    }
    proof {
        assert(v@.take(v@.len() as int) =~= v@);
    }
    r
}

/// A character code with an ASCII lower-case letter mapped to its upper-case
/// counterpart.
pub open spec fn spec_upper_code(x: u32) -> u32 {
    if 97 <= x <= 122 {
        (x - 32) as u32
    } else {
        x
    }
}

/// Maps an ASCII lower-case letter code to upper case.
pub fn upper_code(x: u32) -> (r: u32)
    ensures
        r == spec_upper_code(x),
{
    if 97 <= x && x <= 122 {
        x - 32
    } else {
        x
    }
}

/// Two characters are equal up to ASCII case.
pub open spec fn chars_ieq(a: char, b: char) -> bool {
    spec_upper_code(a as u32) == spec_upper_code(b as u32)
}

/// Two character sequences are equal up to ASCII case.
pub open spec fn seq_ieq(a: Seq<char>, b: Seq<char>) -> bool {
    &&& a.len() == b.len()
    &&& forall|i: int| 0 <= i < a.len() ==> chars_ieq(a[i], b[i])
}

/// Compares two strings, treating ASCII letters case-insensitively.
pub fn str_ieq(a: &str, b: &str) -> (r: bool)
    ensures
        r == seq_ieq(a@, b@),
{
    let alen = a.unicode_len();
    let blen = b.unicode_len();
    if alen != blen {
        return false;
    }
    let mut i: usize = 0;
    while i < alen
        invariant
            i <= alen,
            alen == a@.len(),
            alen == b@.len(),
            forall|k: int| 0 <= k < i ==> chars_ieq(a@[k], b@[k]),
        decreases alen - i,
    {
        let ca = a.get_char(i);
        let cb = b.get_char(i);
        if upper_code(ca as u32) != upper_code(cb as u32) {
            return false;
        }
        i = i + 1;
    }
    true
}

} // verus!
