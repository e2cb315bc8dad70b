//! Building, joining and transforming strings.
//!
//! A string is modelled by its view: the sequence of its characters.

use crate::reversal::reverse_vec;
use vstd::prelude::*;
use vstd::string::StringExecFns;

verus! {

/// The lowercase form of a sequence of characters, as the standard library
/// computes it from the Unicode character tables.
pub uninterp spec fn lowercase_of(s: Seq<char>) -> Seq<char>;

/// `String::push_str` appends the given slice to the end of the string and
/// leaves what was there before in front of it.
pub assume_specification[ String::push_str ](s: &mut String, string: &str)
    ensures
        final(s)@ == old(s)@ + string@,
;

/// `String::push` appends the one character to the end of the string.
pub assume_specification[ String::push ](s: &mut String, ch: char)
    ensures
        final(s)@ == old(s)@.push(ch),
;

/// `str::to_lowercase` returns the lowercase form of the slice as a new
/// string. The result depends on the characters alone; it is given a name
/// and not spelled out.
pub assume_specification[ str::to_lowercase ](s: &str) -> (r: String)
    ensures
        r@ == lowercase_of(s@),
;

/// `format!` with two `{}` placeholders and two string slices writes the first
/// slice and then the second, with nothing added.
#[verifier::external_body]
fn format_pair(a: &str, b: &str) -> (r: String)
    ensures
        r@ == a@ + b@,
{
    format!("{}{}", a, b)
}

/// Returns the greeting `Hello, World!`.
pub fn hello_world() -> (r: String)
    ensures
        r@ == "Hello, World!"@,
{
    "Hello, World!".to_owned()
}

/// Joins two strings with the `+` operator.
pub fn string_concat_a(a: &str, b: &str) -> (r: String)
    ensures
        r@ == a@ + b@,
{
    a.to_owned().concat(b)
}

/// Joins two strings by formatting them one after the other.
pub fn string_concat_b(a: &str, b: &str) -> (r: String)
    ensures
        r@ == a@ + b@,
{
    format_pair(a, b)
}

/// Joins two strings by appending the second to a copy of the first.
pub fn string_concat_c(a: &str, b: &str) -> (r: String)
    ensures
        r@ == a@ + b@,
{
    let mut result = a.to_owned();
    result.push_str(b);
    result
}

/// Converts a string to lower case.
pub fn lowercase(s: &str) -> (r: String)
    ensures
        r@ == lowercase_of(s@),
{
    s.to_lowercase()
}

/// Collects the characters of `s` in order.
fn chars_of(s: &str) -> (r: Vec<char>)
    ensures
        r@ == s@,
{
    let mut chars: Vec<char> = Vec::new();
    for c in it: s.chars()
        invariant
            it.seq() == s@,
            chars@.len() == it.index(),
            forall|j: int| 0 <= j < chars@.len() ==> chars@[j] == it.seq()[j],
    {
        chars.push(c);
    }
    assert(chars@ =~= s@);
    chars
}

/// Builds a string from the given characters in order.
fn string_of(chars: &Vec<char>) -> (r: String)
    ensures
        r@ == chars@,
{
    let mut out = String::new();
    let mut i: usize = 0;
    while i < chars.len()
        invariant
            i <= chars@.len(),
            out@ == chars@.take(i as int),
        decreases chars@.len() - i,
    {
        out.push(chars[i]);
        assert(chars@.take(i + 1) =~= chars@.take(i as int).push(chars@[i as int]));
        i += 1;
    }
    assert(chars@.take(i as int) =~= chars@);
    out
}

/// Reverses the characters of a string.
pub fn reverse(s: &str) -> (r: String)
    ensures
        r@ == s@.reverse(),
{
    let reversed = reverse_vec(chars_of(s));
    string_of(&reversed)
}

} // verus!
