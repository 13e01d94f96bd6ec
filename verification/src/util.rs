//! Utilities shared by the whole crate: the error type for invalid
//! arguments, quote stripping for string literals, and the mapping from
//! language tags to [`Language`] values.

use vstd::prelude::*;

verus! {

pub use crate::Language;

/// Error returned when an argument does not designate anything the crate
/// supports, such as an unknown language tag.
#[derive(Debug, Clone, Copy, PartialEq, Eq, Structural)]
pub struct InvalidArgumentError;

impl InvalidArgumentError {
    /// A human-readable description of the error.
    pub fn message(&self) -> (r: String)
        ensures
            r@ == "Invalid argument received"@,
    {
        "Invalid argument received".to_owned()
    }
}

/// Relies on std's `str::chars` together with `Vec: FromIterator<char>`:
/// collecting the characters of a string yields them in order.
#[verifier::external_body]
pub(crate) fn chars_of(s: &str) -> (r: Vec<char>)
    ensures
        r@ == s@,
{
    s.chars().collect()
}

/// Relies on std's `String: FromIterator<char>`: collecting characters
/// yields the string made of exactly those characters.
#[verifier::external_body]
pub(crate) fn string_of(v: &Vec<char>) -> (r: String)
    ensures
        r@ == v@,
{
    v.iter().collect()
}

/// Compares two string slices for equality of their character sequences.
pub fn str_eq(a: &str, b: &str) -> (r: bool)
    ensures
        r == (a@ == b@),
{
    let sa = a.to_owned();
    let sb = b.to_owned();
    sa == sb
}

/// What [`strip_quotes`] returns: the argument with its first and last
/// character removed, or the empty sequence if it is shorter than two
/// characters.
pub open spec fn strip_quotes_spec(s: Seq<char>) -> Seq<char> {
    if s.len() >= 2 {
        s.subrange(1, s.len() - 1)
    } else {
        Seq::empty()
    }
}

/// Returns the argument with its leading and trailing character removed.
///
/// In practice this removes the quotes around a string literal, but the
/// function does not check which characters it removes.
pub fn strip_quotes(s: &str) -> (r: String)
    ensures
        r@ == strip_quotes_spec(s@),
{
    let cs = chars_of(s);
    let mut out: Vec<char> = Vec::new();
    if cs.len() >= 2 {
        let stop = cs.len() - 1;
        let mut i: usize = 1;
        while i < stop
            invariant
                1 <= i <= stop,
                stop == cs.len() - 1,
                cs.len() >= 2,
                out@ == cs@.subrange(1, i as int),
            decreases stop - i,
        {
            out.push(cs[i]);
            i = i + 1;
        }
    }
    assert(out@ =~= strip_quotes_spec(cs@));
    string_of(&out)
}

/// Which [`Language`] a tag such as `"python"` designates, if any.
pub open spec fn language_of_tag(s: Seq<char>) -> Option<Language> {
    if s == "python"@ {
        Some(Language::Python)
    } else if s == "js"@ || s == "javascript"@ {
        Some(Language::JavaScript)
    } else if s == "java"@ {
        Some(Language::Java)
    } else {
        None
    }
}

/// Returns the [`Language`] corresponding to the passed tag, or an
/// [`InvalidArgumentError`] if the tag matches no supported language.
pub fn language_string_to_enum(lang: &str) -> (r: Result<Language, InvalidArgumentError>)
    ensures
        match language_of_tag(lang@) {
            Some(l) => r == Ok::<Language, InvalidArgumentError>(l),
            None => r is Err,
        },
{
    if str_eq(lang, "python") {
        Ok(Language::Python)
    } else if str_eq(lang, "js") || str_eq(lang, "javascript") {
        Ok(Language::JavaScript)
    } else if str_eq(lang, "java") {
        Ok(Language::Java)
    } else {
        Err(InvalidArgumentError)
    }
}

} // verus!
