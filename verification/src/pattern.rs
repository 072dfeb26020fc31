//! Regular expressions, as far as the library needs them.
use vstd::prelude::*;
use crate::text::is_number;

verus! {

/// Compiles `pattern` with `regex::Regex::new` and searches `text` with
/// `Regex::is_match`. The result is `None` where the pattern does not compile.
///
/// Only one pattern is specified here: `^[0-9]+$`. The crate documents `^` as
/// the beginning and `$` as the end of the text, `[0-9]` as any ASCII digit and
/// `x+` as one or more of `x`; so this pattern matches exactly the texts that
/// are one or more of the digits `0` to `9` and nothing else.
#[verifier::external_body]
fn is_match(pattern: &str, text: &str) -> (r: Option<bool>)
    ensures
        pattern@ == "^[0-9]+$"@ ==> r == Some(is_number(text@)),
{
    match regex::Regex::new(pattern) {
        Ok(compiled) => Some(compiled.is_match(text)),
        Err(_) => None,
    }
}

/// Whether `key` is a number: one or more decimal digits and nothing else.
pub fn is_numeric_key(key: &str) -> (r: bool)
    ensures
        r == is_number(key@),
{
    match is_match("^[0-9]+$", key) {
        Some(found) => found,
        None => false,
    }
}

} // verus!
