//! UTF-16, the encoding in which the registry keeps strings.
use vstd::prelude::*;

verus! {

/// The UTF-16 code units of one character: the character itself below
/// `0x10000`, a high and a low surrogate from there on.
pub open spec fn utf16_units(c: char) -> Seq<u16> {
    let n = c as int;
    if n < 0x10000 {
        seq![n as u16]
    } else {
        seq![(0xD800 + (n - 0x10000) / 0x400) as u16, (0xDC00 + (n - 0x10000) % 0x400) as u16]
    }
}

/// The UTF-16 code units of a string.
pub open spec fn utf16(s: Seq<char>) -> Seq<u16>
    decreases s.len(),
{
    if s.len() == 0 {
        Seq::empty()
    } else {
        utf16(s.drop_last()) + utf16_units(s.last())
    }
}

/// `utfx::U16CString::from_str` encodes `text` in UTF-16 and refuses a text
/// that holds a nul; `U16CString::into_vec` then gives the code units without
/// the terminating nul.
///
/// The result is `None` exactly where `text` holds the character nul, and
/// else the UTF-16 code units of `text`.
#[verifier::external_body]
pub(crate) fn wide_string(text: &str) -> (r: Option<Vec<u16>>)
    ensures
        match r {
            Some(units) => !text@.contains('\0') && units@ == utf16(text@),
            None => text@.contains('\0'),
        },
{
    match utfx::U16CString::from_str(text) {
        Ok(wide) => Some(wide.into_vec()),
        Err(_) => None,
    }
}

} // verus!
