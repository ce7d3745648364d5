//! Which characters count as part of a word, for the boundaries of an
//! identifier.

use vstd::prelude::*;

verus! {

/// Whether `c` is an ASCII letter, an ASCII digit or the underscore.
pub open spec fn is_ascii_word(c: char) -> bool {
    ('0' <= c && c <= '9') || ('a' <= c && c <= 'z') || ('A' <= c && c <= 'Z') || c == '_'
}

/// Whether a character beyond ASCII is a word character of Unicode.
pub uninterp spec fn is_word_beyond_ascii(c: char) -> bool;

/// Whether `c` is a word character: within ASCII the letters, the digits
/// and the underscore, beyond it what Unicode says.
pub open spec fn is_word(c: char) -> bool {
    if c <= '\u{7f}' {
        is_ascii_word(c)
    } else {
        is_word_beyond_ascii(c)
    }
}

/// `regex_syntax::is_word_character`: whether `c` is a Unicode word
/// character, which is a character with the property Alphabetic or
/// Join_Control or of the category Decimal_Number, Mark or
/// Connector_Punctuation. Within ASCII these are the letters, the digits and
/// the underscore. The function panics only without the Unicode tables of
/// the crate, which this library always asks for.
#[verifier::external_body]
pub(crate) fn is_word_character(c: char) -> (word: bool)
    ensures
        word == if c <= '\u{7f}' {
            is_ascii_word(c)
        } else {
            is_word_beyond_ascii(c)
        },
{
    regex_syntax::is_word_character(c)
}

} // verus!
