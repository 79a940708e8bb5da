//! The two conversions of the standard library that matching rests on: the
//! lowercase form of a text, and the text that a run of bytes stands for.
use vstd::prelude::*;
use vstd::utf8::*;

use crate::text;

verus! {

/// ASCII characters and the CJK unified ideographs: the characters whose
/// lowercase form is settled without Unicode's case tables.
pub open spec fn is_plain(c: char) -> bool {
    (c as u32) < 0x80 || 0x4e00 <= (c as u32) <= 0x9fff
}

pub open spec fn all_plain(text: Seq<char>) -> bool {
    forall|i: int| 0 <= i < text.len() ==> is_plain(#[trigger] text[i])
}

/// `A` to `Z` become `a` to `z`; every other character stays.
pub open spec fn plain_lower_char(c: char) -> char {
    if 'A' <= c <= 'Z' {
        ((c as u32) + 32) as char
    } else {
        c
    }
}

pub open spec fn plain_lower(text: Seq<char>) -> Seq<char> {
    Seq::new(text.len(), |i: int| plain_lower_char(text[i]))
}

/// `variant` is `word` but for the case of ASCII letters, and both consist of
/// plain characters.
pub open spec fn same_word(variant: Seq<char>, word: Seq<char>) -> bool {
    &&& all_plain(variant)
    &&& all_plain(word)
    &&& plain_lower(variant) == plain_lower(word)
}

/// Some stretch of `text` is `word` but for the case of ASCII letters.
pub open spec fn shows(text: Seq<char>, word: Seq<char>) -> bool {
    exists|i: int, j: int|
        0 <= i <= j <= text.len() && same_word(#[trigger] text.subrange(i, j), word)
}

/// Some stretch of `bytes` is the UTF-8 form of `word` but for the case of
/// ASCII letters.
pub open spec fn bytes_show(bytes: Seq<u8>, word: Seq<char>) -> bool {
    exists|i: int, j: int|
        0 <= i <= j <= bytes.len() && valid_utf8(#[trigger] bytes.subrange(i, j)) && same_word(
            decode_utf8(bytes.subrange(i, j)),
            word,
        )
}

/// What `str::to_lowercase` makes of a text.
pub uninterp spec fn lowercase(text: Seq<char>) -> Seq<char>;

/// `str::to_lowercase` gives the lowercase equivalent of the text. Within it,
/// ASCII letters are lowered and text without case is not changed: a text of
/// plain characters comes out as its [`plain_lower`] form, and so does each
/// stretch of plain characters inside a longer text. The case that an ASCII
/// letter had leaves no trace, so lowering the ASCII letters beforehand makes no
/// difference. What becomes of other characters is left to Unicode's tables and
/// not said here.
pub assume_specification[ str::to_lowercase ](s: &str) -> (r: String)
    ensures
        r@ == lowercase(s@),
        r@ == lowercase(plain_lower(s@)),
        all_plain(s@) ==> r@ == plain_lower(s@),
        forall|i: int, j: int|
            0 <= i <= j <= s@.len() && all_plain(#[trigger] s@.subrange(i, j)) ==> text::occurs(
                r@,
                plain_lower(s@.subrange(i, j)),
            ),
;

/// The text that `String::from_utf8_lossy` reads in a run of bytes.
pub uninterp spec fn lossy_text(bytes: Seq<u8>) -> Seq<char>;

/// `String::from_utf8_lossy` reads bytes as UTF-8 and puts U+FFFD in the place
/// of what is not UTF-8: valid bytes give the text that they encode, and so
/// does each valid stretch within invalid surroundings. How many replacement
/// characters stand for an invalid stretch is not said here.
#[verifier::external_body]
pub(crate) fn read_lossy(bytes: &[u8]) -> (r: String)
    ensures
        r@ == lossy_text(bytes@),
        valid_utf8(bytes@) ==> r@ == decode_utf8(bytes@),
        forall|i: int, j: int|
            0 <= i <= j <= bytes@.len() && valid_utf8(#[trigger] bytes@.subrange(i, j)) ==> text::occurs(
                r@,
                decode_utf8(bytes@.subrange(i, j)),
            ),
{
    String::from_utf8_lossy(bytes).into_owned()
}

} // verus!
