//! What the library takes from std's strings.
use vstd::prelude::*;
use vstd::utf8::{decode_utf8, encode_utf8, is_ascii_chars, valid_utf8};

verus! {

/// The upper-case form of an ASCII character: the letters `a` to `z` become
/// `A` to `Z`, every other character stays.
pub open spec fn ascii_uppercase_char(c: char) -> char {
    if 'a' <= c <= 'z' {
        ((c as u32 - 0x20) as u32) as char
    } else {
        c
    }
}

/// The lower-case form of an ASCII character: the letters `A` to `Z` become
/// `a` to `z`, every other character stays.
pub open spec fn ascii_lowercase_char(c: char) -> char {
    if 'A' <= c <= 'Z' {
        ((c as u32 + 0x20) as u32) as char
    } else {
        c
    }
}

/// The upper-case form of a string of ASCII characters.
pub open spec fn ascii_uppercase(s: Seq<char>) -> Seq<char> {
    s.map_values(|c: char| ascii_uppercase_char(c))
}

/// The lower-case form of a string of ASCII characters.
pub open spec fn ascii_lowercase(s: Seq<char>) -> Seq<char> {
    s.map_values(|c: char| ascii_lowercase_char(c))
}

/// What `str::to_uppercase` makes of a string that holds a character
/// outside ASCII: Unicode's upper-case mapping, character by character,
/// where one character may become several.
pub uninterp spec fn unicode_uppercase(s: Seq<char>) -> Seq<char>;

/// The upper-case form of a string.
pub open spec fn uppercase(s: Seq<char>) -> Seq<char> {
    if is_ascii_chars(s) {
        ascii_uppercase(s)
    } else {
        unicode_uppercase(s)
    }
}

/// `str::to_uppercase` of std. On a string of ASCII characters alone it
/// turns the letters `a` to `z` into `A` to `Z` and keeps the rest; on any
/// other string it gives Unicode's upper-case form, which is only named
/// here.
pub assume_specification[ str::to_uppercase ](s: &str) -> (r: String)
    ensures
        is_ascii_chars(s@) ==> r@ == ascii_uppercase(s@),
        !is_ascii_chars(s@) ==> r@ == unicode_uppercase(s@),
;

/// Putting a string of ASCII characters in upper case or in lower case
/// first does not change its upper-case form.
pub proof fn lemma_uppercase_absorbs_case(s: Seq<char>)
    requires
        is_ascii_chars(s),
    ensures
        is_ascii_chars(ascii_lowercase(s)),
        is_ascii_chars(ascii_uppercase(s)),
        uppercase(ascii_lowercase(s)) == uppercase(s),
        uppercase(ascii_uppercase(s)) == uppercase(s),
{
    let lower = ascii_lowercase(s);
    let upper = ascii_uppercase(s);
    assert forall|i: int| 0 <= i < s.len() implies '\0' <= #[trigger] lower[i] <= '\u{7f}'
        && ascii_uppercase_char(lower[i]) == upper[i] by {
        assert('\0' <= s[i] <= '\u{7f}');
    }
    assert forall|i: int| 0 <= i < s.len() implies '\0' <= #[trigger] upper[i] <= '\u{7f}'
        && ascii_uppercase_char(upper[i]) == upper[i] by {
        assert('\0' <= s[i] <= '\u{7f}');
    }
    assert(ascii_uppercase(lower) =~= upper);
    assert(ascii_uppercase(upper) =~= upper);
}

/// `std::str::from_utf8`: the text that `bytes` encode, where they are
/// valid UTF-8, and nothing where they are not.
#[verifier::external_body]
pub(crate) fn utf8_text(bytes: &[u8]) -> (r: Option<&str>)
    ensures
        match r {
            Some(text) => valid_utf8(bytes@) && text@ == decode_utf8(bytes@),
            None => !valid_utf8(bytes@),
        },
{
    std::str::from_utf8(bytes).ok()
}

/// A line as it is listed: without the carriage return that may stand
/// before the line feed.
pub open spec fn without_carriage_return(line: Seq<char>) -> Seq<char> {
    if line.len() > 0 && line.last() == '\r' {
        line.drop_last()
    } else {
        line
    }
}

/// The lines of `text` from the `at`-th character on, where the line that
/// is being read started at `start`.
pub open spec fn lines_from(text: Seq<char>, start: int, at: int) -> Seq<Seq<char>>
    decreases text.len() - at,
{
    if at >= text.len() {
        if start < text.len() {
            seq![text.subrange(start, text.len() as int)]
        } else {
            Seq::empty()
        }
    } else if text[at] == '\n' {
        seq![without_carriage_return(text.subrange(start, at))] + lines_from(text, at + 1, at + 1)
    } else {
        lines_from(text, start, at + 1)
    }
}

/// The lines of `text`. A line ends at a line feed, or at a carriage return
/// followed by a line feed; neither belongs to the line. What follows the
/// last line feed is a line too, as it stands, unless it is empty.
pub open spec fn lines_of(text: Seq<char>) -> Seq<Seq<char>> {
    lines_from(text, 0, 0)
}

/// The texts that a row of strings holds.
pub open spec fn texts_of(strings: Seq<String>) -> Seq<Seq<char>> {
    Seq::new(strings.len(), |i: int| strings[i]@)
}

/// Splits `text` into its lines.
pub fn split_lines(text: &str) -> (lines: Vec<String>)
    ensures
        texts_of(lines@) == lines_of(text@),
{
    let mut lines: Vec<String> = Vec::new();
    let len: usize = text.unicode_len();
    let mut start: usize = 0;
    let mut at: usize = 0;
    let mut after_carriage_return: bool = false;
    for ch in it: text.chars()
        invariant
            it.seq() == text@,
            len == text@.len(),
            at == it.index(),
            start <= at,
            after_carriage_return == (start < at && text@[at - 1] == '\r'),
            lines_of(text@) == texts_of(lines@) + lines_from(text@, start as int, at as int),
    {
        if ch == '\n' {
            let end: usize = if after_carriage_return {
                at - 1
            } else {
                at
            };
            let line: String = text.substring_char(start, end).to_owned();
            proof {
                let found = text@.subrange(start as int, at as int);
                assert(line@ == without_carriage_return(found)) by {
                    if after_carriage_return {
                        assert(found.last() == '\r');
                        assert(found.drop_last() == text@.subrange(start as int, end as int));
                    } else if found.len() > 0 {
                        assert(found.last() == text@[at - 1]);
                    }
                }
                assert(texts_of(lines@.push(line)) == texts_of(lines@) + seq![line@]);
            }
            lines.push(line);
            start = at + 1;
            after_carriage_return = false;
        } else {
            after_carriage_return = ch == '\r';
        }
        at = at + 1;
    }
    if start < len {
        let line: String = text.substring_char(start, len).to_owned();
        proof {
            assert(texts_of(lines@.push(line)) == texts_of(lines@) + seq![line@]);
        }
        lines.push(line);
    }
    lines
}

/// The text whose characters have the codes `bytes`.
pub open spec fn text_of_codes(bytes: Seq<u8>) -> Seq<char> {
    bytes.map_values(|b: u8| b as char)
}

/// Bytes below 128 are valid UTF-8, and the text that they encode has one
/// character for each byte, with the byte as its code.
pub proof fn lemma_ascii_bytes_are_text(bytes: Seq<u8>)
    requires
        forall|i: int| 0 <= i < bytes.len() ==> bytes[i] < 0x80,
    ensures
        valid_utf8(bytes),
        decode_utf8(bytes) == text_of_codes(bytes),
{
    let text = text_of_codes(bytes);
    assert forall|i: int| 0 <= i < text.len() implies '\0' <= #[trigger] text[i] <= '\u{7f}' by {
        assert(text[i] == bytes[i] as char);
    }
    vstd::utf8::is_ascii_chars_encode_utf8(text);
    assert(encode_utf8(text) =~= bytes) by {
        assert forall|i: int| 0 <= i < bytes.len() implies encode_utf8(text)[i] == bytes[i] by {
            assert(text[i] as u8 == encode_utf8(text)[i]);
            assert(text[i] == bytes[i] as char);
        }
    }
    vstd::utf8::encode_utf8_valid_utf8(text);
    vstd::utf8::encode_utf8_decode_utf8(text);
}

} // verus!
