//! Finding a line break in a line, by its bytes.

use vstd::prelude::*;
use vstd::utf8::*;

verus! {

/// `memchr::memchr2` gives the index of the first byte of `haystack` that is `needle1`
/// or `needle2`, and `None` where there is no such byte.
pub assume_specification[ memchr::memchr2 ](needle1: u8, needle2: u8, haystack: &[u8]) -> (res:
    Option<usize>)
    ensures
        match res {
            Some(i) => {
                &&& i < haystack@.len()
                &&& (haystack@[i as int] == needle1 || haystack@[i as int] == needle2)
                &&& forall|j: int|
                    0 <= j < i ==> haystack@[j] != needle1 && haystack@[j] != needle2
            },
            None => forall|j: int|
                0 <= j < haystack@.len() ==> haystack@[j] != needle1 && haystack@[j] != needle2,
        },
;

/// Whether `c` ends a line: a carriage return or a line feed.
pub open spec fn is_line_break_char(c: char) -> bool {
    c == '\r' || c == '\n'
}

/// Whether some character of `s` ends a line.
pub open spec fn has_line_break(s: Seq<char>) -> bool {
    exists|i: int| 0 <= i < s.len() && is_line_break_char(#[trigger] s[i])
}

/// Whether some byte of `b` is a carriage return or a line feed.
pub open spec fn has_line_break_byte(b: Seq<u8>) -> bool {
    exists|i: int| 0 <= i < b.len() && (#[trigger] b[i] == 13u8 || b[i] == 10u8)
}

/// A byte below 0x80 in the UTF-8 encoding of a character is that character.
proof fn lemma_ascii_byte_of_scalar(c: char, i: int)
    requires
        0 <= i < encode_scalar(c as u32).len(),
        encode_scalar(c as u32)[i] < 0x80,
    ensures
        encode_scalar(c as u32).len() == 1,
        c as u32 == encode_scalar(c as u32)[i] as u32,
{
    let v = c as u32;
    if has_width_1_encoding(v) {
        assert(v <= 0x7F ==> (v & 0x7F) as u8 as u32 == v) by (bit_vector);
    } else {
        assert(0xC0u8 | ((v >> 6) & 0x1F) as u8 >= 0x80) by (bit_vector);
        assert(0xE0u8 | ((v >> 12) & 0x0F) as u8 >= 0x80) by (bit_vector);
        assert(0xF0u8 | ((v >> 18) & 0x7) as u8 >= 0x80) by (bit_vector);
        assert(0x80u8 | (v & 0x3F) as u8 >= 0x80) by (bit_vector);
        assert(0x80u8 | ((v >> 6) & 0x3F) as u8 >= 0x80) by (bit_vector);
        assert(0x80u8 | ((v >> 12) & 0x3F) as u8 >= 0x80) by (bit_vector);
    }
}

/// The UTF-8 encoding of a one-byte character is that byte.
pub proof fn lemma_ascii_scalar(c: char)
    requires
        (c as u32) < 0x80,
    ensures
        encode_scalar(c as u32) == seq![(c as u32) as u8],
{
    let v = c as u32;
    assert(v <= 0x7F ==> (v & 0x7F) as u8 == v as u8) by (bit_vector);
}

/// The bytes of a character sequence hold a carriage return or a line feed exactly
/// where the characters do.
pub proof fn lemma_line_break_bytes(s: Seq<char>)
    ensures
        has_line_break_byte(encode_utf8(s)) <==> has_line_break(s),
    decreases s.len(),
{
    if s.len() > 0 {
        let head = encode_scalar(s[0] as u32);
        let tail = encode_utf8(s.drop_first());
        lemma_line_break_bytes(s.drop_first());
        assert(encode_utf8(s) == head + tail);
        if has_line_break_byte(encode_utf8(s)) {
            let i = choose|i: int|
                0 <= i < encode_utf8(s).len() && (#[trigger] encode_utf8(s)[i] == 13u8
                    || encode_utf8(s)[i] == 10u8);
            if i < head.len() {
                lemma_ascii_byte_of_scalar(s[0], i);
                let u = s[0] as u32;
                char_u32_cast(s[0], u);
                char_u32_cast('\r', 13u32);
                char_u32_cast('\n', 10u32);
                assert(is_line_break_char(s[0]));
            } else {
                assert(tail[i - head.len()] == encode_utf8(s)[i]);
                let j = choose|j: int|
                    0 <= j < s.drop_first().len() && is_line_break_char(
                        #[trigger] s.drop_first()[j],
                    );
                assert(s[j + 1] == s.drop_first()[j]);
            }
        }
        if has_line_break(s) {
            let j = choose|j: int| 0 <= j < s.len() && is_line_break_char(#[trigger] s[j]);
            if j == 0 {
                lemma_ascii_scalar(s[0]);
                assert(encode_utf8(s)[0] == head[0]);
            } else {
                assert(s.drop_first()[j - 1] == s[j]);
                let i = choose|i: int|
                    0 <= i < tail.len() && (#[trigger] tail[i] == 13u8 || tail[i] == 10u8);
                assert(encode_utf8(s)[head.len() + i] == tail[i]);
            }
        }
    }
}

/// Whether `s` holds a carriage return or a line feed.
pub fn contains_line_break(s: &str) -> (res: bool)
    ensures
        res == has_line_break(s@),
{
    let bytes = s.as_bytes();
    let found = memchr::memchr2(13u8, 10u8, bytes);
    proof {
        lemma_line_break_bytes(s@);
    }
    match found {
        Some(i) => {
            assert(bytes@[i as int] == 13u8 || bytes@[i as int] == 10u8);
            true
        },
        None => false,
    }
}

} // verus!
