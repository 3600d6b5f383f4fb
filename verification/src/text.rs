//! Two small questions about a text: its first word, and the last character
//! of its first line.

use crate::minigrep::{lines_of, split_lines, texts};
use vstd::prelude::*;
use vstd::string::StringSliceAdditionalSpecFns;
use vstd::utf8::{
    encode_utf8, encode_utf8_valid_utf8, is_char_boundary_iff_not_is_continuation_byte,
};

verus! {

/// The space character as a byte.
pub const SPACE: u8 = 0x20;

/// `n` is where the first word of `bytes` ends: at the first space, or at
/// the end where there is none.
pub open spec fn is_word_end(bytes: Seq<u8>, n: int) -> bool {
    &&& 0 <= n <= bytes.len()
    &&& forall|j: int| 0 <= j < n ==> #[trigger] bytes[j] != SPACE
    &&& n == bytes.len() || bytes[n] == SPACE
}

/// The last character of the first line of a text, if the text has a line
/// and that line a character.
pub open spec fn last_of_first_line(text: Seq<char>) -> Option<char> {
    let lines = lines_of(text);
    if lines.len() == 0 || lines[0].len() == 0 {
        None
    } else {
        Some(lines[0].last())
    }
}

/// The first word of a text: what stands before its first space, or all of
/// it where it has none. In bytes, the result is the prefix of the text that
/// ends where the first word does.
pub fn first_word(s: &str) -> (r: &str)
    ensures
        is_word_end(encode_utf8(s@), encode_utf8(r@).len() as int),
        encode_utf8(r@) == encode_utf8(s@).take(encode_utf8(r@).len() as int),
{
    let bytes = s.as_bytes();
    let mut i: usize = 0;
    while i < bytes.len()
        invariant
            bytes@ == encode_utf8(s@),
            i <= bytes@.len(),
            forall|j: int| 0 <= j < i ==> #[trigger] bytes@[j] != SPACE,
        decreases bytes@.len() - i,
    {
        if bytes[i] == SPACE {
            proof {
                encode_utf8_valid_utf8(s@);
                is_char_boundary_iff_not_is_continuation_byte(bytes@, i as int);
            }
            let (head, _) = s.split_at(i);
            return head;
        }
        i = i + 1;
    }
    proof {
        assert(encode_utf8(s@).take(encode_utf8(s@).len() as int) == encode_utf8(s@));
    }
    s
}

/// The last character of the first line of a text, or `None` where the text
/// has no line or its first line is empty.
pub fn last_char_of_first_line(text: &str) -> (r: Option<char>)
    ensures
        r == last_of_first_line(text@),
{
    let lines = split_lines(text);
    if lines.len() == 0 {
        return None;
    }
    let line: &str = lines[0];
    assert(texts(lines@)[0] == line@);
    let n = line.unicode_len();
    if n == 0 {
        None
    } else {
        Some(line.get_char(n - 1))
    }
}

} // verus!
