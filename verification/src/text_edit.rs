//! Mapping editor positions to byte offsets, and range edits on cached text.
//!
//! A position is a line number and a column counted in UTF-16 code units.
//! Lines end at a newline character. The text itself is UTF-8, so a position
//! is first resolved to an index into the text's characters and then to the
//! number of bytes that the characters before that index occupy.

use crate::error::ProxyError;
use vstd::prelude::*;
use vstd::std_specs::iter::IteratorSpec;
use vstd::utf8::*;

verus! {

/// Number of bytes that the UTF-8 encoding of `c` takes.
pub open spec fn utf8_width(c: char) -> nat {
    let v = c as u32;
    if v < 0x80 {
        1
    } else if v < 0x800 {
        2
    } else if v < 0x10000 {
        3
    } else {
        4
    }
}

/// Number of UTF-16 code units that `c` takes: two for a character outside
/// the basic plane (a surrogate pair), one otherwise.
pub open spec fn utf16_width(c: char) -> nat {
    if (c as u32) < 0x10000 {
        1
    } else {
        2
    }
}

/// Length in bytes of the UTF-8 encoding of `s`.
pub open spec fn byte_len(s: Seq<char>) -> nat {
    encode_utf8(s).len()
}

/// Index of the first newline at or after `from`, or the length of `s` when
/// there is none: where the line that holds `from` ends.
pub open spec fn line_end(s: Seq<char>, from: int) -> int
    decreases s.len() - from,
{
    if from < 0 || from >= s.len() {
        s.len() as int
    } else if s[from] == '\n' {
        from
    } else {
        line_end(s, from + 1)
    }
}

/// Index of the first character of line `line` (counted from zero), or `None`
/// when `s` has fewer lines. A text that ends in a newline has an empty last
/// line after it.
pub open spec fn line_start(s: Seq<char>, line: nat) -> Option<int>
    decreases line,
{
    if line == 0 {
        Some(0)
    } else {
        match line_start(s, (line - 1) as nat) {
            None => None,
            Some(p) => {
                let e = line_end(s, p);
                if e < s.len() {
                    Some(e + 1)
                } else {
                    None
                }
            },
        }
    }
}

/// Index reached by walking from `from` towards `to` until `units` UTF-16
/// code units have been passed; `to` when the stretch is shorter than that.
/// A column inside a surrogate pair resolves to the index after the pair.
pub open spec fn column_index(s: Seq<char>, from: int, to: int, units: int) -> int
    decreases to - from,
{
    if from >= to || units <= 0 || from < 0 || from >= s.len() {
        if from >= to { to } else { from }
    } else {
        column_index(s, from + 1, to, units - utf16_width(s[from]))
    }
}

/// The character index that position (`line`, `character`) denotes in `s`,
/// or `None` when `s` has no such line.
pub open spec fn position_index(s: Seq<char>, line: nat, character: nat) -> Option<int> {
    match line_start(s, line) {
        None => None,
        Some(p) => Some(column_index(s, p, line_end(s, p), character as int)),
    }
}

/// The byte offset that position (`line`, `character`) denotes in the UTF-8
/// encoding of `s`.
pub open spec fn position_offset(s: Seq<char>, line: nat, character: nat) -> Option<nat> {
    match position_index(s, line, character) {
        None => None,
        Some(k) => Some(byte_len(s.take(k))),
    }
}

/// Number of characters whose encoding lies before byte `offset` of the
/// encoding of `s`; meaningful where `offset` is a character boundary.
pub open spec fn char_index_at(s: Seq<char>, offset: int) -> int {
    decode_utf8(encode_utf8(s).subrange(0, offset)).len() as int
}

/// The text after the characters from index `from` up to index `to` have been
/// replaced by `new_text`.
pub open spec fn splice(s: Seq<char>, from: int, to: int, new_text: Seq<char>) -> Seq<char> {
    s.take(from) + new_text + s.skip(to)
}

/// Encoding distributes over concatenation.
pub proof fn lemma_encode_concat(a: Seq<char>, b: Seq<char>)
    ensures
        encode_utf8(a + b) == encode_utf8(a) + encode_utf8(b),
    decreases a.len(),
{
    if a.len() == 0 {
        assert(a + b =~= b);
        assert(encode_utf8(a) + encode_utf8(b) =~= encode_utf8(b));
    } else {
        lemma_encode_concat(a.drop_first(), b);
        assert((a + b).drop_first() =~= a.drop_first() + b);
        assert((a + b)[0] == a[0]);
        assert(encode_utf8(a + b) =~= encode_utf8(a) + encode_utf8(b));
    }
}

/// The encoding of one character has the width that the character's value
/// gives.
pub proof fn lemma_encode_scalar_len(c: char)
    ensures
        encode_scalar(c as u32).len() == utf8_width(c),
        1 <= utf8_width(c) <= 4,
        1 <= utf16_width(c) <= 2,
        utf16_width(c) <= utf8_width(c),
{
    char_is_scalar(c);
}

/// Taking one more character adds that character's width.
pub proof fn lemma_byte_len_step(s: Seq<char>, k: int)
    requires
        0 <= k < s.len(),
    ensures
        byte_len(s.take(k + 1)) == byte_len(s.take(k)) + utf8_width(s[k]),
{
    let one = seq![s[k]];
    assert(s.take(k + 1) =~= s.take(k) + one);
    lemma_encode_concat(s.take(k), one);
    lemma_encode_scalar_len(s[k]);
    assert(one.drop_first() =~= Seq::<char>::empty());
    assert(encode_utf8(one) =~= encode_scalar(s[k] as u32)) by {
        reveal_with_fuel(encode_utf8, 2);
    }
}

/// A longer prefix has at least as many bytes more as it has characters more.
pub proof fn lemma_byte_len_monotone(s: Seq<char>, i: int, j: int)
    requires
        0 <= i <= j <= s.len(),
    ensures
        byte_len(s.take(i)) + (j - i) <= byte_len(s.take(j)),
    decreases j - i,
{
    if i < j {
        lemma_byte_len_monotone(s, i, j - 1);
        lemma_byte_len_step(s, j - 1);
        lemma_encode_scalar_len(s[j - 1]);
    }
}

/// The whole text is its own longest prefix.
pub proof fn lemma_byte_len_whole(s: Seq<char>)
    ensures
        byte_len(s.take(s.len() as int)) == byte_len(s),
        byte_len(s.take(0)) == 0,
{
    assert(s.take(s.len() as int) =~= s);
    assert(s.take(0) =~= Seq::<char>::empty());
}

/// The bytes of a prefix of the characters are a prefix of the bytes.
pub proof fn lemma_prefix_bytes(s: Seq<char>, k: int)
    requires
        0 <= k <= s.len(),
    ensures
        byte_len(s.take(k)) <= byte_len(s),
        encode_utf8(s).subrange(0, byte_len(s.take(k)) as int) == encode_utf8(s.take(k)),
        encode_utf8(s).subrange(byte_len(s.take(k)) as int, byte_len(s) as int) == encode_utf8(
            s.skip(k),
        ),
{
    assert(s =~= s.take(k) + s.skip(k));
    lemma_encode_concat(s.take(k), s.skip(k));
    let a = encode_utf8(s.take(k));
    let b = encode_utf8(s.skip(k));
    assert((a + b).subrange(0, a.len() as int) =~= a);
    assert((a + b).subrange(a.len() as int, (a + b).len() as int) =~= b);
}

/// The end of a prefix of the characters is a character boundary of the bytes.
pub proof fn lemma_prefix_is_boundary(s: Seq<char>, k: int)
    requires
        0 <= k <= s.len(),
    ensures
        is_char_boundary(encode_utf8(s), byte_len(s.take(k)) as int),
    decreases k,
{
    let bytes = encode_utf8(s);
    encode_utf8_valid_utf8(s);
    if k == 0 {
        lemma_byte_len_whole(s);
    } else {
        let rest = s.drop_first();
        encode_utf8_first_scalar(s);
        lemma_encode_scalar_len(s[0]);
        assert(pop_first_scalar(bytes) =~= encode_utf8(rest));
        lemma_prefix_is_boundary(rest, k - 1);
        assert(s.take(k) =~= seq![s[0]] + rest.take(k - 1));
        lemma_encode_concat(seq![s[0]], rest.take(k - 1));
        assert(seq![s[0]].drop_first() =~= Seq::<char>::empty());
        assert(encode_utf8(seq![s[0]]) =~= encode_scalar(s[0] as u32)) by {
            reveal_with_fuel(encode_utf8, 2);
        }
        lemma_prefix_bytes(s, k);
        assert(byte_len(s.take(k)) == length_of_first_scalar(bytes) + byte_len(rest.take(k - 1)));
    }
}

/// The character index at the byte offset of a prefix is the prefix's length.
pub proof fn lemma_char_index_of_prefix(s: Seq<char>, k: int)
    requires
        0 <= k <= s.len(),
    ensures
        char_index_at(s, byte_len(s.take(k)) as int) == k,
{
    lemma_prefix_bytes(s, k);
    encode_utf8_decode_utf8(s.take(k));
}

/// At a character boundary, the characters before it occupy exactly the bytes
/// before it.
pub proof fn lemma_boundary_is_prefix(s: Seq<char>, offset: int)
    requires
        0 <= offset <= byte_len(s),
        is_char_boundary(encode_utf8(s), offset),
    ensures
        0 <= char_index_at(s, offset) <= s.len(),
        byte_len(s.take(char_index_at(s, offset))) == offset,
{
    let bytes = encode_utf8(s);
    encode_utf8_valid_utf8(s);
    valid_utf8_split(bytes, offset);
    decode_utf8_split(bytes, offset);
    encode_utf8_decode_utf8(s);
    let b1 = bytes.subrange(0, offset);
    let b2 = bytes.subrange(offset, bytes.len() as int);
    let d1 = decode_utf8(b1);
    let d2 = decode_utf8(b2);
    assert(s =~= d1 + d2);
    assert(s.take(d1.len() as int) =~= d1);
    decode_utf8_encode_utf8(b1);
}

/// Where no newline lies between two indices, their lines end together.
pub proof fn lemma_line_end_same(s: Seq<char>, p: int, k: int)
    requires
        0 <= p <= k <= s.len(),
        forall|j: int| p <= j < k ==> s[j] != '\n',
    ensures
        line_end(s, p) == line_end(s, k),
    decreases k - p,
{
    if p < k {
        lemma_line_end_same(s, p + 1, k);
    }
}

/// A line ends at or after where it starts, inside the text.
pub proof fn lemma_line_end_bounds(s: Seq<char>, p: int)
    requires
        0 <= p <= s.len(),
    ensures
        p <= line_end(s, p) <= s.len(),
    decreases s.len() - p,
{
    if p < s.len() && s[p] != '\n' {
        lemma_line_end_bounds(s, p + 1);
    }
}

/// Every line that exists starts inside the text.
pub proof fn lemma_line_start_bounds(s: Seq<char>, line: nat)
    ensures
        line_start(s, line) matches Some(p) ==> 0 <= p <= s.len(),
    decreases line,
{
    if line > 0 {
        lemma_line_start_bounds(s, (line - 1) as nat);
        if let Some(p) = line_start(s, (line - 1) as nat) {
            lemma_line_end_bounds(s, p);
        }
    }
}

/// Past the last line there are no lines.
pub proof fn lemma_line_start_none_above(s: Seq<char>, last: nat, line: nat)
    requires
        line_start(s, last) is None,
        last <= line,
    ensures
        line_start(s, line) is None,
    decreases line,
{
    if last < line {
        lemma_line_start_none_above(s, last, (line - 1) as nat);
    }
}

/// A column resolves to an index between the ends of the stretch it walks.
pub proof fn lemma_column_index_bounds(s: Seq<char>, from: int, to: int, units: int)
    requires
        0 <= from <= to <= s.len(),
    ensures
        from <= column_index(s, from, to, units) <= to,
    decreases to - from,
{
    if from < to && units > 0 {
        lemma_column_index_bounds(s, from + 1, to, units - utf16_width(s[from]));
    }
}

/// Width of `c` in UTF-8 bytes.
pub fn char_utf8_len(c: char) -> (n: usize)
    ensures
        n == utf8_width(c),
{
    let v: u32 = c as u32;
    if v < 0x80 {
        1
    } else if v < 0x800 {
        2
    } else if v < 0x10000 {
        3
    } else {
        4
    }
}

/// Width of `c` in UTF-16 code units.
pub fn char_utf16_len(c: char) -> (n: usize)
    ensures
        n == utf16_width(c),
{
    let v: u32 = c as u32;
    if v < 0x10000 {
        1
    } else {
        2
    }
}

/// Byte offset of column `character` within the line that occupies the bytes
/// from `line_start` up to `line_end` of `text`. A column past the end of the
/// line resolves to `line_end`.
pub fn find_offset_in_line(
    text: &str,
    line_start: usize,
    line_end: usize,
    character: usize,
) -> (result: Result<usize, ProxyError>)
    requires
        line_start <= line_end <= byte_len(text@),
        is_char_boundary(encode_utf8(text@), line_start as int),
        is_char_boundary(encode_utf8(text@), line_end as int),
    ensures
        result matches Ok(offset) && offset == byte_len(
            text@.take(
                column_index(
                    text@,
                    char_index_at(text@, line_start as int),
                    char_index_at(text@, line_end as int),
                    character as int,
                ),
            ),
        ),
        result matches Ok(offset) ==> line_start <= offset <= line_end && is_char_boundary(
            encode_utf8(text@),
            offset as int,
        ),
{
    let ghost s = text@;
    let ghost a = char_index_at(s, line_start as int);
    let ghost b = char_index_at(s, line_end as int);
    proof {
        lemma_boundary_is_prefix(s, line_start as int);
        lemma_boundary_is_prefix(s, line_end as int);
        if a > b {
            lemma_byte_len_monotone(s, b, a);
        }
        lemma_byte_len_whole(s);
    }
    let total: usize = text.as_bytes().len();
    let mut it = text.chars();
    let ghost mut k: int = 0;
    let mut offset: usize = 0;
    let mut units: usize = 0;
    loop
        invariant
            s == text@,
            a == char_index_at(s, line_start as int),
            b == char_index_at(s, line_end as int),
            0 <= a <= b <= s.len(),
            byte_len(s.take(a)) == line_start,
            byte_len(s.take(b)) == line_end,
            line_end <= byte_len(s) == total,
            0 <= k <= b,
            it.remaining() == s.skip(k),
            offset == byte_len(s.take(k)),
            k <= a ==> units == 0,
            units <= offset,
            k >= a ==> column_index(s, a, b, character as int) == column_index(
                s,
                k,
                b,
                character - units,
            ),
        decreases s.len() - k,
    {
        if offset >= line_start {
            proof {
                if k < a {
                    lemma_byte_len_monotone(s, k, a);
                }
            }
            if offset >= line_end {
                proof {
                    if k < b {
                        lemma_byte_len_monotone(s, k, b);
                    }
                    lemma_prefix_is_boundary(s, b);
                }
                return Ok(line_end);
            }
            if units >= character {
                proof {
                    lemma_prefix_is_boundary(s, k);
                }
                return Ok(offset);
            }
        }
        proof {
            if offset < line_start && k >= a {
                lemma_byte_len_monotone(s, a, k);
            }
            assert(k < b);
        }
        match it.next() {
            Some(c) => {
                assert(c == s[k]);
                proof {
                    lemma_byte_len_step(s, k);
                    lemma_encode_scalar_len(c);
                    lemma_byte_len_monotone(s, k + 1, b);
                    assert(s.skip(k).drop_first() =~= s.skip(k + 1));
                }
                if offset >= line_start {
                    units = units + char_utf16_len(c);
                }
                offset = offset + char_utf8_len(c);
                proof {
                    if k < a {
                        lemma_byte_len_monotone(s, k + 1, a);
                    }
                    k = k + 1;
                }
            },
            None => {
                proof {
                    lemma_prefix_is_boundary(s, b);
                }
                return Ok(line_end);
            },
        }
    }
}

/// Byte offset in `text` of the position (`line`, `character`), where
/// `character` counts UTF-16 code units and a column past the end of the line
/// resolves to the end of the line. A line that the text does not have is an
/// error.
pub fn position_to_offset(text: &str, line: usize, character: usize) -> (result: Result<
    usize,
    ProxyError,
>)
    ensures
        match position_offset(text@, line as nat, character as nat) {
            Some(offset) => result matches Ok(found) && found == offset,
            None => result matches Err(ProxyError::InvalidMessage(_)),
        },
        result matches Ok(offset) ==> offset <= byte_len(text@) && is_char_boundary(
            encode_utf8(text@),
            offset as int,
        ),
{
    let ghost s = text@;
    let mut it = text.chars();
    let ghost mut k: int = 0;
    let ghost mut p: int = 0;
    let mut offset: usize = 0;
    let mut current_line: usize = 0;
    let mut line_start_offset: usize = 0;
    let total: usize = text.as_bytes().len();
    proof {
        lemma_byte_len_whole(s);
        lemma_prefix_bytes(s, 0);
    }
    loop
        invariant
            s == text@,
            0 <= p <= k <= s.len(),
            it.remaining() == s.skip(k),
            offset == byte_len(s.take(k)),
            line_start_offset == byte_len(s.take(p)),
            byte_len(s) == total,
            current_line <= line,
            line_start(s, current_line as nat) == Some(p),
            forall|j: int| p <= j < k ==> s[j] != '\n',
        decreases s.len() - k,
    {
        proof {
            lemma_prefix_bytes(s, k);
        }
        match it.next() {
            Some(c) => {
                assert(c == s[k]);
                proof {
                    lemma_byte_len_step(s, k);
                    lemma_encode_scalar_len(c);
                    lemma_prefix_bytes(s, k + 1);
                    lemma_line_end_same(s, p, k);
                    assert(s.skip(k).drop_first() =~= s.skip(k + 1));
                }
                if c == '\n' {
                    if current_line == line {
                        proof {
                            lemma_prefix_is_boundary(s, p);
                            lemma_prefix_is_boundary(s, k);
                            lemma_char_index_of_prefix(s, p);
                            lemma_char_index_of_prefix(s, k);
                            lemma_byte_len_monotone(s, p, k);
                        }
                        return find_offset_in_line(text, line_start_offset, offset, character);
                    }
                    current_line = current_line + 1;
                    offset = offset + char_utf8_len(c);
                    line_start_offset = offset;
                    proof {
                        k = k + 1;
                        p = k;
                    }
                } else {
                    offset = offset + char_utf8_len(c);
                    proof {
                        k = k + 1;
                    }
                }
            },
            None => {
                proof {
                    lemma_line_end_same(s, p, k);
                    lemma_byte_len_whole(s);
                }
                if current_line == line {
                    proof {
                        lemma_prefix_is_boundary(s, p);
                        lemma_prefix_is_boundary(s, k);
                        lemma_char_index_of_prefix(s, p);
                        lemma_char_index_of_prefix(s, k);
                        lemma_byte_len_monotone(s, p, k);
                    }
                    return find_offset_in_line(text, line_start_offset, offset, character);
                }
                proof {
                    lemma_line_start_none_above(s, (current_line + 1) as nat, line as nat);
                }
                return Err(ProxyError::InvalidMessage("Position out of range".to_string()));
            },
        }
    }
}

/// `String::replace_range` of std on the byte range `start..end`. std
/// documents that it removes the range and puts `new_text` in its place, and
/// that it panics unless both ends are character boundaries inside the
/// string; the contract asks for the boundaries and states the resulting
/// bytes.
#[verifier::external_body]
fn replace_byte_range(text: &mut String, start: usize, end: usize, new_text: &str)
    requires
        start <= end <= byte_len(old(text)@),
        is_char_boundary(encode_utf8(old(text)@), start as int),
        is_char_boundary(encode_utf8(old(text)@), end as int),
    ensures
        encode_utf8(final(text)@) == encode_utf8(old(text)@).subrange(0, start as int)
            + encode_utf8(new_text@) + encode_utf8(old(text)@).subrange(
            end as int,
            byte_len(old(text)@) as int,
        ),
{
    text.replace_range(start..end, new_text);
}

/// Two texts with the same encoding are the same text.
pub proof fn lemma_encode_injective(a: Seq<char>, b: Seq<char>)
    requires
        encode_utf8(a) == encode_utf8(b),
    ensures
        a == b,
{
    encode_utf8_decode_utf8(a);
    encode_utf8_decode_utf8(b);
}

/// Replaces the text between two positions by `new_text`. Each position is
/// resolved as `position_to_offset` does, against the text before the edit.
/// An end that lies before the start, or a line that the text does not have,
/// is an error and leaves the text as it was.
pub fn apply_range_edit(
    text: &mut String,
    start_line: usize,
    start_character: usize,
    end_line: usize,
    end_character: usize,
    new_text: &str,
) -> (result: Result<(), ProxyError>)
    ensures
        match (
            position_index(old(text)@, start_line as nat, start_character as nat),
            position_index(old(text)@, end_line as nat, end_character as nat),
        ) {
            (Some(from), Some(to)) => if from <= to {
                result is Ok && final(text)@ == splice(old(text)@, from, to, new_text@)
            } else {
                (result matches Err(ProxyError::InvalidMessage(_))) && final(text)@ == old(text)@
            },
            _ => (result matches Err(ProxyError::InvalidMessage(_))) && final(text)@ == old(text)@,
        },
{
    let ghost s = text@;
    let start_offset: usize = match position_to_offset(
        text.as_str(),
        start_line,
        start_character,
    ) {
        Ok(offset) => offset,
        Err(e) => {
            return Err(e);
        },
    };
    let end_offset: usize = match position_to_offset(text.as_str(), end_line, end_character) {
        Ok(offset) => offset,
        Err(e) => {
            return Err(e);
        },
    };
    let ghost from = position_index(s, start_line as nat, start_character as nat)->0;
    let ghost to = position_index(s, end_line as nat, end_character as nat)->0;
    proof {
        lemma_position_index_bounds(s, start_line as nat, start_character as nat);
        lemma_position_index_bounds(s, end_line as nat, end_character as nat);
        if from <= to {
            lemma_byte_len_monotone(s, from, to);
        } else {
            lemma_byte_len_monotone(s, to, from);
        }
    }
    if start_offset > end_offset {
        return Err(ProxyError::InvalidMessage("Invalid range: start is after end".to_string()));
    }
    replace_byte_range(text, start_offset, end_offset, new_text);
    proof {
        let edited = splice(s, from, to, new_text@);
        lemma_prefix_bytes(s, from);
        lemma_prefix_bytes(s, to);
        lemma_encode_concat(s.take(from), new_text@);
        lemma_encode_concat(s.take(from) + new_text@, s.skip(to));
        lemma_encode_injective(text@, edited);
    }
    Ok(())
}

/// A position that resolves lies inside the text.
pub proof fn lemma_position_index_bounds(s: Seq<char>, line: nat, character: nat)
    ensures
        position_index(s, line, character) matches Some(k) ==> 0 <= k <= s.len(),
{
    lemma_line_start_bounds(s, line);
    if let Some(p) = line_start(s, line) {
        lemma_line_end_bounds(s, p);
        lemma_column_index_bounds(s, p, line_end(s, p), character as int);
    }
}

/// Number of UTF-16 code units that the characters from index `from` up to
/// index `to` take.
pub open spec fn utf16_len(s: Seq<char>, from: int, to: int) -> nat
    decreases to - from,
{
    if from >= to || from < 0 || from >= s.len() {
        0
    } else {
        utf16_width(s[from]) + utf16_len(s, from + 1, to)
    }
}

/// An edit whose range starts and ends at the same position inserts the new
/// text there: the characters before the position and those after it stay as
/// they were, and so do their bytes.
pub proof fn lemma_point_insert(s: Seq<char>, k: int, new_text: Seq<char>)
    requires
        0 <= k <= s.len(),
    ensures
        splice(s, k, k, new_text).len() == s.len() + new_text.len(),
        splice(s, k, k, new_text).take(k) == s.take(k),
        splice(s, k, k, new_text).subrange(k, k + new_text.len()) == new_text,
        splice(s, k, k, new_text).skip(k + new_text.len()) == s.skip(k),
        encode_utf8(splice(s, k, k, new_text)) == encode_utf8(s).subrange(
            0,
            byte_len(s.take(k)) as int,
        ) + encode_utf8(new_text) + encode_utf8(s).subrange(
            byte_len(s.take(k)) as int,
            byte_len(s) as int,
        ),
{
    let edited = splice(s, k, k, new_text);
    assert(edited.take(k) =~= s.take(k));
    assert(edited.subrange(k, k + new_text.len()) =~= new_text);
    assert(edited.skip(k + new_text.len()) =~= s.skip(k));
    lemma_prefix_bytes(s, k);
    lemma_encode_concat(s.take(k), new_text);
    lemma_encode_concat(s.take(k) + new_text, s.skip(k));
}

/// A column at or past the end of the line resolves to the end of the line.
pub proof fn lemma_column_clamps(s: Seq<char>, from: int, to: int, units: int)
    requires
        0 <= from <= to <= s.len(),
        units >= utf16_len(s, from, to),
    ensures
        column_index(s, from, to, units) == to,
    decreases to - from,
{
    if from < to {
        lemma_encode_scalar_len(s[from]);
        if units > 0 {
            lemma_column_clamps(s, from + 1, to, units - utf16_width(s[from]));
        }
    }
}

/// A position whose column is at or past the end of its line denotes the end
/// of that line.
pub proof fn lemma_character_beyond_line_end(s: Seq<char>, line: nat, character: nat)
    requires
        line_start(s, line) is Some,
        character >= utf16_len(s, line_start(s, line)->0, line_end(s, line_start(s, line)->0)),
    ensures
        position_index(s, line, character) == Some(line_end(s, line_start(s, line)->0)),
{
    lemma_line_start_bounds(s, line);
    let p = line_start(s, line)->0;
    lemma_line_end_bounds(s, p);
    lemma_column_clamps(s, p, line_end(s, p), character as int);
}

/// A character outside the basic plane, which UTF-16 writes as a surrogate
/// pair, counts as two columns: the column after it is two more than the
/// column before it, and the column between its halves resolves to the
/// character after it.
pub proof fn lemma_surrogate_pair_counts_two(s: Seq<char>, from: int, to: int)
    requires
        0 <= from < to <= s.len(),
        s[from] as u32 >= 0x10000,
    ensures
        utf16_width(s[from]) == 2,
        forall|units: int|
            units >= 1 ==> #[trigger] column_index(s, from, to, units) == column_index(
                s,
                from + 1,
                to,
                units - 2,
            ),
        column_index(s, from, to, 1) == from + 1,
        column_index(s, from, to, 2) == from + 1,
{
    assert(column_index(s, from, to, 1) == column_index(s, from + 1, to, -1));
    assert(column_index(s, from, to, 2) == column_index(s, from + 1, to, 0));
}

} // verus!
