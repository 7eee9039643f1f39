//! Byte-level vocabulary of the configuration text: character classes,
//! runs of spaces, line boundaries, and trailing-whitespace trimming.
//!
//! The whole parser works on a byte sequence; these spec functions give the
//! contracts of the tokenizer primitives their vocabulary.

use vstd::prelude::*;

verus! {

/// The byte value of a space character.
pub const SPACE: u8 = 32;

/// The byte value of a newline character.
pub const NEWLINE: u8 = 10;

/// A byte that may appear in an identifier: ASCII alphanumerics, `_` and `-`.
pub open spec fn is_ident_byte(b: u8) -> bool {
    (48 <= b <= 57) || (65 <= b <= 90) || (97 <= b <= 122) || b == 95 || b == 45
}

/// A byte that counts as trailing whitespace when a command string is
/// trimmed: space, and the ASCII control whitespace `\t`, `\n`, `\x0b`,
/// `\x0c`, `\r`.
pub open spec fn is_trim_byte(b: u8) -> bool {
    b == 32 || (9 <= b <= 13)
}

/// Every byte of the sequence is ASCII.
pub open spec fn ascii_seq(s: Seq<u8>) -> bool {
    forall|k: int| 0 <= k < s.len() ==> s[k] < 128
}

/// The sequence of bytes read as a sequence of characters; meaningful for
/// ASCII bytes, where each byte is one character.
pub open spec fn chars_of(s: Seq<u8>) -> Seq<char> {
    s.map(|_k: int, b: u8| b as char)
}

/// Length of the run of space characters starting at `i`.
pub open spec fn space_run(src: Seq<u8>, i: int) -> nat
    decreases src.len() - i,
{
    if 0 <= i < src.len() && src[i] == SPACE {
        1 + space_run(src, i + 1)
    } else {
        0
    }
}

/// Length of the run of newline characters starting at `i`.
pub open spec fn newline_run(src: Seq<u8>, i: int) -> nat
    decreases src.len() - i,
{
    if 0 <= i < src.len() && src[i] == NEWLINE {
        1 + newline_run(src, i + 1)
    } else {
        0
    }
}

/// Length of the run of identifier bytes starting at `i`.
pub open spec fn ident_run(src: Seq<u8>, i: int) -> nat
    decreases src.len() - i,
{
    if 0 <= i < src.len() && is_ident_byte(src[i]) {
        1 + ident_run(src, i + 1)
    } else {
        0
    }
}

/// Position of the first newline at or after `i`, or the end of the text if
/// no newline remains.
pub open spec fn line_end(src: Seq<u8>, i: int) -> int
    decreases src.len() - i,
{
    if 0 <= i < src.len() {
        if src[i] == NEWLINE {
            i
        } else {
            line_end(src, i + 1)
        }
    } else {
        src.len() as int
    }
}

/// A run of spaces never reaches past the end of the text.
pub proof fn lemma_space_run_le(src: Seq<u8>, i: int)
    requires
        0 <= i <= src.len(),
    ensures
        i + space_run(src, i) <= src.len(),
    decreases src.len() - i,
{
    if i < src.len() && src[i] == SPACE {
        lemma_space_run_le(src, i + 1);
    }
}

/// A run of identifier bytes never reaches past the end of the text.
pub proof fn lemma_ident_run_le(src: Seq<u8>, i: int)
    requires
        0 <= i <= src.len(),
    ensures
        i + ident_run(src, i) <= src.len(),
    decreases src.len() - i,
{
    if i < src.len() && is_ident_byte(src[i]) {
        lemma_ident_run_le(src, i + 1);
    }
}

/// The end of a line lies between `i` and the end of the text.
pub proof fn lemma_line_end_bounds(src: Seq<u8>, i: int)
    requires
        0 <= i <= src.len(),
    ensures
        i <= line_end(src, i) <= src.len(),
        line_end(src, i) < src.len() ==> src[line_end(src, i)] == NEWLINE,
        forall|k: int| i <= k < line_end(src, i) ==> src[k] != NEWLINE,
    decreases src.len() - i,
{
    if i < src.len() && src[i] != NEWLINE {
        lemma_line_end_bounds(src, i + 1);
    }
}

/// The length of `s` once trailing whitespace bytes are removed.
pub open spec fn trimmed_len(s: Seq<u8>) -> nat
    decreases s.len(),
{
    if s.len() > 0 && is_trim_byte(s[s.len() - 1]) {
        trimmed_len(s.drop_last())
    } else {
        s.len()
    }
}

/// `s` with its trailing whitespace bytes removed.
pub open spec fn trim_end(s: Seq<u8>) -> Seq<u8> {
    s.take(trimmed_len(s) as int)
}

/// The trimmed length never exceeds the length, the byte before the cut (if
/// any) is not whitespace, and everything at or after the cut is whitespace.
pub proof fn lemma_trimmed_len(s: Seq<u8>)
    ensures
        trimmed_len(s) <= s.len(),
        trimmed_len(s) > 0 ==> !is_trim_byte(s[trimmed_len(s) - 1]),
        forall|k: int| trimmed_len(s) <= k < s.len() ==> is_trim_byte(s[k]),
    decreases s.len(),
{
    if s.len() > 0 && is_trim_byte(s[s.len() - 1]) {
        lemma_trimmed_len(s.drop_last());
        assert(forall|k: int|
            trimmed_len(s) <= k < s.len() - 1 ==> s.drop_last()[k] == s[k]);
    }
}

/// Dropping one trailing whitespace byte does not change the trimmed prefix.
pub proof fn lemma_trimmed_len_drop_last(s: Seq<u8>)
    requires
        s.len() > 0,
        is_trim_byte(s[s.len() - 1]),
    ensures
        trimmed_len(s) == trimmed_len(s.drop_last()),
{
}

} // verus!
