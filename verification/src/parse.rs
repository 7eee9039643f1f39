//! A backtracking recursive descent parser for the configuration text of the
//! hotkey daemon. There is no error reporting: the parser simply discards any
//! invalid structure.
//!
//! Every recognizer is specified against the source byte sequence: a rule
//! either fully succeeds (cursor advanced past the construct, value returned)
//! or fully fails (cursor restored to where the rule began).

use vstd::prelude::*;
use vstd::slice::slice_subrange;
use vstd::string::StringSliceAdditionalSpecFns;
use crate::text::{NEWLINE, is_ident_byte, is_trim_byte, ascii_seq, chars_of,
    space_run, newline_run, ident_run, line_end, trim_end,
    lemma_space_run_le, lemma_ident_run_le, lemma_line_end_bounds};
use crate::key::{Key, key_of_name};
use crate::chord::{Chord, ModMask, MOD_SHIFT, MOD_LOCK, MOD_CONTROL, MOD_1, MOD_2,
    MOD_3, MOD_4, MOD_5};
use crate::bind::{Bind, Action};

verus! {

/// A token is a reference to a slice of the parser's source text, together
/// with the offset it starts at.
#[derive(Debug)]
pub struct Token<'a> {
    pub slice: &'a [u8],
    pub i: usize,
}

/// Parser state and data are stored in separate variables; the data is
/// immutable for the whole parse.
#[derive(Debug, Copy, Clone)]
pub struct ParserData<'a> {
    pub src: &'a [u8],
}

/// The mutable part of the parser: the index of the byte to be parsed next.
#[derive(Debug)]
pub struct ParserState {
    pub i: usize,
}

/// Create a parser over a configuration text. The text is ASCII-safe by the
/// configuration format's definition.
pub fn new_parser(src: &str) -> (r: (ParserData, ParserState))
    requires
        src.is_ascii(),
    ensures
        r.0.src@ == src.spec_bytes(),
        ascii_seq(r.0.src@),
        r.1.i == 0,
{
    proof {
        vstd::string::is_ascii_spec_bytes(src);
        vstd::utf8::is_ascii_chars_nat_bound(src@);
    }
    (ParserData { src: src.as_bytes() }, ParserState { i: 0 })
}

/// The literal `lit` occurs in `src` at position `i`.
pub open spec fn lit_at(src: Seq<u8>, i: int, lit: Seq<u8>) -> bool {
    &&& 0 <= i
    &&& i + lit.len() <= src.len()
    &&& src.subrange(i, i + lit.len()) == lit
}

/// Position `i` is the start of a logical line: the very start of the text,
/// or just after a newline.
pub open spec fn line_start(src: Seq<u8>, i: int) -> bool {
    i == 0 || (0 < i <= src.len() && src[i - 1] == NEWLINE)
}

/// The position just after the line beginning at `i`: past its newline, or
/// the end of the text when no newline remains.
pub open spec fn next_line(src: Seq<u8>, i: int) -> int {
    if line_end(src, i) < src.len() {
        line_end(src, i) + 1
    } else {
        src.len() as int
    }
}

/// The offside rule fails for the line whose indentation measures `m` and
/// whose first content byte stands at `pos`: the line is indented strictly
/// less than the enclosing block's reference indentation `mm`, and it is not
/// blank (a blank line never ends a block).
pub open spec fn offside_failed(src: Seq<u8>, pos: int, m: nat, mm: nat) -> bool {
    m < mm && (pos >= src.len() || src[pos] != NEWLINE)
}

/// The bytes of the keyword `shift`.
pub open spec fn kw_shift() -> Seq<u8> {
    seq![115u8, 104u8, 105u8, 102u8, 116u8]
}

/// The bytes of the keyword `caps-lock`.
pub open spec fn kw_caps_lock() -> Seq<u8> {
    seq![99u8, 97u8, 112u8, 115u8, 45u8, 108u8, 111u8, 99u8, 107u8]
}

/// The bytes of the keyword `ctrl`.
pub open spec fn kw_ctrl() -> Seq<u8> {
    seq![99u8, 116u8, 114u8, 108u8]
}

/// The bytes of the keyword `alt`.
pub open spec fn kw_alt() -> Seq<u8> {
    seq![97u8, 108u8, 116u8]
}

/// The bytes of the keyword `num-lock`.
pub open spec fn kw_num_lock() -> Seq<u8> {
    seq![110u8, 117u8, 109u8, 45u8, 108u8, 111u8, 99u8, 107u8]
}

/// The bytes of the keyword `mod3`.
pub open spec fn kw_mod3() -> Seq<u8> {
    seq![109u8, 111u8, 100u8, 51u8]
}

/// The bytes of the keyword `super`.
pub open spec fn kw_super() -> Seq<u8> {
    seq![115u8, 117u8, 112u8, 101u8, 114u8]
}

/// The bytes of the keyword `mod5`.
pub open spec fn kw_mod5() -> Seq<u8> {
    seq![109u8, 111u8, 100u8, 53u8]
}

/// The bytes of the keyword `mode`.
pub open spec fn kw_mode() -> Seq<u8> {
    seq![109u8, 111u8, 100u8, 101u8]
}

/// The byte of the literal `+`.
pub open spec fn plus_bytes() -> Seq<u8> {
    seq![43u8]
}

/// The byte of the literal `:`.
pub open spec fn colon_bytes() -> Seq<u8> {
    seq![58u8]
}

/// The byte of the literal newline.
pub open spec fn newline_bytes() -> Seq<u8> {
    seq![10u8]
}

/// The bytes of the literal `:` followed by a newline.
pub open spec fn colon_nl_bytes() -> Seq<u8> {
    seq![58u8, 10u8]
}

/// Whether a byte may appear in an identifier.
fn ident_byte(c: u8) -> (r: bool)
    ensures
        r == is_ident_byte(c),
{
    c == 95 || c == 45 || (48 <= c && c <= 57) || (65 <= c && c <= 90)
        || (97 <= c && c <= 122)
}


/// The modifier keyword that matches at `i`, with its flag and byte length,
/// tried in the grammar's fixed priority order.
pub open spec fn mod_kw(src: Seq<u8>, i: int) -> Option<(u32, int)> {
    if lit_at(src, i, kw_shift()) {
        Option::Some((MOD_SHIFT, kw_shift().len() as int))
    } else if lit_at(src, i, kw_caps_lock()) {
        Option::Some((MOD_LOCK, kw_caps_lock().len() as int))
    } else if lit_at(src, i, kw_ctrl()) {
        Option::Some((MOD_CONTROL, kw_ctrl().len() as int))
    } else if lit_at(src, i, kw_alt()) {
        Option::Some((MOD_1, kw_alt().len() as int))
    } else if lit_at(src, i, kw_num_lock()) {
        Option::Some((MOD_2, kw_num_lock().len() as int))
    } else if lit_at(src, i, kw_mod3()) {
        Option::Some((MOD_3, kw_mod3().len() as int))
    } else if lit_at(src, i, kw_super()) {
        Option::Some((MOD_4, kw_super().len() as int))
    } else if lit_at(src, i, kw_mod5()) {
        Option::Some((MOD_5, kw_mod5().len() as int))
    } else {
        Option::None
    }
}

/// The position after the separator that may follow a modifier keyword:
/// optional spaces, an optional `+`, optional spaces. A lone `+` with no
/// further modifier is silently consumed, not an error.
pub open spec fn sep_end(src: Seq<u8>, i: int) -> int {
    let j = i + space_run(src, i);
    let j2 = if lit_at(src, j, plus_bytes()) { j + 1 } else { j };
    j2 + space_run(src, j2)
}

/// The separator never reaches past the end of the text.
pub proof fn lemma_sep_end_bounds(src: Seq<u8>, i: int)
    requires
        0 <= i <= src.len(),
    ensures
        i <= sep_end(src, i) <= src.len(),
{
    lemma_space_run_le(src, i);
    let j = i + space_run(src, i);
    let j2 = if lit_at(src, j, plus_bytes()) { j + 1 } else { j };
    lemma_space_run_le(src, j2);
}

/// The modifier set and final position of the modifier-sequence rule at `i`:
/// keywords accumulate their flags, each followed by its separator, until no
/// keyword matches; the trailing separator is consumed even then.
pub open spec fn spec_modifiers(src: Seq<u8>, i: int) -> (u32, int)
    decreases src.len() - i,
    when 0 <= i <= src.len()
    via spec_modifiers_dec
{
    match mod_kw(src, i) {
        Option::Some(kw) => {
            let j = sep_end(src, i + kw.1);
            let rest = spec_modifiers(src, j);
            ((kw.0 | rest.0), rest.1)
        }
        Option::None => (0u32, sep_end(src, i)),
    }
}

#[via_fn]
proof fn spec_modifiers_dec(src: Seq<u8>, i: int) {
    match mod_kw(src, i) {
        Option::Some(kw) => {
            lemma_sep_end_bounds(src, i + kw.1);
        }
        Option::None => {}
    }
}

/// The modifier-sequence rule stays within the text and never retreats.
pub proof fn lemma_spec_modifiers_bounds(src: Seq<u8>, i: int)
    requires
        0 <= i <= src.len(),
    ensures
        i <= spec_modifiers(src, i).1 <= src.len(),
    decreases src.len() - i,
{
    match mod_kw(src, i) {
        Option::Some(kw) => {
            lemma_sep_end_bounds(src, i + kw.1);
            lemma_spec_modifiers_bounds(src, sep_end(src, i + kw.1));
        }
        Option::None => {
            lemma_sep_end_bounds(src, i);
        }
    }
}

/// The key and final position of the key rule at `i`: the maximal identifier,
/// resolved against the key-name table. On an empty identifier the cursor
/// does not move; an identifier that resolves to no key is still consumed
/// (the enclosing chord rule rolls the cursor back).
pub open spec fn spec_key(src: Seq<u8>, i: int) -> (Option<Key>, int) {
    let n = ident_run(src, i);
    if n == 0 {
        (Option::None, i)
    } else {
        (key_of_name(src.subrange(i, i + n)), i + n)
    }
}

/// The chord and final position of the chord rule at `i`: modifiers, then a
/// key (which must resolve), then trailing spaces. Fails as a whole, with
/// the cursor restored, iff the key rule fails.
pub open spec fn spec_chord(src: Seq<u8>, i: int) -> (Option<Chord>, int) {
    let m = spec_modifiers(src, i);
    let k = spec_key(src, m.1);
    match k.0 {
        Option::Some(key) => (
            Option::Some(Chord { modifiers: ModMask { bits: m.0 }, key }),
            k.1 + space_run(src, k.1),
        ),
        Option::None => (Option::None, i),
    }
}

/// The chord rule stays within the text, never retreats, and on success
/// consumes at least one byte.
pub proof fn lemma_spec_chord_bounds(src: Seq<u8>, i: int)
    requires
        0 <= i <= src.len(),
    ensures
        i <= spec_chord(src, i).1 <= src.len(),
        spec_chord(src, i).0 is Some ==> spec_chord(src, i).1 > i,
{
    lemma_spec_modifiers_bounds(src, i);
    let j = spec_modifiers(src, i).1;
    lemma_ident_run_le(src, j);
    let k = spec_key(src, j);
    lemma_space_run_le(src, k.1);
}


/// The captured content and final position of a multi-line block read at
/// line start `i` inside a block of reference indentation `mm`: every
/// contiguous line that passes the offside continuation test contributes its
/// bytes — its own indentation, up to `mm`, stripped; the rest, trailing
/// newline included, preserved verbatim. Stops at the first line that fails
/// the test, leaving the position at that line's start, or at the end of the
/// text.
pub open spec fn multiline_rec(src: Seq<u8>, i: int, mm: nat) -> (Seq<u8>, int)
    decreases src.len() - i,
    when 0 <= i <= src.len()
    via multiline_rec_dec
{
    if i >= src.len() {
        (Seq::empty(), i)
    } else {
        let m = space_run(src, i);
        let pos = i + m;
        if offside_failed(src, pos, m, mm) {
            (Seq::empty(), i)
        } else {
            let ni = next_line(src, pos);
            let strip: int = if m < mm { m as int } else { mm as int };
            let rest = multiline_rec(src, ni, mm);
            (src.subrange(i + strip, ni) + rest.0, rest.1)
        }
    }
}

#[via_fn]
proof fn multiline_rec_dec(src: Seq<u8>, i: int, mm: nat) {
    if 0 <= i < src.len() {
        lemma_space_run_le(src, i);
        lemma_line_end_bounds(src, i + space_run(src, i));
    }
}

/// A multi-line block stays within the text, never retreats, and ends at a
/// line start or at the end of the text.
pub proof fn lemma_multiline_rec_bounds(src: Seq<u8>, i: int, mm: nat)
    requires
        0 <= i <= src.len(),
    ensures
        i <= multiline_rec(src, i, mm).1 <= src.len(),
    decreases src.len() - i,
{
    if 0 <= i < src.len() {
        lemma_space_run_le(src, i);
        let m = space_run(src, i);
        let pos = i + m;
        lemma_line_end_bounds(src, pos);
        if !offside_failed(src, pos, m, mm) {
            lemma_multiline_rec_bounds(src, next_line(src, pos), mm);
        }
    }
}

/// The content of a multi-line block drawn from ASCII text is ASCII.
pub proof fn lemma_multiline_rec_ascii(src: Seq<u8>, i: int, mm: nat)
    requires
        ascii_seq(src),
        0 <= i <= src.len(),
    ensures
        ascii_seq(multiline_rec(src, i, mm).0),
    decreases src.len() - i,
{
    if 0 <= i < src.len() {
        lemma_space_run_le(src, i);
        let m = space_run(src, i);
        let pos = i + m;
        lemma_line_end_bounds(src, pos);
        if !offside_failed(src, pos, m, mm) {
            let ni = next_line(src, pos);
            lemma_multiline_rec_ascii(src, ni, mm);
        }
    }
}


/// Offside termination: at a line that fails the offside continuation test —
/// non-blank, indented strictly less than the block's reference indentation —
/// a multi-line block ends, consuming nothing of that line; at a blank line
/// it never ends: the block continues past the blank line.
pub proof fn lemma_offside_termination(src: Seq<u8>, i: int, mm: nat)
    requires
        0 <= i < src.len(),
    ensures
        offside_failed(src, i + space_run(src, i), space_run(src, i), mm)
            ==> multiline_rec(src, i, mm) == (Seq::<u8>::empty(), i),
        (i + space_run(src, i) < src.len() && src[i + space_run(src, i)] == NEWLINE)
            ==> multiline_rec(src, i, mm).1 >= next_line(src, i + space_run(src, i)),
{
    let m = space_run(src, i);
    let pos = i + m;
    lemma_space_run_le(src, i);
    lemma_line_end_bounds(src, pos);
    if !offside_failed(src, pos, m, mm) {
        lemma_multiline_rec_bounds(src, next_line(src, pos), mm);
    }
}

/// Offside termination for bind blocks: a line that fails the offside
/// continuation test ends the block, which leaves the cursor at that line's
/// start — the line is not consumed, so the enclosing block can re-measure
/// it.
pub proof fn lemma_offside_termination_block(
    src: Seq<u8>,
    i: int,
    j: int,
    mm: nat,
    bs: Seq<Bind>,
)
    requires
        0 <= i < src.len(),
        line_start(src, i),
        offside_failed(src, i + space_run(src, i), space_run(src, i), mm),
        binds_loop(src, i, j, mm, bs),
    ensures
        bs == Seq::<Bind>::empty(),
        j == i,
{
}

/// Multi-line stripping: a line that continues the block contributes its
/// bytes with its own indentation — up to the block's reference indentation —
/// stripped, and everything after it, the trailing newline included,
/// preserved verbatim; the contributions of the lines are concatenated with
/// nothing inserted between them. (The bind rule then trims trailing
/// whitespace of the finished command: see [`spec_bind`].)
pub proof fn lemma_multiline_stripping(src: Seq<u8>, i: int, mm: nat)
    requires
        0 <= i < src.len(),
        !offside_failed(src, i + space_run(src, i), space_run(src, i), mm),
    ensures
        ({
            let m = space_run(src, i);
            let strip: int = if m < mm { m as int } else { mm as int };
            multiline_rec(src, i, mm).0 == src.subrange(i + strip, next_line(src, i + m))
                + multiline_rec(src, next_line(src, i + m), mm).0
        }),
{
    reveal_with_fuel(multiline_rec, 2);
    let m = space_run(src, i);
    let pos = i + m;
    let strip: int = if m < mm { m as int } else { mm as int };
    let ni = next_line(src, pos);
    lemma_space_run_le(src, i);
    lemma_line_end_bounds(src, pos);
    assert(multiline_rec(src, i, mm).0 == src.subrange(i + strip, ni)
        + multiline_rec(src, ni, mm).0);
}

/// The content and final position of the multi-line rule at `i`: the first
/// line's indentation is the block's reference indentation.
pub open spec fn spec_multiline(src: Seq<u8>, i: int) -> (Seq<u8>, int) {
    multiline_rec(src, i, space_run(src, i))
}

/// The chord, trimmed command text and final position of the single-bind
/// rule at `i`: a chord, optional spaces, a literal `:`; then either a
/// newline followed by a multi-line block, or — after optional spaces — the
/// remainder of the line. Trailing whitespace is trimmed from the captured
/// command text. The produced bind runs a command and returns to the root
/// mode.
#[verifier::opaque]
pub open spec fn spec_bind(src: Seq<u8>, i: int) -> (Option<(Chord, Seq<u8>)>, int) {
    let c = spec_chord(src, i);
    match c.0 {
        Option::None => (Option::None, i),
        Option::Some(ch) => {
            let j = c.1 + space_run(src, c.1);
            if lit_at(src, j, colon_bytes()) {
                let j2 = j + 1;
                if lit_at(src, j2, newline_bytes()) {
                    let r = spec_multiline(src, j2 + 1);
                    (Option::Some((ch, trim_end(r.0))), r.1)
                } else if j2 < src.len() {
                    let j3 = j2 + space_run(src, j2);
                    (
                        Option::Some((ch, trim_end(src.subrange(j3, line_end(src, j3))))),
                        next_line(src, j3),
                    )
                } else {
                    (Option::None, i)
                }
            } else {
                (Option::None, i)
            }
        }
    }
}

/// The single-bind rule stays within the text and on success consumes at
/// least one byte.
pub proof fn lemma_spec_bind_bounds(src: Seq<u8>, i: int)
    requires
        0 <= i <= src.len(),
    ensures
        i <= spec_bind(src, i).1 <= src.len(),
        spec_bind(src, i).0 is Some ==> spec_bind(src, i).1 > i,
{
    reveal(spec_bind);
    lemma_spec_chord_bounds(src, i);
    let c = spec_chord(src, i);
    if c.0 is Some {
        lemma_space_run_le(src, c.1);
        let j = c.1 + space_run(src, c.1);
        if lit_at(src, j, colon_bytes()) {
            let j2 = j + 1;
            if lit_at(src, j2, newline_bytes()) {
                lemma_multiline_rec_bounds(src, j2 + 1, space_run(src, j2 + 1));
            } else if j2 < src.len() {
                lemma_space_run_le(src, j2);
                lemma_line_end_bounds(src, j2 + space_run(src, j2));
            }
        }
    }
}


/// The chord and body-start position of a mode header at `i`: the literal
/// `mode`, at least one space, a chord, optional spaces, and the exact
/// literal `:` immediately followed by a newline (trailing space after the
/// colon fails the rule, since the offside engine must start measuring the
/// next line from column zero).
#[verifier::opaque]
pub open spec fn mode_header(src: Seq<u8>, i: int) -> Option<(Chord, int)> {
    if lit_at(src, i, kw_mode()) && space_run(src, i + 4) > 0 {
        let j = i + 4 + space_run(src, i + 4);
        let c = spec_chord(src, j);
        match c.0 {
            Option::Some(ch) => {
                let j2 = c.1 + space_run(src, c.1);
                if lit_at(src, j2, colon_nl_bytes()) {
                    Option::Some((ch, j2 + 2))
                } else {
                    Option::None
                }
            }
            Option::None => Option::None,
        }
    } else {
        Option::None
    }
}


/// Marks a candidate split position between a parsed construct and the rest
/// of its block; carries no condition and serves as the quantifier trigger
/// in [`binds_loop`].
pub open spec fn block_boundary(k: int) -> bool {
    true
}

/// A mode bind spans exactly `[i, j)`: its header, then the nested bind
/// sequence, whose block rule ends exactly at `j`. The produced bind has no
/// output and its action enters the nested binds.
pub open spec fn mode_at(src: Seq<u8>, i: int, j: int, b: Bind) -> bool
    decreases j - i, 0int,
{
    match mode_header(src, i) {
        Option::Some(h) => {
            &&& i < h.1 <= j
            &&& b.chord == h.0
            &&& b.output is None
            &&& b.action matches Action::EnterMode { binds }
            &&& binds_at(src, h.1, j, binds@)
        }
        Option::None => false,
    }
}

/// A bind sequence spans exactly `[i, j)` under the block rule, the first
/// line's indentation being the block's reference indentation.
pub open spec fn binds_at(src: Seq<u8>, i: int, j: int, bs: Seq<Bind>) -> bool
    decreases j - i, 2int,
{
    i <= j && binds_loop(src, i, j, space_run(src, i), bs)
}

/// The block rule from line start `i` to `j`, inside a block of reference
/// indentation `mm`, yields exactly the binds `bs`: repeatedly, a line that
/// fails the offside test ends the block unconsumed; blank lines and
/// comments are skipped; otherwise a mode bind or a single bind is parsed;
/// when neither matches, the block ends at the failure point, the measured
/// indentation consumed.
pub open spec fn binds_loop(src: Seq<u8>, i: int, j: int, mm: nat, bs: Seq<Bind>) -> bool
    decreases j - i, 1int,
{
    if i >= src.len() || !line_start(src, i) {
        bs == Seq::<Bind>::empty() && j == i
    } else {
        let m = space_run(src, i);
        let pos = i + m;
        if offside_failed(src, pos, m, mm) {
            bs == Seq::<Bind>::empty() && j == i
        } else if pos < src.len() && src[pos] == NEWLINE {
            &&& i < pos + newline_run(src, pos) <= j
            &&& binds_loop(src, pos + newline_run(src, pos), j, mm, bs)
        } else if pos < src.len() && src[pos] == 35 {
            &&& i < next_line(src, pos) <= j
            &&& binds_loop(src, next_line(src, pos), j, mm, bs)
        } else if mode_header(src, pos) is Some {
            exists|k: int|
                #![trigger block_boundary(k)]
                {
                    &&& block_boundary(k)
                    &&& i + space_run(src, i) < k <= j
                    &&& bs.len() > 0
                    &&& mode_at(src, i + space_run(src, i), k, bs[0])
                    &&& binds_loop(src, k, j, mm, bs.drop_first())
                }
        } else {
            let sb = spec_bind(src, pos);
            match sb.0 {
                Option::Some(p) => {
                    &&& i < sb.1 <= j
                    &&& bs.len() > 0
                    &&& bs[0].chord == p.0
                    &&& bs[0].output matches Option::Some(o)
                    &&& o@ == chars_of(p.1)
                    &&& bs[0].action is ToRoot
                    &&& binds_loop(src, sb.1, j, mm, bs.drop_first())
                }
                Option::None => bs == Seq::<Bind>::empty() && j == pos,
            }
        }
    }
}



/// Prepending a parsed mode bind to the rest of a block keeps the block
/// relation: step introduction for the mode case of the block rule.
proof fn lemma_binds_loop_cons_mode(src: Seq<u8>, i: int, j: int, mm: nat, k: int, bs: Seq<Bind>)
    requires
        0 <= i < src.len(),
        line_start(src, i),
        !offside_failed(src, i + space_run(src, i), space_run(src, i), mm),
        !(i + space_run(src, i) < src.len() && src[i + space_run(src, i)] == NEWLINE),
        !(i + space_run(src, i) < src.len() && src[i + space_run(src, i)] == 35),
        mode_header(src, i + space_run(src, i)) is Some,
        i + space_run(src, i) < k <= j,
        bs.len() > 0,
        mode_at(src, i + space_run(src, i), k, bs[0]),
        binds_loop(src, k, j, mm, bs.drop_first()),
    ensures
        binds_loop(src, i, j, mm, bs),
{
    let pos = i + space_run(src, i);
    assert(block_boundary(k));
    assert(exists|kk: int|
        #![trigger block_boundary(kk)]
        {
            &&& block_boundary(kk)
            &&& pos < kk <= j
            &&& bs.len() > 0
            &&& mode_at(src, pos, kk, bs[0])
            &&& binds_loop(src, kk, j, mm, bs.drop_first())
        }) by {
        assert({
            &&& block_boundary(k)
            &&& pos < k <= j
            &&& bs.len() > 0
            &&& mode_at(src, pos, k, bs[0])
            &&& binds_loop(src, k, j, mm, bs.drop_first())
        });
    }
}

/// Step introduction for the single-bind case of the block rule.
proof fn lemma_binds_loop_cons_bind(src: Seq<u8>, i: int, j: int, mm: nat, bs: Seq<Bind>)
    requires
        0 <= i < src.len(),
        line_start(src, i),
        !offside_failed(src, i + space_run(src, i), space_run(src, i), mm),
        !(i + space_run(src, i) < src.len() && src[i + space_run(src, i)] == NEWLINE),
        !(i + space_run(src, i) < src.len() && src[i + space_run(src, i)] == 35),
        mode_header(src, i + space_run(src, i)) is None,
        spec_bind(src, i + space_run(src, i)).0 is Some,
        i + space_run(src, i) < spec_bind(src, i + space_run(src, i)).1 <= j,
        bs.len() > 0,
        ({
            let p = spec_bind(src, i + space_run(src, i)).0->0;
            &&& bs[0].chord == p.0
            &&& bs[0].output matches Option::Some(o)
            &&& o@ == chars_of(p.1)
            &&& bs[0].action is ToRoot
        }),
        binds_loop(src, spec_bind(src, i + space_run(src, i)).1, j, mm, bs.drop_first()),
    ensures
        binds_loop(src, i, j, mm, bs),
{
}

/// Whether a byte counts as trailing whitespace when a command is trimmed.
fn trim_byte(c: u8) -> (r: bool)
    ensures
        r == is_trim_byte(c),
{
    c == 32 || (9 <= c && c <= 13)
}

/// Remove trailing whitespace bytes.
fn trim_end_vec(v: Vec<u8>) -> (r: Vec<u8>)
    ensures
        r@ == trim_end(v@),
{
    let ghost v0 = v@;
    let mut v = v;
    while v.len() > 0 && trim_byte(v[v.len() - 1])
        invariant
            crate::text::trim_end(v0) == crate::text::trim_end(v@),
        decreases v@.len(),
    {
        proof {
            crate::text::lemma_trimmed_len_drop_last(v@);
            crate::text::lemma_trimmed_len(v@);
            assert(crate::text::trim_end(v@) =~= crate::text::trim_end(v@.drop_last()));
        }
        v.pop();
    }
    proof {
        crate::text::lemma_trimmed_len(v@);
        assert(crate::text::trim_end(v@) =~= v@);
    }
    v
}

/// Relies on String::from_utf8_lossy: bytes that are valid UTF-8 — in
/// particular any all-ASCII bytes — convert to the string of exactly those
/// characters, one per byte.
#[verifier::external_body]
fn bytes_to_string(v: &Vec<u8>) -> (r: String)
    ensures
        ascii_seq(v@) ==> r@ == chars_of(v@),
{
    String::from_utf8_lossy(v.as_slice()).into_owned()
}

/// Append the bytes of `src[from..to]` to `out`.
fn push_range(out: &mut Vec<u8>, src: &[u8], from: usize, to: usize)
    requires
        from <= to <= src@.len(),
    ensures
        final(out)@ == old(out)@ + src@.subrange(from as int, to as int),
{
    proof {
        assert(out@ =~= out@ + src@.subrange(from as int, from as int));
    }
    let mut k = from;
    while k < to
        invariant
            from <= k <= to <= src@.len(),
            out@ == old(out)@ + src@.subrange(from as int, k as int),
        decreases to - k,
    {
        out.push(src[k]);
        k += 1;
        proof {
            assert(src@.subrange(from as int, k as int) =~= src@.subrange(
                from as int, k - 1) .push(src@[k - 1]));
            assert(out@ =~= old(out)@ + src@.subrange(from as int, k as int));
        }
    }
}

impl<'a> ParserData<'a> {
    /// Returns true and advances the parser's position when the literal is
    /// matched exactly at the cursor; no partial matches.
    pub fn string(&self, s: &mut ParserState, lit: &str) -> (r: bool)
        requires
            old(s).i <= self.src@.len(),
        ensures
            r == lit_at(self.src@, old(s).i as int, lit.spec_bytes()),
            r ==> final(s).i == old(s).i + lit.spec_bytes().len(),
            !r ==> final(s).i == old(s).i,
            final(s).i <= self.src@.len(),
    {
        let lb = lit.as_bytes();
        let n = lb.len();
        let srclen = self.src.len();
        if srclen - s.i < n {
            return false;
        }
        let mut k: usize = 0;
        while k < n
            invariant
                0 <= k <= n,
                s.i + n <= srclen,
                srclen == self.src@.len(),
                lb@ == lit.spec_bytes(),
                n == lb@.len(),
                forall|j: int| 0 <= j < k ==> self.src@[s.i + j] == lb@[j],
            decreases n - k,
        {
            if self.src[s.i + k] != lb[k] {
                proof {
                    let i = s.i as int;
                    assert(self.src@.subrange(i, i + n)[k as int] == self.src@[i + k]);
                }
                return false;
            }
            k += 1;
        }
        proof {
            let i = s.i as int;
            assert(self.src@.subrange(i, i + n) =~= lit.spec_bytes());
        }
        s.i += n;
        true
    }

    /// Advances the parser's position and returns a token when the cursor
    /// stands on an identifier: the maximal run of ASCII alphanumerics, `_`
    /// and `-`. Fails, leaving the cursor in place, when that run is empty.
    pub fn identifier(&self, s: &mut ParserState) -> (r: Option<Token<'a>>)
        requires
            old(s).i <= self.src@.len(),
        ensures
            final(s).i <= self.src@.len(),
            ({
                let n = ident_run(self.src@, old(s).i as int);
                match r {
                    Option::Some(t) => n > 0 && final(s).i == old(s).i + n && t.i == old(s).i
                        && t.slice@ == self.src@.subrange(old(s).i as int, final(s).i as int),
                    Option::None => n == 0 && final(s).i == old(s).i,
                }
            }),
    {
        let start = s.i;
        let ghost src = self.src@;
        let srclen = self.src.len();
        while s.i < srclen && ident_byte(self.src[s.i])
            invariant
                start <= s.i <= srclen,
                srclen == src.len(),
                src == self.src@,
                ident_run(src, start as int) == s.i - start + ident_run(src, s.i as int),
            decreases srclen - s.i,
        {
            s.i += 1;
        }
        proof {
            assert(ident_run(src, s.i as int) == 0);
        }
        if s.i == start {
            return Option::None;
        }
        Option::Some(Token { slice: slice_subrange(self.src, start, s.i), i: start })
    }

    /// Advances the parser's position and returns a token when the cursor
    /// stands on a comment: `#` up to the end of the line. The token holds
    /// the comment text without the newline; the newline is consumed.
    pub fn comment(&self, s: &mut ParserState) -> (r: Option<Token<'a>>)
        requires
            old(s).i <= self.src@.len(),
        ensures
            final(s).i <= self.src@.len(),
            ({
                let i = old(s).i as int;
                match r {
                    Option::Some(t) => i < self.src@.len() && self.src@[i] == 35
                        && t.i == old(s).i
                        && t.slice@ == self.src@.subrange(i, line_end(self.src@, i))
                        && final(s).i == next_line(self.src@, i),
                    Option::None => (i >= self.src@.len() || self.src@[i] != 35)
                        && final(s).i == old(s).i,
                }
            }),
    {
        if self.src.len() <= s.i || self.src[s.i] != 35 {
            return Option::None;
        }
        self.line(s)
    }

    /// Advance past a maximal run of the space character only (not tabs).
    pub fn whitespace(&self, s: &mut ParserState)
        requires
            old(s).i <= self.src@.len(),
        ensures
            final(s).i == old(s).i + space_run(self.src@, old(s).i as int),
            final(s).i <= self.src@.len(),
    {
        let ghost src = self.src@;
        let ghost start = s.i as int;
        let srclen = self.src.len();
        while s.i < srclen && self.src[s.i] == 32
            invariant
                0 <= start <= s.i <= srclen,
                srclen == src.len(),
                src == self.src@,
                space_run(src, start) == s.i - start + space_run(src, s.i as int),
            decreases srclen - s.i,
        {
            s.i += 1;
        }
        proof {
            assert(space_run(src, s.i as int) == 0);
        }
    }

    /// Advance past a maximal run of newlines.
    pub fn newlines(&self, s: &mut ParserState)
        requires
            old(s).i <= self.src@.len(),
        ensures
            final(s).i == old(s).i + newline_run(self.src@, old(s).i as int),
            final(s).i <= self.src@.len(),
    {
        let ghost src = self.src@;
        let ghost start = s.i as int;
        let srclen = self.src.len();
        while s.i < srclen && self.src[s.i] == 10
            invariant
                0 <= start <= s.i <= srclen,
                srclen == src.len(),
                src == self.src@,
                newline_run(src, start) == s.i - start + newline_run(src, s.i as int),
            decreases srclen - s.i,
        {
            s.i += 1;
        }
        proof {
            assert(newline_run(src, s.i as int) == 0);
        }
    }

    /// Match a single line: the content up to the next newline, excluding the
    /// newline itself, which is consumed (or up to the end of the text when
    /// no newline remains). Fails only when the cursor is already at the end.
    pub fn line(&self, s: &mut ParserState) -> (r: Option<Token<'a>>)
        requires
            old(s).i <= self.src@.len(),
        ensures
            final(s).i <= self.src@.len(),
            ({
                let i = old(s).i as int;
                match r {
                    Option::Some(t) => i < self.src@.len() && t.i == old(s).i
                        && t.slice@ == self.src@.subrange(i, line_end(self.src@, i))
                        && final(s).i == next_line(self.src@, i),
                    Option::None => i >= self.src@.len() && final(s).i == old(s).i,
                }
            }),
    {
        if self.src.len() <= s.i {
            return Option::None;
        }
        let start = s.i;
        self.to_line_end(s);
        proof {
            lemma_line_end_bounds(self.src@, start as int);
        }
        let e = s.i;
        if s.i < self.src.len() {
            s.i += 1;
        }
        Option::Some(Token { slice: slice_subrange(self.src, start, e), i: start })
    }

    /// Advance the cursor to the end of the current line: the next newline,
    /// or the end of the text.
    fn to_line_end(&self, s: &mut ParserState)
        requires
            old(s).i <= self.src@.len(),
        ensures
            final(s).i == line_end(self.src@, old(s).i as int),
    {
        let ghost src = self.src@;
        let ghost start = s.i as int;
        let srclen = self.src.len();
        while s.i < srclen && self.src[s.i] != 10
            invariant
                0 <= start <= s.i <= srclen,
                srclen == src.len(),
                src == self.src@,
                line_end(src, start) == line_end(src, s.i as int),
            decreases srclen - s.i,
        {
            s.i += 1;
        }
    }

    /// Advance past the leading spaces of the current line and return their
    /// count. May be called only when the parser stands at the beginning of
    /// a line.
    pub fn offside(&self, s: &mut ParserState) -> (r: usize)
        requires
            old(s).i <= self.src@.len(),
            line_start(self.src@, old(s).i as int) || old(s).i == self.src@.len(),
        ensures
            r == space_run(self.src@, old(s).i as int),
            final(s).i == old(s).i + r,
            final(s).i <= self.src@.len(),
    {
        let start = s.i;
        self.whitespace(s);
        s.i - start
    }

    /// Whether the offside rule fails at the cursor for a line of measured
    /// indentation `m` inside a block of reference indentation `mm`: the
    /// line is indented strictly less than the block and is not blank.
    pub fn offside_rule(&self, s: &ParserState, m: usize, mm: usize) -> (r: bool)
        requires
            s.i <= self.src@.len(),
        ensures
            r == offside_failed(self.src@, s.i as int, m as nat, mm as nat),
    {
        m < mm && (s.i >= self.src.len() || self.src[s.i] != 10)
    }

    /// Parse a modifier sequence, accumulating the flags of the keywords
    /// that match; always succeeds, possibly with the empty set.
    pub fn modifier(&self, s: &mut ParserState) -> (r: ModMask)
        requires
            old(s).i <= self.src@.len(),
        ensures
            r.bits == spec_modifiers(self.src@, old(s).i as int).0,
            final(s).i == spec_modifiers(self.src@, old(s).i as int).1,
            old(s).i <= final(s).i <= self.src@.len(),
        decreases self.src@.len() - s.i,
    {
        proof {
            lemma_lit_shift();
            lemma_lit_caps_lock();
            lemma_lit_ctrl();
            lemma_lit_alt();
            lemma_lit_num_lock();
            lemma_lit_mod3();
            lemma_lit_super();
            lemma_lit_mod5();
            lemma_lit_plus();
            lemma_spec_modifiers_bounds(self.src@, s.i as int);
        }
        let flags: u32;
        if self.string(s, "shift") {
            flags = MOD_SHIFT;
        } else if self.string(s, "caps-lock") {
            flags = MOD_LOCK;
        } else if self.string(s, "ctrl") {
            flags = MOD_CONTROL;
        } else if self.string(s, "alt") {
            flags = MOD_1;
        } else if self.string(s, "num-lock") {
            flags = MOD_2;
        } else if self.string(s, "mod3") {
            flags = MOD_3;
        } else if self.string(s, "super") {
            flags = MOD_4;
        } else if self.string(s, "mod5") {
            flags = MOD_5;
        } else {
            // No keyword: the lone separator is still consumed. This parses
            // some invalid files, by design.
            self.whitespace(s);
            self.string(s, "+");
            self.whitespace(s);
            return ModMask::empty();
        }
        self.whitespace(s);
        self.string(s, "+");
        self.whitespace(s);
        let rest = self.modifier(s);
        ModMask { bits: flags | rest.bits }
    }

    /// Parse a key identifier and resolve it against the key-name table.
    pub fn key(&self, s: &mut ParserState) -> (r: Option<Key>)
        requires
            old(s).i <= self.src@.len(),
        ensures
            r == spec_key(self.src@, old(s).i as int).0,
            final(s).i == spec_key(self.src@, old(s).i as int).1,
            old(s).i <= final(s).i <= self.src@.len(),
    {
        match self.identifier(s) {
            Option::Some(t) => Key::from_name(t.slice),
            Option::None => Option::None,
        }
    }

    /// Parse a chord: a modifier sequence, a key, and trailing spaces. On
    /// failure the cursor is fully rolled back.
    pub fn chord(&self, s: &mut ParserState) -> (r: Option<Chord>)
        requires
            old(s).i <= self.src@.len(),
        ensures
            r == spec_chord(self.src@, old(s).i as int).0,
            final(s).i == spec_chord(self.src@, old(s).i as int).1,
            final(s).i <= self.src@.len(),
            r is Some ==> old(s).i < final(s).i,
            r is None ==> final(s).i == old(s).i,
    {
        let save = s.i;
        let m = self.modifier(s);
        match self.key(s) {
            Option::Some(key) => {
                self.whitespace(s);
                proof {
                    lemma_space_run_le(self.src@, spec_key(self.src@,
                        spec_modifiers(self.src@, save as int).1).1);
                }
                Option::Some(Chord { modifiers: m, key })
            }
            Option::None => {
                s.i = save;
                Option::None
            }
        }
    }

    /// Collect the bytes of an indented multi-line block, the indentation of
    /// each line stripped up to the block's reference indentation `mm`.
    fn multiline_go(&self, s: &mut ParserState, mm: usize, out: &mut Vec<u8>)
        requires
            old(s).i <= self.src@.len(),
            line_start(self.src@, old(s).i as int) || old(s).i == self.src@.len(),
        ensures
            final(out)@ == old(out)@ + multiline_rec(self.src@, old(s).i as int, mm as nat).0,
            final(s).i == multiline_rec(self.src@, old(s).i as int, mm as nat).1,
            old(s).i <= final(s).i <= self.src@.len(),
            final(s).i == self.src@.len() || line_start(self.src@, final(s).i as int),
        decreases self.src@.len() - s.i,
    {
        let ghost src = self.src@;
        let ghost start = s.i as int;
        if s.i >= self.src.len() {
            proof {
                assert(out@ =~= out@ + multiline_rec(src, start, mm as nat).0);
            }
            return;
        }
        let save = s.i;
        let m = self.offside(s);
        if self.offside_rule(s, m, mm) {
            s.i = save;
            proof {
                assert(out@ =~= out@ + multiline_rec(src, start, mm as nat).0);
            }
            return;
        }
        // Strip the line's own indentation, up to the block's reference
        // column; what stands beyond it is content and is preserved.
        let strip = if m < mm { m } else { mm };
        let ghost pos = s.i as int;
        self.to_line_end(s);
        proof {
            lemma_line_end_bounds(src, pos);
        }
        if s.i < self.src.len() {
            s.i += 1;
        }
        let ghost chunk = src.subrange(start + strip, s.i as int);
        push_range(out, self.src, save + strip, s.i);
        let ghost mid = out@;
        self.multiline_go(s, mm, out);
        proof {
            let rest = multiline_rec(src, next_line(src, pos), mm as nat);
            assert(multiline_rec(src, start, mm as nat).0 == chunk + rest.0);
            assert(out@ =~= old(out)@ + multiline_rec(src, start, mm as nat).0);
        }
    }

    /// Match an indented multi-line string; the first line's indentation is
    /// the block's reference indentation, and each captured line's own
    /// indentation, up to that reference, is stripped off.
    pub fn multiline(&self, s: &mut ParserState) -> (r: String)
        requires
            ascii_seq(self.src@),
            old(s).i <= self.src@.len(),
            line_start(self.src@, old(s).i as int) || old(s).i == self.src@.len(),
        ensures
            r@ == chars_of(spec_multiline(self.src@, old(s).i as int).0),
            final(s).i == spec_multiline(self.src@, old(s).i as int).1,
            old(s).i <= final(s).i <= self.src@.len(),
            final(s).i == self.src@.len() || line_start(self.src@, final(s).i as int),
    {
        let v = self.multiline_vec(s);
        proof {
            lemma_multiline_rec_ascii(self.src@, old(s).i as int,
                space_run(self.src@, old(s).i as int));
        }
        bytes_to_string(&v)
    }

    /// The byte contents of an indented multi-line block.
    fn multiline_vec(&self, s: &mut ParserState) -> (r: Vec<u8>)
        requires
            old(s).i <= self.src@.len(),
            line_start(self.src@, old(s).i as int) || old(s).i == self.src@.len(),
        ensures
            r@ == spec_multiline(self.src@, old(s).i as int).0,
            final(s).i == spec_multiline(self.src@, old(s).i as int).1,
            old(s).i <= final(s).i <= self.src@.len(),
            final(s).i == self.src@.len() || line_start(self.src@, final(s).i as int),
    {
        let save = s.i;
        let mm = self.offside(s);
        s.i = save;
        let mut out: Vec<u8> = Vec::new();
        self.multiline_go(s, mm, &mut out);
        out
    }

    /// Parse a key bind: a chord, a `:`, and a command — the rest of the
    /// line, or an indented multi-line block when the `:` ends its line.
    /// Trailing whitespace is trimmed from the command.
    pub fn bind(&self, s: &mut ParserState) -> (r: Option<Bind>)
        requires
            ascii_seq(self.src@),
            old(s).i <= self.src@.len(),
        ensures
            final(s).i <= self.src@.len(),
            match r {
                Option::None => spec_bind(self.src@, old(s).i as int).0 is None
                    && final(s).i == old(s).i,
                Option::Some(b) => ({
                    let sb = spec_bind(self.src@, old(s).i as int);
                    &&& sb.0 matches Option::Some(p)
                    &&& b.chord == p.0
                    &&& b.output matches Option::Some(o)
                    &&& o@ == chars_of(p.1)
                    &&& b.action is ToRoot
                    &&& final(s).i == sb.1
                    &&& old(s).i < final(s).i
                    &&& final(s).i == self.src@.len()
                        || line_start(self.src@, final(s).i as int)
                }),
            },
    {
        proof {
            reveal(spec_bind);
        }
        let ghost src = self.src@;
        let ghost start = s.i as int;
        let save = s.i;
        let c = match self.chord(s) {
            Option::Some(c) => c,
            Option::None => {
                return Option::None;
            }
        };
        self.whitespace(s);
        proof {
            lemma_lit_colon();
            lemma_lit_newline();
            lemma_space_run_le(src, spec_chord(src, start).1);
        }
        if !self.string(s, ":") {
            s.i = save;
            return Option::None;
        }
        let output: Vec<u8>;
        if self.string(s, "\n") {
            proof {
                let j2 = spec_chord(src, start).1 + space_run(src, spec_chord(src,
                    start).1) + 1;
                assert(src.subrange(j2, j2 + 1)[0] == src[j2]);
            }
            output = self.multiline_vec(s);
        } else if self.src.len() <= s.i {
            s.i = save;
            return Option::None;
        } else {
            // Spaces between the colon and the command are not part of it.
            self.whitespace(s);
            if self.src.len() <= s.i {
                output = Vec::new();
            } else {
                match self.line(s) {
                    Option::Some(t) => {
                        output = vstd::slice::slice_to_vec(t.slice);
                    }
                    Option::None => {
                        s.i = save;
                        return Option::None;
                    }
                }
            }
        }
        proof {
            let j2 = spec_chord(src, start).1 + space_run(src, spec_chord(src,
                start).1) + 1;
            if !lit_at(src, j2, newline_bytes()) {
                lemma_space_run_le(src, j2);
                lemma_line_end_bounds(src, j2 + space_run(src, j2));
            } else {
                lemma_multiline_rec_ascii(src, j2 + 1, space_run(src, j2 + 1));
            }
            assert(ascii_seq(output@));
            crate::text::lemma_trimmed_len(output@);
            assert(ascii_seq(trim_end(output@)));
        }
        let trimmed = trim_end_vec(output);
        let text = bytes_to_string(&trimmed);
        Option::Some(Bind { chord: c, output: Option::Some(text), action: Action::ToRoot })
    }

    /// Parse a mode bind: the literal `mode`, a space, a chord, and a colon
    /// ending its line; then the nested bind sequence at greater indentation.
    pub fn mode(&self, s: &mut ParserState) -> (r: Option<Bind>)
        requires
            ascii_seq(self.src@),
            old(s).i <= self.src@.len(),
        ensures
            final(s).i <= self.src@.len(),
            match r {
                Option::None => mode_header(self.src@, old(s).i as int) is None
                    && final(s).i == old(s).i,
                Option::Some(b) => mode_at(self.src@, old(s).i as int,
                    final(s).i as int, b) && old(s).i < final(s).i
                    && mode_header(self.src@, old(s).i as int) is Some,
            },
        decreases self.src@.len() - s.i, 0int,
    {
        let ghost src = self.src@;
        let ghost start = s.i as int;
        let save = s.i;
        proof {
            reveal(mode_header);
            lemma_lit_mode();
            lemma_lit_colon_nl();
        }
        if !self.string(s, "mode") {
            return Option::None;
        }
        let w0 = s.i;
        self.whitespace(s);
        if s.i == w0 {
            // The grammar requires at least one space after the keyword.
            s.i = save;
            return Option::None;
        }
        let c = match self.chord(s) {
            Option::Some(c) => c,
            Option::None => {
                s.i = save;
                return Option::None;
            }
        };
        self.whitespace(s);
        // Trailing whitespace after the colon would cause problems: the
        // colon must end its line.
        if !self.string(s, ":\n") {
            s.i = save;
            return Option::None;
        }
        let ghost h = s.i as int;
        proof {
            assert(src.subrange(h - 2, h)[1] == src[h - 1]);
        }
        let binds = self.binds(s);
        Option::Some(Bind {
            chord: c,
            output: Option::None,
            action: Action::EnterMode { binds },
        })
    }

    /// Parse the insides of a mode block, or the entire file: the bind
    /// sequence of the block starting at the cursor's line.
    pub fn binds(&self, s: &mut ParserState) -> (r: Vec<Bind>)
        requires
            ascii_seq(self.src@),
            old(s).i <= self.src@.len(),
            line_start(self.src@, old(s).i as int) || old(s).i == self.src@.len(),
        ensures
            binds_at(self.src@, old(s).i as int, final(s).i as int, r@),
            old(s).i <= final(s).i <= self.src@.len(),
        decreases self.src@.len() - s.i, 2int,
    {
        let save = s.i;
        let mm = self.offside(s);
        s.i = save;
        let r = self.binds_rec(s, mm);
        proof {
            assert(mm as nat == space_run(self.src@, save as int));
        }
        r
    }

    /// The body of the block rule: one bind, mode, blank line or comment per
    /// step, until the block ends.
    #[verifier::rlimit(100)]
    fn binds_rec(&self, s: &mut ParserState, mm: usize) -> (r: Vec<Bind>)
        requires
            ascii_seq(self.src@),
            old(s).i <= self.src@.len(),
        ensures
            binds_loop(self.src@, old(s).i as int, final(s).i as int, mm as nat, r@),
            old(s).i <= final(s).i <= self.src@.len(),
        decreases self.src@.len() - s.i, 1int,
    {
        let ghost src = self.src@;
        let ghost start = s.i as int;
        if s.i >= self.src.len() {
            let r: Vec<Bind> = Vec::new();
            proof {
                assert(r@ =~= Seq::<Bind>::empty());
            }
            return r;
        }
        if !(s.i == 0 || self.src[s.i - 1] == 10) {
            // An enclosed block stopped at a failure point mid-line; this
            // block ends there too.
            let r: Vec<Bind> = Vec::new();
            proof {
                assert(r@ =~= Seq::<Bind>::empty());
            }
            return r;
        }
        let save = s.i;
        let m = self.offside(s);
        if self.offside_rule(s, m, mm) {
            s.i = save;
            let r: Vec<Bind> = Vec::new();
            proof {
                assert(r@ =~= Seq::<Bind>::empty());
            }
            return r;
        }
        let ghost pos = s.i as int;
        // Blank lines and comments are permitted anywhere a bind could
        // start: blank lines always pass the offside continuation test.
        if s.i < self.src.len() && self.src[s.i] == 10 {
            self.newlines(s);
            proof {
                assert(newline_run(src, pos) >= 1);
            }
            let r = self.binds_rec(s, mm);
            return r;
        }
        if s.i < self.src.len() && self.src[s.i] == 35 {
            let _ = self.comment(s);
            proof {
                lemma_line_end_bounds(src, pos);
            }
            let r = self.binds_rec(s, mm);
            return r;
        }
        match self.mode(s) {
            Option::Some(b) => {
                let ghost k = s.i as int;
                let mut r = self.binds_rec(s, mm);
                let ghost rest = r@;
                let ghost j = s.i as int;
                r.insert(0, b);
                proof {
                    assert(r@.drop_first() =~= rest);
                    assert(r@[0] == b);
                    lemma_binds_loop_cons_mode(src, start, j, mm as nat, k, r@);
                }
                return r;
            }
            Option::None => {}
        }
        match self.bind(s) {
            Option::Some(b) => {
                let ghost k = s.i as int;
                let mut r = self.binds_rec(s, mm);
                let ghost rest = r@;
                let ghost j = s.i as int;
                r.insert(0, b);
                proof {
                    assert(r@.drop_first() =~= rest);
                    assert(r@[0] == b);
                    lemma_binds_loop_cons_bind(src, start, j, mm as nat, r@);
                }
                return r;
            }
            Option::None => {
                // Neither rule matches: trailing unparseable content is
                // silently ignored, the block ends at the failure point.
                let r: Vec<Bind> = Vec::new();
                proof {
                    assert(r@ =~= Seq::<Bind>::empty());
                }
                return r;
            }
        }
    }
}

/// The literal `"shift"` holds the bytes of [`kw_shift`]; likewise each of
/// the bridging lemmas below ties one source literal to its byte sequence.
proof fn lemma_lit_shift()
    ensures
        "shift".spec_bytes() == kw_shift(),
{
    reveal_strlit("shift");
    assert(vstd::string::is_ascii("shift"));
    vstd::string::is_ascii_spec_bytes("shift");
    assert("shift".spec_bytes() =~= kw_shift());
}

proof fn lemma_lit_caps_lock()
    ensures
        "caps-lock".spec_bytes() == kw_caps_lock(),
{
    reveal_strlit("caps-lock");
    assert(vstd::string::is_ascii("caps-lock"));
    vstd::string::is_ascii_spec_bytes("caps-lock");
    assert("caps-lock".spec_bytes() =~= kw_caps_lock());
}

proof fn lemma_lit_ctrl()
    ensures
        "ctrl".spec_bytes() == kw_ctrl(),
{
    reveal_strlit("ctrl");
    assert(vstd::string::is_ascii("ctrl"));
    vstd::string::is_ascii_spec_bytes("ctrl");
    assert("ctrl".spec_bytes() =~= kw_ctrl());
}

proof fn lemma_lit_alt()
    ensures
        "alt".spec_bytes() == kw_alt(),
{
    reveal_strlit("alt");
    assert(vstd::string::is_ascii("alt"));
    vstd::string::is_ascii_spec_bytes("alt");
    assert("alt".spec_bytes() =~= kw_alt());
}

proof fn lemma_lit_num_lock()
    ensures
        "num-lock".spec_bytes() == kw_num_lock(),
{
    reveal_strlit("num-lock");
    assert(vstd::string::is_ascii("num-lock"));
    vstd::string::is_ascii_spec_bytes("num-lock");
    assert("num-lock".spec_bytes() =~= kw_num_lock());
}

proof fn lemma_lit_mod3()
    ensures
        "mod3".spec_bytes() == kw_mod3(),
{
    reveal_strlit("mod3");
    assert(vstd::string::is_ascii("mod3"));
    vstd::string::is_ascii_spec_bytes("mod3");
    assert("mod3".spec_bytes() =~= kw_mod3());
}

proof fn lemma_lit_super()
    ensures
        "super".spec_bytes() == kw_super(),
{
    reveal_strlit("super");
    assert(vstd::string::is_ascii("super"));
    vstd::string::is_ascii_spec_bytes("super");
    assert("super".spec_bytes() =~= kw_super());
}

proof fn lemma_lit_mod5()
    ensures
        "mod5".spec_bytes() == kw_mod5(),
{
    reveal_strlit("mod5");
    assert(vstd::string::is_ascii("mod5"));
    vstd::string::is_ascii_spec_bytes("mod5");
    assert("mod5".spec_bytes() =~= kw_mod5());
}

proof fn lemma_lit_mode()
    ensures
        "mode".spec_bytes() == kw_mode(),
{
    reveal_strlit("mode");
    assert(vstd::string::is_ascii("mode"));
    vstd::string::is_ascii_spec_bytes("mode");
    assert("mode".spec_bytes() =~= kw_mode());
}

proof fn lemma_lit_plus()
    ensures
        "+".spec_bytes() == plus_bytes(),
{
    reveal_strlit("+");
    assert(vstd::string::is_ascii("+"));
    vstd::string::is_ascii_spec_bytes("+");
    assert("+".spec_bytes() =~= plus_bytes());
}

proof fn lemma_lit_colon()
    ensures
        ":".spec_bytes() == colon_bytes(),
{
    reveal_strlit(":");
    assert(vstd::string::is_ascii(":"));
    vstd::string::is_ascii_spec_bytes(":");
    assert(":".spec_bytes() =~= colon_bytes());
}

proof fn lemma_lit_newline()
    ensures
        "\n".spec_bytes() == newline_bytes(),
{
    reveal_strlit("\n");
    assert(vstd::string::is_ascii("\n"));
    vstd::string::is_ascii_spec_bytes("\n");
    assert("\n".spec_bytes() =~= newline_bytes());
}

proof fn lemma_lit_colon_nl()
    ensures
        ":\n".spec_bytes() == colon_nl_bytes(),
{
    reveal_strlit(":\n");
    assert(vstd::string::is_ascii(":\n"));
    vstd::string::is_ascii_spec_bytes(":\n");
    assert(":\n".spec_bytes() =~= colon_nl_bytes());
}

} // verus!
