//! Rewrites ANSI control sequences in one output line so that the line
//! stays sensible after a `[label] ` prefix has been put in front of it:
//! erase-line sequences and cursor-movement sequences are stripped, and the
//! column of a cursor-horizontal-absolute sequence is shifted right by the
//! prefix width.
//!
//! Three passes run in order: `ESC [ 1 K` and `ESC [ 2 K` are removed;
//! `ESC [ digits (A|B|J|E|F)` and `ESC [ digits ; digits H` are removed;
//! `ESC [ digits G` becomes `ESC [ (digits + width) G`, a missing count
//! standing for column one.

use vstd::prelude::*;

use crate::env::is_digit_char;
use crate::text::{char_from_u32, chars_of_str, string_of_chars};

verus! {

broadcast use vstd::utf8::char_u32_cast;

/// The control-sequence introducer `ESC [` at position `i`.
pub open spec fn csi_at(s: Seq<char>, i: int) -> bool {
    i + 2 <= s.len() && s[i] == '\u{1B}' && s[i + 1] == '['
}

/// First index at or after `i` holding a non-digit.
pub open spec fn digits_end(s: Seq<char>, i: int) -> int
    decreases s.len() - i when 0 <= i <= s.len()
{
    if i >= s.len() || !is_digit_char(s[i]) {
        i
    } else {
        digits_end(s, i + 1)
    }
}

pub proof fn lemma_digits_end(s: Seq<char>, i: int)
    requires
        0 <= i <= s.len(),
    ensures
        i <= digits_end(s, i) <= s.len(),
        digits_end(s, i) < s.len() ==> !is_digit_char(s[digits_end(s, i)]),
        forall|k: int| i <= k < digits_end(s, i) ==> is_digit_char(s[k]),
    decreases s.len() - i,
{
    if i < s.len() && is_digit_char(s[i]) {
        lemma_digits_end(s, i + 1);
    }
}

/// An erase-line sequence `ESC [ 1 K` or `ESC [ 2 K` at position `i`.
pub open spec fn clear_line_at(s: Seq<char>, i: int) -> bool {
    i + 4 <= s.len() && s[i] == '\u{1B}' && s[i + 1] == '[' && (s[i + 2] == '1' || s[i + 2]
        == '2') && s[i + 3] == 'K'
}

/// The suffix of `s` from `i` on with every erase-line sequence removed.
pub open spec fn strip_clear_spec(s: Seq<char>, i: int) -> Seq<char>
    decreases s.len() - i when 0 <= i <= s.len()
{
    if i >= s.len() {
        Seq::empty()
    } else if clear_line_at(s, i) {
        strip_clear_spec(s, i + 4)
    } else {
        seq![s[i]] + strip_clear_spec(s, i + 1)
    }
}

/// The length of a cursor-movement sequence at position `i`: `ESC [`,
/// digits, then one of `A B J E F`, or digits `;` digits `H`.
pub open spec fn move_match_len(s: Seq<char>, i: int) -> Option<int> {
    if !csi_at(s, i) || i < 0 {
        None
    } else {
        let d = digits_end(s, i + 2);
        if d < s.len() && (s[d] == 'A' || s[d] == 'B' || s[d] == 'J' || s[d] == 'E' || s[d]
            == 'F') {
            Some(d + 1 - i)
        } else if d < s.len() && s[d] == ';' {
            let d2 = digits_end(s, d + 1);
            if d2 < s.len() && s[d2] == 'H' {
                Some(d2 + 1 - i)
            } else {
                None
            }
        } else {
            None
        }
    }
}

pub proof fn lemma_move_match_len(s: Seq<char>, i: int)
    requires
        0 <= i <= s.len(),
    ensures
        move_match_len(s, i) matches Some(l) ==> 3 <= l && i + l <= s.len(),
{
    if csi_at(s, i) {
        lemma_digits_end(s, i + 2);
        let d = digits_end(s, i + 2);
        if d < s.len() && s[d] == ';' {
            lemma_digits_end(s, d + 1);
        }
    }
}

/// The suffix of `s` from `i` on with every cursor-movement sequence
/// removed.
pub open spec fn strip_moves_spec(s: Seq<char>, i: int) -> Seq<char>
    decreases s.len() - i when 0 <= i <= s.len()
{
    if i >= s.len() {
        Seq::empty()
    } else {
        match move_match_len(s, i) {
            Some(l) => {
                if 1 <= l && i + l <= s.len() {
                    strip_moves_spec(s, i + l)
                } else {
                    seq![s[i]] + strip_moves_spec(s, i + 1)
                }
            },
            None => seq![s[i]] + strip_moves_spec(s, i + 1),
        }
    }
}

/// The length of a cursor-horizontal-absolute sequence `ESC [ digits G` at
/// position `i`.
pub open spec fn column_match_len(s: Seq<char>, i: int) -> Option<int> {
    if !csi_at(s, i) || i < 0 {
        None
    } else {
        let d = digits_end(s, i + 2);
        if d < s.len() && s[d] == 'G' {
            Some(d + 1 - i)
        } else {
            None
        }
    }
}

pub proof fn lemma_column_match_len(s: Seq<char>, i: int)
    requires
        0 <= i <= s.len(),
    ensures
        column_match_len(s, i) matches Some(l) ==> 3 <= l && i + l <= s.len(),
{
    if csi_at(s, i) {
        lemma_digits_end(s, i + 2);
    }
}

/// The decimal digits `s[i..end]` folded onto `acc`.
pub open spec fn digits_fold(s: Seq<char>, i: int, end: int, acc: int) -> int
    decreases end - i when i <= end
{
    if i >= end {
        acc
    } else {
        digits_fold(s, i + 1, end, acc * 10 + (s[i] as u32 - 0x30))
    }
}

/// The column a cursor-horizontal-absolute sequence at `i` names; a missing
/// count stands for column one.
pub open spec fn column_value(s: Seq<char>, i: int) -> int {
    let d = digits_end(s, i + 2);
    if d == i + 2 {
        1
    } else {
        digits_fold(s, i + 2, d, 0)
    }
}

/// The decimal rendering of a non-negative value.
pub open spec fn dec_chars(v: int) -> Seq<char>
    decreases v,
{
    if v < 10 {
        seq![((0x30 + (if v >= 0 { v } else { 0 })) as u32) as char]
    } else {
        dec_chars(v / 10) + seq![((0x30 + (v % 10)) as u32) as char]
    }
}

/// The suffix of `s` from `i` on with the column of every
/// cursor-horizontal-absolute sequence shifted right by `width`.
pub open spec fn shift_columns_spec(s: Seq<char>, i: int, width: int) -> Seq<char>
    decreases s.len() - i when 0 <= i <= s.len()
{
    if i >= s.len() {
        Seq::empty()
    } else {
        match column_match_len(s, i) {
            Some(l) => {
                if 1 <= l && i + l <= s.len() {
                    seq!['\u{1B}', '['] + dec_chars(column_value(s, i) + width) + seq!['G']
                        + shift_columns_spec(s, i + l, width)
                } else {
                    seq![s[i]] + shift_columns_spec(s, i + 1, width)
                }
            },
            None => seq![s[i]] + shift_columns_spec(s, i + 1, width),
        }
    }
}

/// Every shifted column of the suffix from `i` on fits the machine word.
pub open spec fn shifted_columns_fit(s: Seq<char>, i: int, width: int) -> bool
    decreases s.len() - i when 0 <= i <= s.len()
{
    if i >= s.len() {
        true
    } else {
        match column_match_len(s, i) {
            Some(l) => {
                if 1 <= l && i + l <= s.len() {
                    column_value(s, i) + width <= usize::MAX && shifted_columns_fit(
                        s,
                        i + l,
                        width,
                    )
                } else {
                    shifted_columns_fit(s, i + 1, width)
                }
            },
            None => shifted_columns_fit(s, i + 1, width),
        }
    }
}

/// The whole rewrite: erase-line sequences out, cursor movements out,
/// columns shifted.
pub open spec fn ansi_rewrite_spec(line: Seq<char>, width: int) -> Seq<char> {
    shift_columns_spec(strip_moves_spec(strip_clear_spec(line, 0), 0), 0, width)
}

fn strip_clear(v: &Vec<char>) -> (r: Vec<char>)
    ensures
        r@ == strip_clear_spec(v@, 0),
{
    let n = v.len();
    let mut out: Vec<char> = Vec::new();
    let mut i: usize = 0;
    while i < n
        invariant
            i <= n,
            n == v@.len(),
            strip_clear_spec(v@, 0) == out@ + strip_clear_spec(v@, i as int),
        decreases n - i,
    {
        if n - i >= 4 && v[i] == '\u{1B}' && v[i + 1] == '[' && (v[i + 2] == '1' || v[i + 2]
            == '2') && v[i + 3] == 'K' {
            proof {
                assert(clear_line_at(v@, i as int));
            }
            i = i + 4;
        } else {
            proof {
                assert(!clear_line_at(v@, i as int));
                assert((out@ + seq![v@[i as int]]) + strip_clear_spec(v@, i + 1) =~= out@ + (seq![
                    v@[i as int],
                ] + strip_clear_spec(v@, i + 1)));
            }
            out.push(v[i]);
            i = i + 1;
        }
    }
    proof {
        assert(out@ + strip_clear_spec(v@, n as int) =~= out@);
    }
    out
}

fn digit_char(c: char) -> (b: bool)
    ensures
        b == is_digit_char(c),
{
    let u = c as u32;
    0x30 <= u && u <= 0x39
}

/// The end of the digit run starting at `from`.
fn scan_digits(v: &Vec<char>, from: usize) -> (r: usize)
    requires
        from <= v@.len(),
    ensures
        r == digits_end(v@, from as int),
        from <= r <= v@.len(),
{
    let n = v.len();
    let mut i = from;
    while i < n && digit_char(v[i])
        invariant
            from <= i <= n,
            n == v@.len(),
            digits_end(v@, from as int) == digits_end(v@, i as int),
        decreases n - i,
    {
        i = i + 1;
    }
    proof {
        assert(digits_end(v@, i as int) == i as int);
    }
    i
}

/// The length of a cursor-movement sequence at `i`, when one starts there.
fn match_move(v: &Vec<char>, i: usize) -> (r: Option<usize>)
    requires
        i <= v@.len(),
    ensures
        move_match_len(v@, i as int) matches Some(l) ==> (r matches Some(e) && e == l && 1 <= l
            && i + l <= v@.len()),
        move_match_len(v@, i as int) is None ==> r is None,
{
    proof {
        lemma_move_match_len(v@, i as int);
    }
    let n = v.len();
    if !(n - i >= 2 && v[i] == '\u{1B}' && v[i + 1] == '[') {
        return None;
    }
    let d = scan_digits(v, i + 2);
    if d < n && (v[d] == 'A' || v[d] == 'B' || v[d] == 'J' || v[d] == 'E' || v[d] == 'F') {
        Some(d + 1 - i)
    } else if d < n && v[d] == ';' {
        let d2 = scan_digits(v, d + 1);
        if d2 < n && v[d2] == 'H' {
            Some(d2 + 1 - i)
        } else {
            None
        }
    } else {
        None
    }
}

fn strip_moves(v: &Vec<char>) -> (r: Vec<char>)
    ensures
        r@ == strip_moves_spec(v@, 0),
{
    let n = v.len();
    let mut out: Vec<char> = Vec::new();
    let mut i: usize = 0;
    while i < n
        invariant
            i <= n,
            n == v@.len(),
            strip_moves_spec(v@, 0) == out@ + strip_moves_spec(v@, i as int),
        decreases n - i,
    {
        match match_move(v, i) {
            Some(l) => {
                i = i + l;
            },
            None => {
                proof {
                    assert((out@ + seq![v@[i as int]]) + strip_moves_spec(v@, i + 1) =~= out@ + (
                    seq![v@[i as int]] + strip_moves_spec(v@, i + 1)));
                }
                out.push(v[i]);
                i = i + 1;
            },
        }
    }
    proof {
        assert(out@ + strip_moves_spec(v@, n as int) =~= out@);
    }
    out
}

proof fn lemma_digits_fold_grows(s: Seq<char>, i: int, end: int, acc: int)
    requires
        i <= end,
        0 <= acc,
        forall|k: int| i <= k < end ==> is_digit_char(#[trigger] s[k]),
    ensures
        digits_fold(s, i, end, acc) >= acc,
    decreases end - i,
{
    if i < end {
        lemma_digits_fold_grows(s, i + 1, end, acc * 10 + (s[i] as u32 - 0x30));
    }
}

/// The value of the digit run `v[from..end]`, which the caller knows to be
/// bounded.
fn fold_digits(v: &Vec<char>, from: usize, end: usize) -> (r: usize)
    requires
        from <= end <= v@.len(),
        forall|k: int| from <= k < end ==> is_digit_char(#[trigger] v@[k]),
        0 <= digits_fold(v@, from as int, end as int, 0) <= usize::MAX,
    ensures
        r == digits_fold(v@, from as int, end as int, 0),
{
    let mut i = from;
    let mut acc: usize = 0;
    while i < end
        invariant
            from <= i <= end <= v@.len(),
            forall|k: int| from <= k < end ==> is_digit_char(#[trigger] v@[k]),
            0 <= acc,
            digits_fold(v@, from as int, end as int, 0) == digits_fold(
                v@,
                i as int,
                end as int,
                acc as int,
            ),
            digits_fold(v@, from as int, end as int, 0) <= usize::MAX,
        decreases end - i,
    {
        proof {
            lemma_digits_fold_grows(v@, i + 1, end as int, acc * 10 + (v@[i as int] as u32 - 0x30));
        }
        let u = v[i] as u32;
        acc = acc * 10 + (u - 0x30) as usize;
        i = i + 1;
    }
    acc
}

/// Decides whether the digit run `v[from..end]` folds to a value of at
/// most `bound`, and hands the value out when it does.
fn try_fold_digits(v: &Vec<char>, from: usize, end: usize, bound: usize) -> (r: Option<usize>)
    requires
        from <= end <= v@.len(),
        forall|k: int| from <= k < end ==> is_digit_char(#[trigger] v@[k]),
    ensures
        r matches Some(val) ==> val == digits_fold(v@, from as int, end as int, 0) && val
            <= bound,
        r is None ==> digits_fold(v@, from as int, end as int, 0) > bound,
{
    let mut i = from;
    let mut acc: u128 = 0;
    while i < end
        invariant
            from <= i <= end <= v@.len(),
            forall|k: int| from <= k < end ==> is_digit_char(#[trigger] v@[k]),
            acc <= bound,
            digits_fold(v@, from as int, end as int, 0) == digits_fold(
                v@,
                i as int,
                end as int,
                acc as int,
            ),
        decreases end - i,
    {
        let u = v[i] as u32;
        let d = (u - 0x30) as u128;
        acc = acc * 10 + d;
        i = i + 1;
        proof {
            lemma_digits_fold_grows(v@, i as int, end as int, acc as int);
        }
        if acc > bound as u128 {
            return None;
        }
    }
    Some(acc as usize)
}

/// The decimal rendering of a value.
fn render_decimal(x: usize) -> (r: Vec<char>)
    ensures
        r@ == dec_chars(x as int),
    decreases x,
{
    if x < 10 {
        let c = char_from_u32(0x30 + x as u32).unwrap();
        proof {
            vstd::utf8::char_u32_cast(c, ((0x30 + x) as u32));
        }
        let mut r: Vec<char> = Vec::new();
        r.push(c);
        proof {
            assert(r@ =~= dec_chars(x as int));
        }
        r
    } else {
        let mut r = render_decimal(x / 10);
        let c = char_from_u32(0x30 + (x % 10) as u32).unwrap();
        proof {
            vstd::utf8::char_u32_cast(c, ((0x30 + x % 10) as u32));
        }
        r.push(c);
        proof {
            assert(r@ =~= dec_chars((x / 10) as int) + seq![((0x30 + (x as int % 10)) as u32)
                as char]);
        }
        r
    }
}

fn shift_columns(v: &Vec<char>, width: usize) -> (r: Vec<char>)
    requires
        shifted_columns_fit(v@, 0, width as int),
    ensures
        r@ == shift_columns_spec(v@, 0, width as int),
{
    let n = v.len();
    let mut out: Vec<char> = Vec::new();
    let mut i: usize = 0;
    while i < n
        invariant
            i <= n,
            n == v@.len(),
            shifted_columns_fit(v@, i as int, width as int),
            shift_columns_spec(v@, 0, width as int) == out@ + shift_columns_spec(
                v@,
                i as int,
                width as int,
            ),
        decreases n - i,
    {
        let matched: Option<usize> = {
            if n - i >= 2 && v[i] == '\u{1B}' && v[i + 1] == '[' {
                let d = scan_digits(v, i + 2);
                if d < n && v[d] == 'G' {
                    Some(d + 1 - i)
                } else {
                    None
                }
            } else {
                None
            }
        };
        proof {
            lemma_column_match_len(v@, i as int);
        }
        match matched {
            Some(l) => {
                proof {
                    assert(column_match_len(v@, i as int) == Some(l as int));
                }
                let d = i + l - 1;
                proof {
                    lemma_digits_end(v@, i + 2);
                    assert(d == digits_end(v@, i + 2));
                    if d > i + 2 {
                        lemma_digits_fold_grows(v@, i + 2, d as int, 0);
                    }
                    // the fit invariant, unfolded at the match
                    assert(column_value(v@, i as int) + width <= usize::MAX
                        && shifted_columns_fit(v@, i + l, width as int));
                }
                let value: usize = if d == i + 2 {
                    1
                } else {
                    fold_digits(v, i + 2, d)
                };
                proof {
                    assert(column_value(v@, i as int) == value);
                }
                let ghost before = out@;
                out.push('\u{1B}');
                out.push('[');
                let ghost mid = out@;
                let digits = render_decimal(value + width);
                let mut k: usize = 0;
                let m = digits.len();
                while k < m
                    invariant
                        k <= m,
                        m == digits@.len(),
                        out@ == mid + digits@.subrange(0, k as int),
                    decreases m - k,
                {
                    out.push(digits[k]);
                    proof {
                        assert(out@ =~= mid + digits@.subrange(0, k + 1));
                    }
                    k = k + 1;
                }
                out.push('G');
                proof {
                    assert(digits@.subrange(0, m as int) =~= digits@);
                    assert(out@ =~= before + (seq!['\u{1B}', '['] + dec_chars(
                        value + width as int,
                    ) + seq!['G']));
                    assert(before + (seq!['\u{1B}', '['] + dec_chars(value + width as int)
                        + seq!['G'] + shift_columns_spec(v@, i + l, width as int)) =~= (before
                        + (seq!['\u{1B}', '['] + dec_chars(value + width as int) + seq!['G']))
                        + shift_columns_spec(v@, i + l, width as int));
                }
                i = i + l;
            },
            None => {
                proof {
                    assert((out@ + seq![v@[i as int]]) + shift_columns_spec(
                        v@,
                        i + 1,
                        width as int,
                    ) =~= out@ + (seq![v@[i as int]] + shift_columns_spec(v@, i + 1, width as int)));
                }
                out.push(v[i]);
                i = i + 1;
            },
        }
    }
    proof {
        assert(out@ + shift_columns_spec(v@, n as int, width as int) =~= out@);
    }
    out
}

fn columns_fit(v: &Vec<char>, width: usize) -> (b: bool)
    ensures
        b == shifted_columns_fit(v@, 0, width as int),
{
    let n = v.len();
    let mut i: usize = 0;
    while i < n
        invariant
            i <= n,
            n == v@.len(),
            shifted_columns_fit(v@, 0, width as int) == shifted_columns_fit(
                v@,
                i as int,
                width as int,
            ),
        decreases n - i,
    {
        let matched: Option<usize> = {
            if n - i >= 2 && v[i] == '\u{1B}' && v[i + 1] == '[' {
                let d = scan_digits(v, i + 2);
                if d < n && v[d] == 'G' {
                    Some(d + 1 - i)
                } else {
                    None
                }
            } else {
                None
            }
        };
        proof {
            lemma_column_match_len(v@, i as int);
        }
        match matched {
            Some(l) => {
                let d = i + l - 1;
                proof {
                    lemma_digits_end(v@, i + 2);
                    assert(d == digits_end(v@, i + 2));
                }
                if d == i + 2 {
                    // a missing count stands for column one
                    if width == usize::MAX {
                        return false;
                    }
                } else {
                    match try_fold_digits(v, i + 2, d, usize::MAX - width) {
                        Some(_) => {},
                        None => {
                            return false;
                        },
                    }
                }
                i = i + l;
            },
            None => {
                i = i + 1;
            },
        }
    }
    true
}

/// Whether every column the line's cursor-horizontal-absolute sequences
/// name still fits the machine word after the shift: this decides the
/// precondition of [`process_ansi_escape_line`] ahead of the call.
pub fn ansi_columns_fit(start_len: usize, line: &str) -> (b: bool)
    ensures
        b == shifted_columns_fit(
            strip_moves_spec(strip_clear_spec(line@, 0), 0),
            0,
            start_len as int,
        ),
{
    let v = chars_of_str(line);
    let pass1 = strip_clear(&v);
    let pass2 = strip_moves(&pass1);
    columns_fit(&pass2, start_len)
}

/// Rewrites the ANSI control sequences of one output line for a label
/// prefix `start_len` columns wide: erase-line and cursor-movement
/// sequences are stripped, and every cursor-horizontal-absolute column is
/// shifted right by the prefix width.
pub fn process_ansi_escape_line(start_len: usize, line: &str) -> (r: String)
    requires
        shifted_columns_fit(
            strip_moves_spec(strip_clear_spec(line@, 0), 0),
            0,
            start_len as int,
        ),
    ensures
        r@ == ansi_rewrite_spec(line@, start_len as int),
{
    let v = chars_of_str(line);
    let pass1 = strip_clear(&v);
    let pass2 = strip_moves(&pass1);
    let pass3 = shift_columns(&pass2, start_len);
    string_of_chars(&pass3)
}

} // verus!
