//! Lexer for leading inline environment assignments (`KEY=VALUE ...`) at the
//! front of a script string.
//!
//! A pair is recognized when a name matching `[A-Za-z][A-Za-z0-9_]*` is
//! followed by `=` and a value token, and the token is followed by
//! whitespace.  A value is either a raw run of characters or a quoted string
//! (`"` or `'`) with Rust-style escapes.  Whenever the input does not fit
//! this shape the lexer reports no pair and hands back the whole input,
//! trimmed.

use vstd::prelude::*;

use crate::text::{
    chars_of_str, is_space_char, is_trimmed, lemma_scan_space_end, lemma_trimmed_of, scan_space_end,
    space_char, string_of_chars, string_of_range, trim_range_to_string, trimmed_of,
};

verus! {

broadcast use vstd::utf8::char_u32_cast;

pub open spec fn is_alpha_char(c: char) -> bool {
    let u = c as u32;
    (0x41 <= u && u <= 0x5A) || (0x61 <= u && u <= 0x7A)
}

pub open spec fn is_digit_char(c: char) -> bool {
    let u = c as u32;
    0x30 <= u && u <= 0x39
}

/// Characters allowed after the first one in an environment name.
pub open spec fn is_name_char(c: char) -> bool {
    is_alpha_char(c) || is_digit_char(c) || c == '_'
}

pub fn alpha_char(c: char) -> (b: bool)
    ensures
        b == is_alpha_char(c),
{
    let u = c as u32;
    (0x41 <= u && u <= 0x5A) || (0x61 <= u && u <= 0x7A)
}

pub fn name_char(c: char) -> (b: bool)
    ensures
        b == is_name_char(c),
{
    let u = c as u32;
    alpha_char(c) || (0x30 <= u && u <= 0x39) || c == '_'
}

pub open spec fn is_hex_char(c: char) -> bool {
    is_digit_char(c) || {
        let u = c as u32;
        (0x41 <= u && u <= 0x46) || (0x61 <= u && u <= 0x66)
    }
}

/// The value of a hexadecimal digit.
pub open spec fn hex_char_val(c: char) -> int {
    let u = c as u32;
    if 0x30 <= u && u <= 0x39 {
        u - 0x30
    } else if 0x41 <= u && u <= 0x46 {
        u - 0x41 + 10
    } else if 0x61 <= u && u <= 0x66 {
        u - 0x61 + 10
    } else {
        0
    }
}

/// The value of a hexadecimal digit character, `None` for anything else.
pub fn try_hex_to_u8(hex: char) -> (r: Option<u8>)
    ensures
        r is Some <==> is_hex_char(hex),
        r matches Some(d) ==> d == hex_char_val(hex) && d <= 15,
{
    let u = hex as u32;
    if 0x30 <= u && u <= 0x39 {
        Some((u - 0x30) as u8)
    } else if 0x41 <= u && u <= 0x46 {
        Some((u - 0x41 + 10) as u8)
    } else if 0x61 <= u && u <= 0x66 {
        Some((u - 0x61 + 10) as u8)
    } else {
        None
    }
}

/// A Unicode scalar value: anything but a surrogate or a value past the last
/// code point.
pub open spec fn is_scalar_u32(u: u32) -> bool {
    u < 0xD800 || (0xE000 <= u && u <= 0x10FFFF)
}

/// First index at or after `i` holding a character that cannot extend an
/// environment name.
pub open spec fn scan_name_end(s: Seq<char>, i: int) -> int
    decreases s.len() - i when 0 <= i <= s.len()
{
    if i >= s.len() || !is_name_char(s[i]) {
        i
    } else {
        scan_name_end(s, i + 1)
    }
}

pub proof fn lemma_scan_name_end(s: Seq<char>, i: int)
    requires
        0 <= i <= s.len(),
    ensures
        i <= scan_name_end(s, i) <= s.len(),
    decreases s.len() - i,
{
    if i < s.len() && is_name_char(s[i]) {
        lemma_scan_name_end(s, i + 1);
    }
}

/// First index at or after `i` that ends a raw (unquoted) value: whitespace
/// completes the pair, while `=` and quotes make the token malformed.
pub open spec fn scan_raw_end(s: Seq<char>, i: int) -> int
    decreases s.len() - i when 0 <= i <= s.len()
{
    if i >= s.len() || is_space_char(s[i]) || s[i] == '=' || s[i] == '"' || s[i] == '\'' {
        i
    } else {
        scan_raw_end(s, i + 1)
    }
}

pub proof fn lemma_scan_raw_end(s: Seq<char>, i: int)
    requires
        0 <= i <= s.len(),
    ensures
        i <= scan_raw_end(s, i) <= s.len(),
    decreases s.len() - i,
{
    if i < s.len() && !is_space_char(s[i]) && s[i] != '=' && s[i] != '"' && s[i] != '\'' {
        lemma_scan_raw_end(s, i + 1);
    }
}

/// Sixteen to the `n`th power.
pub open spec fn pow16(n: int) -> int
    decreases n when n >= 0
{
    if n <= 0 {
        1
    } else {
        16 * pow16(n - 1)
    }
}

/// Hexadecimal digits of a `\u{...}` escape from index `j` on, folded onto
/// `acc`, with `ndigits` digits read so far.  Yields the scalar value and
/// the index just past the closing brace; `None` when more than six digits
/// appear, the value is no Unicode scalar, or an unexpected character or
/// the end of input is hit.
pub open spec fn unicode_digits_spec(s: Seq<char>, j: int, acc: u32, ndigits: int) -> Option<
    (u32, int),
>
    decreases s.len() - j when 0 <= j <= s.len()
{
    if j >= s.len() {
        None
    } else if s[j] == '}' {
        if is_scalar_u32(acc) {
            Some((acc, j + 1))
        } else {
            None
        }
    } else if is_hex_char(s[j]) {
        if ndigits < 6 {
            unicode_digits_spec(s, j + 1, (acc * 16 + hex_char_val(s[j])) as u32, ndigits + 1)
        } else {
            None
        }
    } else {
        None
    }
}

pub proof fn lemma_unicode_digits_end(s: Seq<char>, j: int, acc: u32, ndigits: int)
    requires
        0 <= j <= s.len(),
    ensures
        unicode_digits_spec(s, j, acc, ndigits) matches Some(p) ==> j < p.1 <= s.len(),
    decreases s.len() - j,
{
    if j < s.len() && s[j] != '}' && is_hex_char(s[j]) && ndigits < 6 {
        lemma_unicode_digits_end(
            s,
            j + 1,
            (acc * 16 + hex_char_val(s[j])) as u32,
            ndigits + 1,
        );
    }
}

pub proof fn lemma_unicode_digits_scalar(s: Seq<char>, j: int, acc: u32, ndigits: int)
    requires
        0 <= j <= s.len(),
    ensures
        unicode_digits_spec(s, j, acc, ndigits) matches Some(p) ==> is_scalar_u32(p.0),
    decreases s.len() - j,
{
    if j < s.len() && s[j] != '}' && is_hex_char(s[j]) && ndigits < 6 {
        lemma_unicode_digits_scalar(
            s,
            j + 1,
            (acc * 16 + hex_char_val(s[j])) as u32,
            ndigits + 1,
        );
    }
}

/// One escape inside a quoted value.  `i` is the index of the character right
/// after the backslash; `q` is the surrounding quote.  Yields the character
/// the escape stands for and how many characters starting at `i` it consumed.
pub open spec fn escape_spec(s: Seq<char>, i: int, q: char) -> Option<(char, nat)> {
    if i < 0 || i >= s.len() {
        None
    } else if s[i] == 'n' {
        Some(('\n', 1))
    } else if s[i] == 'r' {
        Some(('\r', 1))
    } else if s[i] == 't' {
        Some(('\t', 1))
    } else if s[i] == '\\' {
        Some(('\\', 1))
    } else if s[i] == '0' {
        Some(('\0', 1))
    } else if s[i] == q {
        Some((q, 1))
    } else if s[i] == 'x' {
        if i + 3 <= s.len() && is_hex_char(s[i + 1]) && hex_char_val(s[i + 1]) <= 7 && is_hex_char(
            s[i + 2],
        ) {
            Some(((((hex_char_val(s[i + 1]) * 16 + hex_char_val(s[i + 2])) as u32) as char), 3))
        } else {
            None
        }
    } else if s[i] == 'u' {
        if i + 3 <= s.len() && s[i + 1] == '{' && is_hex_char(s[i + 2]) {
            match unicode_digits_spec(s, i + 3, hex_char_val(s[i + 2]) as u32, 1) {
                None => None,
                Some((val, end)) => Some(((val as char), (end - i) as nat)),
            }
        } else {
            None
        }
    } else {
        None
    }
}

pub proof fn lemma_escape_consumed(s: Seq<char>, i: int, q: char)
    ensures
        escape_spec(s, i, q) matches Some(p) ==> 1 <= p.1 && i + p.1 <= s.len(),
{
    if 0 <= i < s.len() && s[i] == 'u' {
        if i + 3 <= s.len() && s[i + 1] == '{' && is_hex_char(s[i + 2]) {
            lemma_unicode_digits_end(s, i + 3, hex_char_val(s[i + 2]) as u32, 1);
        }
    }
}

/// A quoted value from index `i` (just after the opening quote) to its
/// closing quote `q`, with escapes resolved.  Yields the value and the index
/// just past the closing quote; `None` when the quote is never closed or an
/// escape is malformed.
pub open spec fn quoted_spec(s: Seq<char>, i: int, q: char) -> Option<(Seq<char>, int)>
    decreases s.len() - i when 0 <= i <= s.len()
{
    if i >= s.len() {
        None
    } else if s[i] == q {
        Some((Seq::empty(), i + 1))
    } else if s[i] == '\\' {
        match escape_spec(s, i + 1, q) {
            None => None,
            Some((c, k)) => {
                let next = i + 1 + k;
                if next > s.len() {
                    None
                } else {
                    match quoted_spec(s, next, q) {
                        None => None,
                        Some((val, e)) => Some((seq![c] + val, e)),
                    }
                }
            },
        }
    } else {
        match quoted_spec(s, i + 1, q) {
            None => None,
            Some((val, e)) => Some((seq![s[i]] + val, e)),
        }
    }
}

pub proof fn lemma_quoted_end(s: Seq<char>, i: int, q: char)
    requires
        0 <= i <= s.len(),
    ensures
        quoted_spec(s, i, q) matches Some(p) ==> i < p.1 <= s.len(),
    decreases s.len() - i,
{
    if i < s.len() && s[i] != q {
        if s[i] == '\\' {
            if let Some((c, k)) = escape_spec(s, i + 1, q) {
                if i + 1 + k <= s.len() {
                    lemma_quoted_end(s, i + 1 + k, q);
                }
            }
        } else {
            lemma_quoted_end(s, i + 1, q);
        }
    }
}

/// The result of looking for one leading `NAME=VALUE` pair: the pair, if the
/// input starts with a well-formed one followed by whitespace, and the rest
/// of the input, trimmed.  When no pair is found the rest is the whole input,
/// trimmed.
pub open spec fn one_env_spec(s: Seq<char>) -> (Option<(Seq<char>, Seq<char>)>, Seq<char>) {
    let a = scan_space_end(s, 0);
    if a >= s.len() || !is_alpha_char(s[a]) {
        (None, trimmed_of(s))
    } else {
        let ke = scan_name_end(s, a);
        if !(ke < s.len() && s[ke] == '=') {
            (None, trimmed_of(s))
        } else {
            let vs = ke + 1;
            if vs >= s.len() || is_space_char(s[vs]) {
                (None, trimmed_of(s))
            } else if s[vs] == '"' || s[vs] == '\'' {
                match quoted_spec(s, vs + 1, s[vs]) {
                    None => (None, trimmed_of(s)),
                    Some((val, e)) => {
                        if e < s.len() && is_space_char(s[e]) {
                            (Some((s.subrange(a, ke), val)), trimmed_of(s.skip(e + 1)))
                        } else {
                            (None, trimmed_of(s))
                        }
                    },
                }
            } else {
                let re = scan_raw_end(s, vs + 1);
                if re < s.len() && is_space_char(s[re]) {
                    (Some((s.subrange(a, ke), s.subrange(vs, re))), trimmed_of(s.skip(re + 1)))
                } else {
                    (None, trimmed_of(s))
                }
            }
        }
    }
}

/// When a pair is found, the rest is strictly shorter than the input.
pub proof fn lemma_one_env_shrinks(s: Seq<char>)
    ensures
        one_env_spec(s).0 is Some ==> one_env_spec(s).1.len() < s.len(),
        is_trimmed(one_env_spec(s).1),
{
    let a = scan_space_end(s, 0);
    lemma_scan_space_end(s, 0);
    lemma_trimmed_of(s);
    if a < s.len() && is_alpha_char(s[a]) {
        let ke = scan_name_end(s, a);
        lemma_scan_name_end(s, a);
        if ke < s.len() && s[ke] == '=' {
            let vs = ke + 1;
            if !(vs >= s.len() || is_space_char(s[vs])) {
                if s[vs] == '"' || s[vs] == '\'' {
                    lemma_quoted_end(s, vs + 1, s[vs]);
                    if let Some((val, e)) = quoted_spec(s, vs + 1, s[vs]) {
                        if e < s.len() && is_space_char(s[e]) {
                            lemma_trimmed_of(s.skip(e + 1));
                        }
                    }
                } else {
                    let re = scan_raw_end(s, vs + 1);
                    lemma_scan_raw_end(s, vs + 1);
                    if re < s.len() && is_space_char(s[re]) {
                        lemma_trimmed_of(s.skip(re + 1));
                    }
                }
            }
        }
    }
}

fn lex_unicode_digits(v: &Vec<char>, start: usize, first: u8) -> (r: Option<(u32, usize)>)
    requires
        start <= v@.len(),
        first <= 15,
    ensures
        unicode_digits_spec(v@, start as int, first as u32, 1) matches Some(p) ==> (r
            matches Some(e) && e.0 == p.0 && e.1 == p.1),
        unicode_digits_spec(v@, start as int, first as u32, 1) is None ==> r is None,
{
    let n = v.len();
    let mut j = start;
    let mut acc: u32 = first as u32;
    let mut ndigits: usize = 1;
    proof {
        assert(pow16(0) == 1);
        assert(pow16(1) == 16);
        assert(pow16(2) == 0x100);
        assert(pow16(3) == 0x1000);
        assert(pow16(4) == 0x10000);
        assert(pow16(5) == 0x100000);
    }
    loop
        invariant
            start <= j <= n,
            n == v@.len(),
            1 <= ndigits <= 6,
            acc < pow16(ndigits as int),
            unicode_digits_spec(v@, start as int, first as u32, 1) == unicode_digits_spec(
                v@,
                j as int,
                acc,
                ndigits as int,
            ),
        decreases n - j,
    {
        if j >= n {
            return None;
        }
        let c = v[j];
        if c == '}' {
            if acc < 0xD800 || (0xE000 <= acc && acc <= 0x10FFFF) {
                return Some((acc, j + 1));
            } else {
                return None;
            }
        }
        match try_hex_to_u8(c) {
            None => {
                return None;
            },
            Some(d) => {
                if ndigits < 6 {
                    proof {
                        assert(pow16(0) == 1);
                        assert(pow16(1) == 16);
                        assert(pow16(2) == 0x100);
                        assert(pow16(3) == 0x1000);
                        assert(pow16(4) == 0x10000);
                        assert(pow16(5) == 0x100000);
                        assert(pow16(ndigits + 1) == 16 * pow16(ndigits as int));
                    }
                    acc = acc * 16 + d as u32;
                    ndigits = ndigits + 1;
                    j = j + 1;
                } else {
                    return None;
                }
            },
        }
    }
}

fn lex_escape(v: &Vec<char>, i: usize, q: char) -> (r: Option<(char, usize)>)
    requires
        i <= v@.len(),
    ensures
        escape_spec(v@, i as int, q) matches Some(p) ==> (r matches Some(e) && e.0 == p.0 && e.1
            == p.1),
        escape_spec(v@, i as int, q) is None ==> r is None,
{
    let n = v.len();
    if i >= n {
        return None;
    }
    let c = v[i];
    if c == 'n' {
        Some(('\n', 1))
    } else if c == 'r' {
        Some(('\r', 1))
    } else if c == 't' {
        Some(('\t', 1))
    } else if c == '\\' {
        Some(('\\', 1))
    } else if c == '0' {
        Some(('\0', 1))
    } else if c == q {
        Some((q, 1))
    } else if c == 'x' {
        if n - i < 3 {
            return None;
        }
        let d1 = match try_hex_to_u8(v[i + 1]) {
            Some(d) => d,
            None => {
                return None;
            },
        };
        if d1 > 7 {
            return None;
        }
        let d2 = match try_hex_to_u8(v[i + 2]) {
            Some(d) => d,
            None => {
                return None;
            },
        };
        let code: u32 = (d1 as u32) * 16 + (d2 as u32);
        // a value of at most 0x7F is always a scalar
        let ch = crate::text::char_from_u32(code).unwrap();
        proof {
            vstd::utf8::char_u32_cast(ch, code);
        }
        Some((ch, 3))
    } else if c == 'u' {
        if n - i < 3 {
            return None;
        }
        if v[i + 1] != '{' {
            return None;
        }
        let d0 = match try_hex_to_u8(v[i + 2]) {
            Some(d) => d,
            None => {
                return None;
            },
        };
        match lex_unicode_digits(v, i + 3, d0) {
            None => None,
            Some((val, end)) => {
                proof {
                    lemma_unicode_digits_end(v@, i + 3, d0 as u32, 1);
                    lemma_unicode_digits_scalar(v@, i + 3, d0 as u32, 1);
                }
                // the digit fold only succeeds on scalar values
                let ch = crate::text::char_from_u32(val).unwrap();
                proof {
                    vstd::utf8::char_u32_cast(ch, val);
                }
                Some((ch, end - i))
            },
        }
    } else {
        None
    }
}

fn lex_quoted(v: &Vec<char>, start: usize, q: char) -> (r: Option<(Vec<char>, usize)>)
    requires
        start <= v@.len(),
    ensures
        quoted_spec(v@, start as int, q) matches Some(p) ==> (r matches Some(e) && e.0@ == p.0
            && e.1 == p.1),
        quoted_spec(v@, start as int, q) is None ==> r is None,
{
    let n = v.len();
    let mut i = start;
    let mut acc: Vec<char> = Vec::new();
    loop
        invariant
            start <= i <= n,
            n == v@.len(),
            quoted_spec(v@, i as int, q) is None ==> quoted_spec(v@, start as int, q) is None,
            quoted_spec(v@, i as int, q) matches Some(p) ==> (quoted_spec(
                v@,
                start as int,
                q,
            ) matches Some(w) && w.0 == acc@ + p.0 && w.1 == p.1),
        decreases n - i,
    {
        if i >= n {
            return None;
        }
        let c = v[i];
        if c == q {
            proof {
                assert(quoted_spec(v@, i as int, q) == Some((Seq::<char>::empty(), i + 1)));
                assert(acc@ + Seq::<char>::empty() =~= acc@);
            }
            return Some((acc, i + 1));
        }
        if c == '\\' {
            match lex_escape(v, i + 1, q) {
                None => {
                    return None;
                },
                Some((ch, k)) => {
                    proof {
                        lemma_escape_consumed(v@, i + 1, q);
                    }
                    let next = i + 1 + k;
                    if next > n {
                        return None;
                    }
                    acc.push(ch);
                    proof {
                        let sp = quoted_spec(v@, next as int, q);
                        if sp is Some {
                            let p = sp->0;
                            assert(acc@.drop_last().push(ch) =~= acc@);
                            assert(acc@.drop_last() + (seq![ch] + p.0) =~= acc@ + p.0);
                        }
                    }
                    i = next;
                },
            }
        } else {
            acc.push(c);
            proof {
                let sp = quoted_spec(v@, i + 1, q);
                if sp is Some {
                    let p = sp->0;
                    assert(acc@.drop_last().push(c) =~= acc@);
                    assert(acc@.drop_last() + (seq![c] + p.0) =~= acc@ + p.0);
                }
            }
            i = i + 1;
        }
    }
}

/// Looks for one leading `NAME=VALUE` pair.  Returns the pair, if the input
/// starts with one, and the rest of the input, trimmed of surrounding
/// whitespace.
pub fn match_one_env(program: &str) -> (r: (Option<(String, String)>, String))
    ensures
        r.0 is Some <==> one_env_spec(program@).0 is Some,
        r.0 matches Some(kv) ==> (one_env_spec(program@).0 matches Some(p) && kv.0@ == p.0
            && kv.1@ == p.1),
        r.1@ == one_env_spec(program@).1,
        r.0 is Some ==> r.1@.len() < program@.len(),
{
    proof {
        lemma_one_env_shrinks(program@);
    }
    let v = chars_of_str(program);
    proof {
        assert(v@.skip(0) =~= v@);
    }
    let n = v.len();
    let mut a: usize = 0;
    while a < n && space_char(v[a])
        invariant
            a <= n,
            n == v@.len(),
            v@ == program@,
            scan_space_end(v@, 0) == scan_space_end(v@, a as int),
        decreases n - a,
    {
        a = a + 1;
    }
    proof {
        assert(scan_space_end(v@, a as int) == a as int);
    }
    if a >= n || !alpha_char(v[a]) {
        return (None, trim_range_to_string(&v, 0));
    }
    let mut ke: usize = a;
    while ke < n && name_char(v[ke])
        invariant
            a <= ke <= n,
            n == v@.len(),
            scan_name_end(v@, a as int) == scan_name_end(v@, ke as int),
        decreases n - ke,
    {
        ke = ke + 1;
    }
    proof {
        assert(scan_name_end(v@, ke as int) == ke as int);
    }
    if !(ke < n && v[ke] == '=') {
        return (None, trim_range_to_string(&v, 0));
    }
    let vs = ke + 1;
    if vs >= n || space_char(v[vs]) {
        return (None, trim_range_to_string(&v, 0));
    }
    let c0 = v[vs];
    if c0 == '"' || c0 == '\'' {
        match lex_quoted(&v, vs + 1, c0) {
            None => (None, trim_range_to_string(&v, 0)),
            Some((val, e)) => {
                proof {
                    lemma_quoted_end(v@, (vs + 1) as int, c0);
                }
                if e < n && space_char(v[e]) {
                    let key = string_of_range(&v, a, ke);
                    let value = string_of_chars(&val);
                    let rest = trim_range_to_string(&v, e + 1);
                    (Some((key, value)), rest)
                } else {
                    (None, trim_range_to_string(&v, 0))
                }
            },
        }
    } else {
        let mut re: usize = vs + 1;
        while re < n && !space_char(v[re]) && v[re] != '=' && v[re] != '"' && v[re] != '\''
            invariant
                vs + 1 <= re <= n,
                n == v@.len(),
                scan_raw_end(v@, (vs + 1) as int) == scan_raw_end(v@, re as int),
            decreases n - re,
        {
            re = re + 1;
        }
        proof {
            assert(scan_raw_end(v@, re as int) == re as int);
        }
        if re < n && space_char(v[re]) {
            let key = string_of_range(&v, a, ke);
            let value = string_of_range(&v, vs, re);
            let rest = trim_range_to_string(&v, re + 1);
            (Some((key, value)), rest)
        } else {
            (None, trim_range_to_string(&v, 0))
        }
    }
}

/// All leading `NAME=VALUE` pairs of the input, in order, and the remaining
/// program, trimmed.
pub open spec fn leading_envs_spec(s: Seq<char>) -> (Seq<(Seq<char>, Seq<char>)>, Seq<char>)
    decreases s.len()
    via leading_envs_spec_dec
{
    match one_env_spec(s).0 {
        None => (Seq::empty(), one_env_spec(s).1),
        Some(kv) => {
            let rec = leading_envs_spec(one_env_spec(s).1);
            (seq![kv] + rec.0, rec.1)
        },
    }
}

#[via_fn]
proof fn leading_envs_spec_dec(s: Seq<char>) {
    lemma_one_env_shrinks(s);
}

/// The views of a vector of string pairs.
pub open spec fn pair_views(ps: Seq<(String, String)>) -> Seq<(Seq<char>, Seq<char>)> {
    ps.map(|i: int, p: (String, String)| (p.0@, p.1@))
}

/// The rest of the whole-input lexing is a trimmed contiguous piece of the
/// input: no characters are invented.
pub proof fn lemma_leading_envs_rest(s: Seq<char>)
    ensures
        is_trimmed(leading_envs_spec(s).1),
        exists|i: int, j: int|
            0 <= i <= j <= s.len() && leading_envs_spec(s).1 == #[trigger] s.subrange(i, j),
    decreases s.len(),
{
    lemma_one_env_shrinks(s);
    let (p, rest) = one_env_spec(s);
    lemma_one_env_rest_subrange(s);
    if p is Some {
        lemma_leading_envs_rest(rest);
        let (i1, j1) = choose|i1: int, j1: int|
            0 <= i1 <= j1 <= s.len() && rest == s.subrange(i1, j1);
        let (i2, j2) = choose|i2: int, j2: int|
            0 <= i2 <= j2 <= rest.len() && leading_envs_spec(rest).1 == rest.subrange(i2, j2);
        assert(rest.subrange(i2, j2) =~= s.subrange(i1 + i2, i1 + j2));
        assert(leading_envs_spec(s).1 == s.subrange(i1 + i2, i1 + j2));
    }
}

/// The rest of one lexing step is a trimmed contiguous piece of the input.
pub proof fn lemma_one_env_rest_subrange(s: Seq<char>)
    ensures
        exists|i: int, j: int|
            0 <= i <= j <= s.len() && one_env_spec(s).1 == #[trigger] s.subrange(i, j),
{
    let a = scan_space_end(s, 0);
    lemma_scan_space_end(s, 0);
    lemma_subrange_of_trim(s, 0);
    assert(s.skip(0) =~= s);
    if a < s.len() && is_alpha_char(s[a]) {
        let ke = scan_name_end(s, a);
        lemma_scan_name_end(s, a);
        if ke < s.len() && s[ke] == '=' {
            let vs = ke + 1;
            if !(vs >= s.len() || is_space_char(s[vs])) {
                if s[vs] == '"' || s[vs] == '\'' {
                    lemma_quoted_end(s, vs + 1, s[vs]);
                    if let Some((val, e)) = quoted_spec(s, vs + 1, s[vs]) {
                        if e < s.len() && is_space_char(s[e]) {
                            lemma_subrange_of_trim(s, e + 1);
                        }
                    }
                } else {
                    let re = scan_raw_end(s, vs + 1);
                    lemma_scan_raw_end(s, vs + 1);
                    if re < s.len() && is_space_char(s[re]) {
                        lemma_subrange_of_trim(s, re + 1);
                    }
                }
            }
        }
    }
}

/// Trimming a suffix yields a contiguous piece of the whole sequence.
proof fn lemma_subrange_of_trim(s: Seq<char>, from: int)
    requires
        0 <= from <= s.len(),
    ensures
        exists|i: int, j: int|
            0 <= i <= j <= s.len() && trimmed_of(s.skip(from)) == #[trigger] s.subrange(i, j),
{
    let t = s.skip(from);
    lemma_trimmed_of(t);
    let (i1, j1) = choose|i1: int, j1: int|
        0 <= i1 <= j1 <= t.len() && trimmed_of(t) == t.subrange(i1, j1);
    assert(t.subrange(i1, j1) =~= s.subrange(from + i1, from + j1));
}

/// The name of a recognized pair is a contiguous piece of the input.
proof fn lemma_one_env_key_subrange(s: Seq<char>)
    ensures
        one_env_spec(s).0 matches Some(kv) ==> exists|i: int, j: int|
            0 <= i <= j <= s.len() && kv.0 == #[trigger] s.subrange(i, j),
{
    let a = scan_space_end(s, 0);
    lemma_scan_space_end(s, 0);
    if a < s.len() && is_alpha_char(s[a]) {
        let ke = scan_name_end(s, a);
        lemma_scan_name_end(s, a);
        if one_env_spec(s).0 is Some {
            assert((one_env_spec(s).0->0).0 == s.subrange(a, ke));
        }
    }
}

/// No environment name is invented: every name the lexer hands out is a
/// contiguous piece of the script it was given.
pub proof fn lemma_leading_envs_names_from_input(s: Seq<char>)
    ensures
        forall|k: int|
            0 <= k < leading_envs_spec(s).0.len() ==> exists|i: int, j: int|
                0 <= i <= j <= s.len() && (#[trigger] leading_envs_spec(s).0[k]).0
                    == #[trigger] s.subrange(i, j),
    decreases s.len(),
{
    lemma_one_env_shrinks(s);
    lemma_one_env_key_subrange(s);
    lemma_one_env_rest_subrange(s);
    let (p, rest) = one_env_spec(s);
    if p is Some {
        lemma_leading_envs_names_from_input(rest);
        let (i1, j1) = choose|i1: int, j1: int|
            0 <= i1 <= j1 <= s.len() && rest == s.subrange(i1, j1);
        assert forall|k: int| 0 <= k < leading_envs_spec(s).0.len() implies exists|i: int, j: int|
            0 <= i <= j <= s.len() && (#[trigger] leading_envs_spec(s).0[k]).0
                == #[trigger] s.subrange(i, j) by {
            if k == 0 {
                assert(leading_envs_spec(s).0[0] == p->0);
            } else {
                assert(leading_envs_spec(s).0[k] == leading_envs_spec(rest).0[k - 1]);
                let (i2, j2) = choose|i2: int, j2: int|
                    0 <= i2 <= j2 <= rest.len() && leading_envs_spec(rest).0[k - 1].0
                        == rest.subrange(i2, j2);
                assert(rest.subrange(i2, j2) =~= s.subrange(i1 + i2, i1 + j2));
            }
        }
    }
}

/// How a recognized pair accounts for its input, around positions `a` (the
/// name's start), `ke` (the `=`) and `t` (the terminating whitespace): the
/// input is exactly leading whitespace, the name, `=`, the value token, one
/// whitespace character, and the tail the rest is trimmed from.  The name
/// and a raw value appear verbatim; a quoted token decodes to the returned
/// value under the escape rules.
pub open spec fn pair_accounts_for_input(
    s: Seq<char>,
    kv: (Seq<char>, Seq<char>),
    rest: Seq<char>,
    a: int,
    ke: int,
    t: int,
) -> bool {
    &&& 0 <= a <= ke
    &&& ke + 1 < t < s.len()
    &&& (forall|m: int| 0 <= m < a ==> is_space_char(#[trigger] s[m]))
    &&& kv.0 == s.subrange(a, ke)
    &&& s[ke] == '='
    &&& is_space_char(s[t])
    &&& rest == trimmed_of(s.skip(t + 1))
    &&& ((s[ke + 1] == '"' || s[ke + 1] == '\'') ==> quoted_spec(s, ke + 2, s[ke + 1]) == Some(
        (kv.1, t),
    ))
    &&& (!(s[ke + 1] == '"' || s[ke + 1] == '\'') ==> kv.1 == s.subrange(ke + 1, t))
    &&& s == s.take(a) + kv.0 + seq!['='] + s.subrange(ke + 1, t) + seq![s[t]] + s.skip(t + 1)
}

/// No characters are invented or lost: whenever the lexer recognizes a
/// pair, the pair, its terminator and the tail the rest is trimmed from
/// reassemble the whole input, piece by piece.
pub proof fn lemma_one_env_accounts_for_input(s: Seq<char>)
    ensures
        one_env_spec(s).0 matches Some(kv) ==> exists|a: int, ke: int, t: int|
            #[trigger] pair_accounts_for_input(s, kv, one_env_spec(s).1, a, ke, t),
{
    let a = scan_space_end(s, 0);
    lemma_scan_space_end(s, 0);
    if a < s.len() && is_alpha_char(s[a]) {
        let ke = scan_name_end(s, a);
        lemma_scan_name_end(s, a);
        if ke < s.len() && s[ke] == '=' {
            let vs = ke + 1;
            if !(vs >= s.len() || is_space_char(s[vs])) {
                let key = s.subrange(a, ke);
                if s[vs] == '"' || s[vs] == '\'' {
                    lemma_quoted_end(s, vs + 1, s[vs]);
                    if let Some((val, e)) = quoted_spec(s, vs + 1, s[vs]) {
                        if e < s.len() && is_space_char(s[e]) {
                            assert(s =~= s.take(a) + key + seq!['='] + s.subrange(vs, e) + seq![
                                s[e],
                            ] + s.skip(e + 1));
                            assert(one_env_spec(s).0 == Some((key, val)));
                            assert(one_env_spec(s).1 == trimmed_of(s.skip(e + 1)));
                            assert(pair_accounts_for_input(
                                s,
                                one_env_spec(s).0->0,
                                one_env_spec(s).1,
                                a,
                                ke,
                                e,
                            ));
                        }
                    }
                } else {
                    let re = scan_raw_end(s, vs + 1);
                    lemma_scan_raw_end(s, vs + 1);
                    if re < s.len() && is_space_char(s[re]) {
                        assert(s =~= s.take(a) + key + seq!['='] + s.subrange(vs, re) + seq![
                            s[re],
                        ] + s.skip(re + 1));
                        assert(one_env_spec(s).0 == Some((key, s.subrange(vs, re))));
                        assert(one_env_spec(s).1 == trimmed_of(s.skip(re + 1)));
                        assert(pair_accounts_for_input(
                            s,
                            one_env_spec(s).0->0,
                            one_env_spec(s).1,
                            a,
                            ke,
                            re,
                        ));
                    }
                }
            }
        }
    }
}

/// How a whole lexing run accounts for its input: with no pairs the rest is
/// the input trimmed; otherwise the first pair, its separators and its
/// terminator reassemble the input down to a tail, and the remaining pairs
/// account for that tail's trimmed form in the same way.
pub open spec fn lex_segmentation(
    s: Seq<char>,
    pairs: Seq<(Seq<char>, Seq<char>)>,
    rest: Seq<char>,
) -> bool
    decreases pairs.len(),
{
    if pairs.len() == 0 {
        rest == trimmed_of(s)
    } else {
        exists|a: int, ke: int, t: int|
            #[trigger] pair_accounts_for_input(s, pairs[0], trimmed_of(s.skip(t + 1)), a, ke, t)
                && lex_segmentation(trimmed_of(s.skip(t + 1)), pairs.drop_first(), rest)
    }
}

/// When no pair is found the rest is the whole input, trimmed.
proof fn lemma_one_env_none_rest(s: Seq<char>)
    requires
        one_env_spec(s).0 is None,
    ensures
        one_env_spec(s).1 == trimmed_of(s),
{
}

/// The lexer only ever cuts its input apart: every pair list and rest it
/// returns segments the input as [`lex_segmentation`] describes, so no
/// characters are invented, lost or reordered.
pub proof fn lemma_lexing_segments_input(s: Seq<char>)
    ensures
        lex_segmentation(s, leading_envs_spec(s).0, leading_envs_spec(s).1),
    decreases s.len(),
{
    lemma_one_env_shrinks(s);
    let p = one_env_spec(s).0;
    let rest1 = one_env_spec(s).1;
    if p is None {
        lemma_one_env_none_rest(s);
        assert(leading_envs_spec(s).0.len() == 0);
    } else {
        lemma_one_env_accounts_for_input(s);
        let (a, ke, t) = choose|a: int, ke: int, t: int|
            #[trigger] pair_accounts_for_input(s, p->0, rest1, a, ke, t);
        assert(rest1 == trimmed_of(s.skip(t + 1)));
        lemma_lexing_segments_input(rest1);
        let rec = leading_envs_spec(rest1);
        let pairs = leading_envs_spec(s).0;
        assert(pairs == seq![p->0] + rec.0);
        assert(pairs[0] == p->0);
        assert(pairs.drop_first() =~= rec.0);
        assert(pair_accounts_for_input(s, pairs[0], trimmed_of(s.skip(t + 1)), a, ke, t));
        assert(lex_segmentation(trimmed_of(s.skip(t + 1)), pairs.drop_first(), rec.1));
    }
}

/// Splits a script into its leading inline environment assignments and the
/// remaining program.
///
/// The remaining program is a contiguous piece of the input with surrounding
/// whitespace removed, and the pair list is `Some` exactly when at least one
/// assignment was found.
pub fn match_program_with_envs(program: &str) -> (r: (String, Option<Vec<(String, String)>>))
    ensures
        r.0@ == leading_envs_spec(program@).1,
        r.1 matches Some(ps) ==> pair_views(ps@) == leading_envs_spec(program@).0,
        r.1 is Some <==> leading_envs_spec(program@).0.len() > 0,
        is_trimmed(r.0@),
        exists|i: int, j: int|
            0 <= i <= j <= program@.len() && r.0@ == #[trigger] program@.subrange(i, j),
{
    let mut envs: Vec<(String, String)> = Vec::new();
    let mut cur: String = program.to_owned();
    loop
        invariant
            leading_envs_spec(program@).0 =~= pair_views(envs@) + leading_envs_spec(cur@).0,
            leading_envs_spec(program@).1 == leading_envs_spec(cur@).1,
        decreases cur@.len(),
    {
        let (env, new_program) = match_one_env(cur.as_str());
        match env {
            Some(kv) => {
                proof {
                    let p = one_env_spec(cur@).0->0;
                    let rec = leading_envs_spec(one_env_spec(cur@).1);
                    assert(leading_envs_spec(cur@).0 == seq![p] + rec.0);
                    assert(leading_envs_spec(cur@).1 == rec.1);
                    assert((kv.0@, kv.1@) == p);
                    assert(pair_views(envs@.push(kv)) =~= pair_views(envs@) + seq![p]);
                    assert((pair_views(envs@) + seq![p]) + rec.0 =~= pair_views(envs@) + (seq![p]
                        + rec.0));
                }
                envs.push(kv);
                cur = new_program;
            },
            None => {
                proof {
                    lemma_leading_envs_rest(program@);
                    assert(leading_envs_spec(cur@).0 == Seq::<(Seq<char>, Seq<char>)>::empty());
                    assert(leading_envs_spec(cur@).1 == one_env_spec(cur@).1);
                    assert(pair_views(envs@) + leading_envs_spec(cur@).0 =~= pair_views(envs@));
                    assert(new_program@ == leading_envs_spec(program@).1);
                    assert(pair_views(envs@) =~= leading_envs_spec(program@).0);
                    assert(envs@.len() == pair_views(envs@).len());
                }
                if envs.len() > 0 {
                    return (new_program, Some(envs));
                } else {
                    return (new_program, None);
                }
            },
        }
    }
}

} // verus!
