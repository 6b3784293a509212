//! Character classes and whitespace trimming, shared by the lexer and the
//! label formatter.

use vstd::prelude::*;

verus! {

/// The Unicode `White_Space` characters, the set that `char::is_whitespace`
/// recognizes.
pub open spec fn is_space_char(c: char) -> bool {
    let u = c as u32;
    u == 0x09 || u == 0x0A || u == 0x0B || u == 0x0C || u == 0x0D || u == 0x20 || u == 0x85
        || u == 0xA0 || u == 0x1680 || (0x2000 <= u && u <= 0x200A) || u == 0x2028 || u == 0x2029
        || u == 0x202F || u == 0x205F || u == 0x3000
}

pub fn space_char(c: char) -> (b: bool)
    ensures
        b == is_space_char(c),
{
    let u = c as u32;
    u == 0x09 || u == 0x0A || u == 0x0B || u == 0x0C || u == 0x0D || u == 0x20 || u == 0x85
        || u == 0xA0 || u == 0x1680 || (0x2000 <= u && u <= 0x200A) || u == 0x2028 || u == 0x2029
        || u == 0x202F || u == 0x205F || u == 0x3000
}

/// First index at or after `i` holding a non-whitespace character.
pub open spec fn scan_space_end(s: Seq<char>, i: int) -> int
    decreases s.len() - i when 0 <= i <= s.len()
{
    if i >= s.len() || !is_space_char(s[i]) {
        i
    } else {
        scan_space_end(s, i + 1)
    }
}

pub proof fn lemma_scan_space_end(s: Seq<char>, i: int)
    requires
        0 <= i <= s.len(),
    ensures
        i <= scan_space_end(s, i) <= s.len(),
        scan_space_end(s, i) < s.len() ==> !is_space_char(s[scan_space_end(s, i)]),
        forall|k: int| i <= k < scan_space_end(s, i) ==> is_space_char(s[k]),
    decreases s.len() - i,
{
    if i < s.len() && is_space_char(s[i]) {
        lemma_scan_space_end(s, i + 1);
    }
}

/// One past the last non-whitespace character before index `j`.
pub open spec fn scan_space_start(s: Seq<char>, j: int) -> int
    decreases j when 0 <= j <= s.len()
{
    if j <= 0 || !is_space_char(s[j - 1]) {
        j
    } else {
        scan_space_start(s, j - 1)
    }
}

pub proof fn lemma_scan_space_start(s: Seq<char>, j: int)
    requires
        0 <= j <= s.len(),
    ensures
        0 <= scan_space_start(s, j) <= j,
        scan_space_start(s, j) > 0 ==> !is_space_char(s[scan_space_start(s, j) - 1]),
        forall|k: int| scan_space_start(s, j) <= k < j ==> is_space_char(s[k]),
    decreases j,
{
    if j > 0 && is_space_char(s[j - 1]) {
        lemma_scan_space_start(s, j - 1);
    }
}

/// The sequence with leading and trailing whitespace removed.
pub open spec fn trimmed_of(s: Seq<char>) -> Seq<char> {
    let a = scan_space_end(s, 0);
    let b = scan_space_start(s, s.len() as int);
    if a <= b {
        s.subrange(a, b)
    } else {
        Seq::empty()
    }
}

/// No whitespace at either end.
pub open spec fn is_trimmed(s: Seq<char>) -> bool {
    s.len() > 0 ==> !is_space_char(s[0]) && !is_space_char(s[s.len() - 1])
}

pub proof fn lemma_trimmed_of(s: Seq<char>)
    ensures
        is_trimmed(trimmed_of(s)),
        trimmed_of(s).len() <= s.len(),
        exists|i: int, j: int|
            0 <= i <= j <= s.len() && trimmed_of(s) == #[trigger] s.subrange(i, j),
{
    let a = scan_space_end(s, 0);
    let b = scan_space_start(s, s.len() as int);
    lemma_scan_space_end(s, 0);
    lemma_scan_space_start(s, s.len() as int);
    if a <= b {
        assert(trimmed_of(s) == s.subrange(a, b));
        if a < b {
            assert(s.subrange(a, b)[0] == s[a]);
            assert(s.subrange(a, b)[b - a - 1] == s[b - 1]);
            assert(!is_space_char(s[a]));
        }
    } else {
        assert(trimmed_of(s) == s.subrange(0, 0));
    }
}

/// Relies on std's `String::push`: appends exactly one character.
#[verifier::external_body]
pub(crate) fn push_char(s: &mut String, c: char)
    ensures
        final(s)@ == old(s)@.push(c),
{
    s.push(c)
}

/// Relies on std's `char::from_u32`: returns `Some` exactly for Unicode scalar
/// values, that is every `u32` except the surrogates `0xD800..=0xDFFF` and
/// values above `0x10FFFF`, and the character has the given scalar value.
#[verifier::external_body]
pub(crate) fn char_from_u32(u: u32) -> (r: Option<char>)
    ensures
        r matches Some(c) ==> c as u32 == u,
        r is Some <==> (u < 0xD800 || (0xE000 <= u && u <= 0x10FFFF)),
{
    char::from_u32(u)
}

/// The characters of a string slice, as a vector.
pub fn chars_of_str(s: &str) -> (v: Vec<char>)
    ensures
        v@ == s@,
{
    let n = s.unicode_len();
    let mut v: Vec<char> = Vec::new();
    let mut i: usize = 0;
    while i < n
        invariant
            n == s@.len(),
            i <= n,
            v@ == s@.subrange(0, i as int),
        decreases n - i,
    {
        v.push(s.get_char(i));
        i = i + 1;
        assert(v@ =~= s@.subrange(0, i as int));
    }
    assert(v@ =~= s@);
    v
}

/// A string holding the characters `v[from..to]`.
pub fn string_of_range(v: &Vec<char>, from: usize, to: usize) -> (r: String)
    requires
        from <= to <= v@.len(),
    ensures
        r@ == v@.subrange(from as int, to as int),
{
    let mut r = String::new();
    let mut i: usize = from;
    while i < to
        invariant
            from <= i <= to <= v@.len(),
            r@ == v@.subrange(from as int, i as int),
        decreases to - i,
    {
        push_char(&mut r, v[i]);
        i = i + 1;
        assert(r@ =~= v@.subrange(from as int, i as int));
    }
    r
}

/// A string holding all characters of `v`.
pub fn string_of_chars(v: &Vec<char>) -> (r: String)
    ensures
        r@ == v@,
{
    let r = string_of_range(v, 0, v.len());
    assert(v@.subrange(0, v@.len() as int) =~= v@);
    r
}

/// Whether the characters of `v` spell exactly the given string.
pub fn chars_equal_str(v: &Vec<char>, w: &str) -> (b: bool)
    ensures
        b == (v@ == w@),
{
    let n = w.unicode_len();
    if v.len() != n {
        proof {
            assert(v@ != w@);
        }
        return false;
    }
    let mut i: usize = 0;
    while i < n
        invariant
            i <= n,
            n == w@.len(),
            v@.len() == n,
            forall|k: int| 0 <= k < i ==> v@[k] == w@[k],
        decreases n - i,
    {
        if v[i] != w.get_char(i) {
            proof {
                assert(v@[i as int] != w@[i as int]);
            }
            return false;
        }
        i = i + 1;
    }
    proof {
        assert(v@ =~= w@);
    }
    true
}

/// The suffix `v[from..]` with surrounding whitespace removed.
pub fn trim_range_to_string(v: &Vec<char>, from: usize) -> (r: String)
    requires
        from <= v@.len(),
    ensures
        r@ == trimmed_of(v@.skip(from as int)),
{
    let ghost s = v@.skip(from as int);
    let n = v.len();
    let mut a: usize = from;
    while a < n && space_char(v[a])
        invariant
            from <= a <= n,
            n == v@.len(),
            s == v@.skip(from as int),
            scan_space_end(s, 0) == scan_space_end(s, a - from),
        decreases n - a,
    {
        assert(s[a - from] == v@[a as int]);
        a = a + 1;
    }
    proof {
        lemma_scan_space_end(s, 0);
        assert(a - from < s.len() ==> s[a - from] == v@[a as int]);
        assert(scan_space_end(s, a - from) == a - from);
    }
    if a == n {
        // the suffix is all whitespace
        let r = String::new();
        proof {
            lemma_scan_space_start(s, s.len() as int);
            if scan_space_end(s, 0) <= scan_space_start(s, s.len() as int) {
                assert(trimmed_of(s) =~= Seq::<char>::empty());
            }
        }
        return r;
    }
    let mut b: usize = n;
    while b > a && space_char(v[b - 1])
        invariant
            from <= a < b <= n,
            n == v@.len(),
            s == v@.skip(from as int),
            !is_space_char(v@[a as int]),
            scan_space_start(s, s.len() as int) == scan_space_start(s, b - from),
        decreases b,
    {
        assert(s[b - from - 1] == v@[b - 1]);
        b = b - 1;
    }
    proof {
        assert(s[b - from - 1] == v@[b - 1]);
        assert(scan_space_start(s, b - from) == b - from);
    }
    let r = string_of_range(v, a, b);
    proof {
        assert(v@.subrange(a as int, b as int) =~= s.subrange(a - from, b - from));
        assert(trimmed_of(s) == s.subrange(a - from, b - from));
    }
    r
}

/// A copy of `s` with surrounding whitespace removed, the counterpart of
/// `str::trim` measured in characters.
pub fn trim_str(s: &str) -> (r: String)
    ensures
        r@ == trimmed_of(s@),
{
    let v = chars_of_str(s);
    let r = trim_range_to_string(&v, 0);
    proof {
        assert(v@.skip(0) =~= s@);
    }
    r
}

} // verus!
