//! Small text helpers shared by the parsers and the privacy rules.

use vstd::prelude::*;

verus! {

/// A character with the Unicode `White_Space` property.
pub open spec fn is_white_space(c: char) -> bool {
    let v = c as u32;
    (0x9 <= v && v <= 0xD) || v == 0x20 || v == 0x85 || v == 0xA0 || v == 0x1680 || (0x2000 <= v
        && v <= 0x200A) || v == 0x2028 || v == 0x2029 || v == 0x202F || v == 0x205F || v == 0x3000
}

/// The first index at or after `i` that does not hold white space.
pub open spec fn skip_leading(s: Seq<char>, i: int) -> int
    decreases s.len() - i,
{
    if 0 <= i < s.len() && is_white_space(s[i]) {
        skip_leading(s, i + 1)
    } else {
        i
    }
}

/// The end, at or below `j` and above `lo`, once trailing white space is dropped.
pub open spec fn skip_trailing(s: Seq<char>, j: int, lo: int) -> int
    decreases j - lo,
{
    if lo < j && j <= s.len() && is_white_space(s[j - 1]) {
        skip_trailing(s, j - 1, lo)
    } else {
        j
    }
}

/// The text without leading and trailing white space.
pub open spec fn trimmed(s: Seq<char>) -> Seq<char> {
    let a = skip_leading(s, 0);
    s.subrange(a, skip_trailing(s, s.len() as int, a))
}

fn white_space(c: char) -> (r: bool)
    ensures
        r == is_white_space(c),
{
    let v = c as u32;
    (0x9 <= v && v <= 0xD) || v == 0x20 || v == 0x85 || v == 0xA0 || v == 0x1680 || (0x2000 <= v
        && v <= 0x200A) || v == 0x2028 || v == 0x2029 || v == 0x202F || v == 0x205F || v == 0x3000
}

/// The string without leading and trailing white space, as `str::trim` does.
pub fn trim(s: &str) -> (r: &str)
    ensures
        r@ == trimmed(s@),
{
    let n = s.unicode_len();
    let mut a: usize = 0;
    while a < n && white_space(s.get_char(a))
        invariant
            n == s@.len(),
            a <= n,
            skip_leading(s@, 0) == skip_leading(s@, a as int),
        decreases n - a,
    {
        a = a + 1;
    }
    let mut b: usize = n;
    while b > a && white_space(s.get_char(b - 1))
        invariant
            n == s@.len(),
            a <= b <= n,
            skip_leading(s@, 0) == a,
            skip_trailing(s@, n as int, a as int) == skip_trailing(s@, b as int, a as int),
        decreases b - a,
    {
        b = b - 1;
    }
    s.substring_char(a, b)
}

/// `c` equals the lower-case ASCII letter or symbol `p`, ignoring ASCII case.
pub open spec fn ascii_ci_char_eq(c: char, p: char) -> bool {
    c == p || ('a' <= p && p <= 'z' && (c as u32) + 32 == p as u32)
}

/// `s` equals the lower-case pattern `p` once ASCII upper-case letters of `s`
/// are lowered.
pub open spec fn ascii_ci_eq(s: Seq<char>, p: Seq<char>) -> bool {
    s.len() == p.len() && forall|i: int| 0 <= i < s.len() ==> ascii_ci_char_eq(s[i], p[i])
}

/// Compares `s` with the lower-case pattern `p`, ignoring ASCII case in `s`.
pub fn ascii_ci_matches(s: &str, p: &str) -> (r: bool)
    ensures
        r == ascii_ci_eq(s@, p@),
{
    let n = s.unicode_len();
    if n != p.unicode_len() {
        return false;
    }
    let mut i: usize = 0;
    while i < n
        invariant
            n == s@.len(),
            n == p@.len(),
            i <= n,
            forall|j: int| 0 <= j < i ==> ascii_ci_char_eq(s@[j], p@[j]),
        decreases n - i,
    {
        let c = s.get_char(i);
        let q = p.get_char(i);
        if !(c == q || ('a' <= q && q <= 'z' && (c as u32) + 32 == q as u32)) {
            return false;
        }
        i = i + 1;
    }
    true
}

} // verus!
