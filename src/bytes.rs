//! Human-readable byte sizes such as `512MB`, `1.5GB` or `1_024kb`.
//!
//! The number is read exactly as a decimal; the size is rounded to the
//! nearest byte, halves upward, and saturates at `u64::MAX`.

use vstd::prelude::*;
use vstd::arithmetic::div_mod::*;
use crate::text::{ascii_ci_eq, ascii_ci_matches, trim, trimmed};

verus! {

/// An ASCII decimal digit.
pub open spec fn is_digit(c: char) -> bool {
    '0' <= c && c <= '9'
}

/// A character of the numeric part: digit, decimal point or digit separator.
pub open spec fn is_number_char(c: char) -> bool {
    is_digit(c) || c == '.' || c == '_'
}

/// `k` ends the numeric part of `t`: every earlier character is numeric and
/// the one at `k`, if any, is not.
pub open spec fn is_number_end(t: Seq<char>, k: int) -> bool {
    &&& 0 <= k <= t.len()
    &&& forall|j: int| 0 <= j < k ==> is_number_char(#[trigger] t[j])
    &&& (k == t.len() || !is_number_char(t[k]))
}

/// Where the numeric part of `t` ends.
pub open spec fn number_end(t: Seq<char>) -> int {
    choose|k: int| is_number_end(t, k)
}

/// Digits before and after the decimal point, and how many points were seen.
pub struct NumberParts {
    pub ints: Seq<u8>,
    pub fracs: Seq<u8>,
    pub dots: nat,
}

/// Splits a numeric part into its digits; separators are ignored.
pub open spec fn scan(p: Seq<char>) -> NumberParts
    decreases p.len(),
{
    if p.len() == 0 {
        NumberParts { ints: seq![], fracs: seq![], dots: 0 }
    } else {
        let r = scan(p.drop_last());
        let c = p.last();
        if c == '.' {
            NumberParts { dots: r.dots + 1, ..r }
        } else if is_digit(c) {
            let d = (c as u32 - '0' as u32) as u8;
            if r.dots == 0 {
                NumberParts { ints: r.ints.push(d), ..r }
            } else {
                NumberParts { fracs: r.fracs.push(d), ..r }
            }
        } else {
            r
        }
    }
}

/// The value of a sequence of decimal digits, most significant first.
pub open spec fn dval(s: Seq<u8>) -> nat
    decreases s.len(),
{
    if s.len() == 0 {
        0
    } else {
        dval(s.drop_last()) * 10 + s.last() as nat
    }
}

/// Ten to the power `n`.
pub open spec fn pow10(n: nat) -> nat
    decreases n,
{
    if n == 0 {
        1
    } else {
        10 * pow10((n - 1) as nat)
    }
}

/// The multiplier that a unit names, ignoring ASCII case.
pub open spec fn unit_multiplier(u: Seq<char>) -> Option<nat> {
    if ascii_ci_eq(u, ""@) || ascii_ci_eq(u, "b"@) {
        Some(1)
    } else if ascii_ci_eq(u, "kb"@) || ascii_ci_eq(u, "kib"@) {
        Some(1024)
    } else if ascii_ci_eq(u, "mb"@) || ascii_ci_eq(u, "mib"@) {
        Some(1048576)
    } else if ascii_ci_eq(u, "gb"@) || ascii_ci_eq(u, "gib"@) {
        Some(1073741824)
    } else if ascii_ci_eq(u, "tb"@) || ascii_ci_eq(u, "tib"@) {
        Some(1099511627776)
    } else {
        None
    }
}

/// `ints.fracs * m`, rounded to the nearest integer with halves upward.
pub open spec fn rounded_bytes(parts: NumberParts, m: nat) -> nat {
    dval(parts.ints) * m + ((2 * m) * dval(parts.fracs) / pow10(parts.fracs.len()) + 1) / 2
}

/// `n`, or `u64::MAX` if it is larger.
pub open spec fn saturate(n: nat) -> u64 {
    if n <= u64::MAX {
        n as u64
    } else {
        u64::MAX
    }
}

/// The size that a text names: a decimal number (at most one point, at least
/// one digit, `_` ignored), then an optional unit `b`, `kb`/`kib`, `mb`/`mib`,
/// `gb`/`gib` or `tb`/`tib` in any ASCII case; surrounding whitespace ignored.
pub open spec fn byte_size_of(input: Seq<char>) -> Option<u64> {
    let t = trimmed(input);
    if t.len() == 0 {
        None
    } else {
        let k = number_end(t);
        let parts = scan(t.subrange(0, k));
        if parts.dots > 1 || parts.ints.len() + parts.fracs.len() == 0 {
            None
        } else {
            match unit_multiplier(trimmed(t.subrange(k, t.len() as int))) {
                Some(m) => Some(saturate(rounded_bytes(parts, m))),
                None => None,
            }
        }
    }
}

/// Carry of `m * 0.ds`, computed from the last digit to the first.
pub open spec fn frac_carry(ds: Seq<u8>, m: nat) -> nat
    decreases ds.len(),
{
    if ds.len() == 0 {
        0
    } else {
        ((m * ds[0] + frac_carry(ds.drop_first(), m)) / 10) as nat
    }
}

proof fn lemma_dval_first(s: Seq<u8>)
    requires
        s.len() > 0,
    ensures
        dval(s) == s[0] * pow10((s.len() - 1) as nat) + dval(s.drop_first()),
    decreases s.len(),
{
    if s.len() == 1 {
        assert(s.drop_first().len() == 0);
        assert(s.drop_last().len() == 0);
        assert(pow10(0) == 1);
        assert(dval(s) == dval(s.drop_last()) * 10 + s.last() as nat);
    } else {
        let a = s.drop_last();
        let b = s.drop_first();
        lemma_dval_first(a);
        assert(a.drop_first() =~= b.drop_last());
        assert(b.last() == s.last());
        assert(a[0] == s[0]);
        assert(dval(s) == dval(a) * 10 + s.last() as nat);
        assert(dval(b) == dval(b.drop_last()) * 10 + b.last() as nat);
        let p = pow10((s.len() - 2) as nat);
        assert(pow10((s.len() - 1) as nat) == 10 * p);
        assert(dval(a) == s[0] * p + dval(b.drop_last()));
        let x = s[0] as int;
        let y = dval(b.drop_last()) as int;
        assert((x * p + y) * 10 == x * (10 * p) + y * 10) by (nonlinear_arith);
    }
}

proof fn lemma_frac_carry(ds: Seq<u8>, m: nat)
    requires
        m > 0,
        forall|i: int| 0 <= i < ds.len() ==> ds[i] <= 9,
    ensures
        frac_carry(ds, m) == (m * dval(ds)) / pow10(ds.len()),
        frac_carry(ds, m) < m,
    decreases ds.len(),
{
    if ds.len() == 0 {
        assert(pow10(0) == 1);
        assert(dval(ds) == 0);
    } else {
        let rest = ds.drop_first();
        lemma_frac_carry(rest, m);
        lemma_dval_first(ds);
        let p = pow10(rest.len());
        assert(p > 0) by {
            lemma_pow10_pos(rest.len());
        }
        let pi = p as int;
        let d = ds[0] as int;
        let x = (m * dval(rest)) as int;
        let mi = m as int;
        let k = mi * d;
        assert(m * dval(ds) == x + k * pi) by (nonlinear_arith)
            requires
                dval(ds) == d * pi + dval(rest),
                x == m * dval(rest),
                mi == m,
                k == mi * d,
        ;
        lemma_hoist_over_denominator(x, k, p);
        assert(x / pi + k == (x + k * pi) / pi);
        assert(k * pi >= 0) by (nonlinear_arith)
            requires
                k == mi * d,
                mi > 0,
                d >= 0,
                pi > 0,
        ;
        lemma_div_denominator(x + k * pi, pi, 10);
        assert(((x + k * pi) / pi) / 10 == (x + k * pi) / (pi * 10));
        assert(pow10(ds.len()) == 10 * p);
        assert(frac_carry(rest, m) == x / pi);
        assert(frac_carry(ds, m) == (k + frac_carry(rest, m)) / 10);
        assert(k <= mi * 9) by (nonlinear_arith)
            requires
                d <= 9,
                mi > 0,
                k == mi * d,
        ;
        assert((k + frac_carry(rest, m)) / 10 < mi);
    }
}

proof fn lemma_pow10_pos(n: nat)
    ensures
        pow10(n) > 0,
    decreases n,
{
    if n > 0 {
        lemma_pow10_pos((n - 1) as nat);
    }
}

fn unit_multiplier_of(u: &str) -> (r: Option<u64>)
    ensures
        r is Some <==> unit_multiplier(u@) is Some,
        r is Some ==> r->Some_0 as nat == unit_multiplier(u@)->Some_0,
{
    if ascii_ci_matches(u, "") || ascii_ci_matches(u, "b") {
        Some(1)
    } else if ascii_ci_matches(u, "kb") || ascii_ci_matches(u, "kib") {
        Some(1024)
    } else if ascii_ci_matches(u, "mb") || ascii_ci_matches(u, "mib") {
        Some(1048576)
    } else if ascii_ci_matches(u, "gb") || ascii_ci_matches(u, "gib") {
        Some(1073741824)
    } else if ascii_ci_matches(u, "tb") || ascii_ci_matches(u, "tib") {
        Some(1099511627776)
    } else {
        None
    }
}

/// Parses a byte size such as `2048`, `512MB`, `1.5GB` or `1_024kb`.
pub fn parse_human_readable_bytes(input: &str) -> (r: Option<u64>)
    ensures
        r == byte_size_of(input@),
{
    let t = trim(input);
    let n = t.unicode_len();
    if n == 0 {
        return None;
    }
    let mut k: usize = 0;
    while k < n
        invariant
            n == t@.len(),
            k <= n,
            forall|j: int| 0 <= j < k ==> is_number_char(#[trigger] t@[j]),
        ensures
            is_number_end(t@, k as int),
        decreases n - k,
    {
        let c = t.get_char(k);
        if !(('0' <= c && c <= '9') || c == '.' || c == '_') {
            break;
        }
        k = k + 1;
    }
    proof {
        let e = number_end(t@);
        assert(is_number_end(t@, e));
        if e < k {
            assert(is_number_char(t@[e]));
        }
        if k < e {
            assert(is_number_char(t@[k as int]));
        }
        assert(e == k);
    }
    let num = t.substring_char(0, k);
    let mut ints: Vec<u8> = Vec::new();
    let mut fracs: Vec<u8> = Vec::new();
    let mut dots: usize = 0;
    let mut i: usize = 0;
    while i < k
        invariant
            num@ == t@.subrange(0, k as int),
            k == num@.len(),
            i <= k,
            ints@ == scan(num@.subrange(0, i as int)).ints,
            fracs@ == scan(num@.subrange(0, i as int)).fracs,
            dots as nat == scan(num@.subrange(0, i as int)).dots,
            dots <= i,
            forall|j: int| 0 <= j < ints@.len() ==> ints@[j] <= 9,
            forall|j: int| 0 <= j < fracs@.len() ==> fracs@[j] <= 9,
        decreases k - i,
    {
        let c = num.get_char(i);
        proof {
            assert(num@.subrange(0, i + 1).drop_last() =~= num@.subrange(0, i as int));
            assert(num@.subrange(0, i + 1).last() == c);
        }
        if c == '.' {
            dots = dots + 1;
        } else if '0' <= c && c <= '9' {
            let d = (c as u32 - '0' as u32) as u8;
            if dots == 0 {
                ints.push(d);
            } else {
                fracs.push(d);
            }
        }
        i = i + 1;
    }
    proof {
        assert(num@.subrange(0, k as int) =~= num@);
    }
    if dots > 1 || (ints.len() == 0 && fracs.len() == 0) {
        return None;
    }
    let unit = trim(t.substring_char(k, n));
    let mult = match unit_multiplier_of(unit) {
        Some(m) => m,
        None => return None,
    };
    let cap: u128 = 0x1_0000_0000_0000_0000;
    let mut acc: u128 = 0;
    let mut a: usize = 0;
    while a < ints.len()
        invariant
            a <= ints@.len(),
            forall|j: int| 0 <= j < ints@.len() ==> ints@[j] <= 9,
            cap == 0x1_0000_0000_0000_0000u128,
            acc == if dval(ints@.subrange(0, a as int)) <= cap {
                dval(ints@.subrange(0, a as int))
            } else {
                cap as nat
            },
        decreases ints@.len() - a,
    {
        let ghost pre = ints@.subrange(0, a as int);
        let ghost nxt = ints@.subrange(0, a + 1);
        proof {
            assert(nxt.drop_last() =~= pre);
            assert(dval(nxt) == dval(pre) * 10 + ints@[a as int]);
            if dval(pre) > cap {
                assert(dval(pre) * 10 >= dval(pre)) by (nonlinear_arith);
            }
        }
        let v = acc * 10 + ints[a] as u128;
        acc = if v <= cap {
            v
        } else {
            cap
        };
        a = a + 1;
    }
    proof {
        assert(ints@.subrange(0, ints@.len() as int) =~= ints@);
    }
    let m2: u64 = 2 * mult;
    let mut c: u64 = 0;
    let mut b: usize = fracs.len();
    while b > 0
        invariant
            b <= fracs@.len(),
            forall|j: int| 0 <= j < fracs@.len() ==> fracs@[j] <= 9,
            m2 > 0,
            m2 <= 2 * 1099511627776u64,
            c == frac_carry(fracs@.subrange(b as int, fracs@.len() as int), m2 as nat),
            c < m2,
        decreases b,
    {
        let ghost suf = fracs@.subrange(b as int, fracs@.len() as int);
        let ghost ext = fracs@.subrange(b - 1, fracs@.len() as int);
        proof {
            assert(ext.drop_first() =~= suf);
            assert(ext[0] == fracs@[b - 1]);
            lemma_frac_carry(ext, m2 as nat);
        }
        let d = fracs[b - 1] as u64;
        assert(m2 * d <= m2 * 9) by (nonlinear_arith)
            requires
                d <= 9,
        ;
        c = (m2 * d + c) / 10;
        b = b - 1;
    }
    proof {
        assert(fracs@.subrange(0, fracs@.len() as int) =~= fracs@);
        lemma_frac_carry(fracs@, m2 as nat);
    }
    let half = (c as u128 + 1) / 2;
    assert(acc * mult <= cap * 1099511627776u128) by (nonlinear_arith)
        requires
            acc <= cap,
            mult <= 1099511627776u64,
    ;
    let total = acc * (mult as u128) + half;
    proof {
        let parts = scan(num@);
        let exact = rounded_bytes(parts, mult as nat);
        assert(parts.ints == ints@);
        assert(parts.fracs == fracs@);
        assert((2 * (mult as nat)) == m2 as nat);
        if dval(ints@) > cap {
            assert(dval(ints@) * mult >= dval(ints@)) by (nonlinear_arith)
                requires
                    mult >= 1,
            ;
            assert(acc * mult >= acc) by (nonlinear_arith)
                requires
                    mult >= 1,
            ;
        }
    }
    if total > 0xFFFF_FFFF_FFFF_FFFFu128 {
        Some(0xFFFF_FFFF_FFFF_FFFFu64)
    } else {
        Some(total as u64)
    }
}

/// Reads a minimum free-space setting.
pub fn parse_min_free_bytes(value: &str) -> (r: Result<u64, String>)
    ensures
        byte_size_of(value@) is Some ==> r == Ok::<u64, String>(byte_size_of(value@)->Some_0),
        byte_size_of(value@) is None ==> r is Err && r->Err_0@
            == "expected byte size such as 1073741824, 512MB, or 1.5GB"@,
{
    match parse_human_readable_bytes(value) {
        Some(n) => Ok(n),
        None => Err(String::from_str("expected byte size such as 1073741824, 512MB, or 1.5GB")),
    }
}

/// Reads a session byte budget.
pub fn parse_max_session_bytes(value: &str) -> (r: Result<u64, String>)
    ensures
        byte_size_of(value@) is Some ==> r == Ok::<u64, String>(byte_size_of(value@)->Some_0),
        byte_size_of(value@) is None ==> r is Err && r->Err_0@
            == "expected byte size such as 200MB, 1GB, or 1073741824"@,
{
    match parse_human_readable_bytes(value) {
        Some(n) => Ok(n),
        None => Err(String::from_str("expected byte size such as 200MB, 1GB, or 1073741824")),
    }
}

} // verus!
