//! The markdown log of captures and skipped ticks: its location and the exact
//! layout of each entry. Writing the entries to disk is left to the caller.

use vstd::prelude::*;

verus! {

/// The append-only markdown log of a session.
#[derive(Debug, Clone)]
pub struct ContextLog {
    path: String,
}

impl ContextLog {
    /// A log kept at `path`.
    pub fn new(path: String) -> (r: ContextLog)
        ensures
            r.path_spec() == path@,
    {
        ContextLog { path }
    }

    /// The path of the log file.
    pub closed spec fn path_spec(&self) -> Seq<char> {
        self.path@
    }

    /// The path of the log file.
    pub fn path(&self) -> (r: &str)
        ensures
            r@ == self.path_spec(),
    {
        self.path.as_str()
    }
}

/// Relies on `String::push`: appends one character.
#[verifier::external_body]
fn push_char(s: &mut String, c: char)
    ensures
        final(s)@ == old(s)@.push(c),
{
    s.push(c)
}

/// The character of a decimal digit.
pub open spec fn digit_char(d: nat) -> char {
    if d == 0 {
        '0'
    } else if d == 1 {
        '1'
    } else if d == 2 {
        '2'
    } else if d == 3 {
        '3'
    } else if d == 4 {
        '4'
    } else if d == 5 {
        '5'
    } else if d == 6 {
        '6'
    } else if d == 7 {
        '7'
    } else if d == 8 {
        '8'
    } else {
        '9'
    }
}

/// `n` written in decimal, without leading zeros.
pub open spec fn decimal(n: nat) -> Seq<char>
    decreases n,
{
    if n < 10 {
        seq![digit_char(n)]
    } else {
        decimal(n / 10).push(digit_char(n % 10))
    }
}

/// `n` in decimal, padded with leading zeros to at least six digits.
pub open spec fn decimal6(n: nat) -> Seq<char> {
    Seq::new((if decimal(n).len() < 6 {
        6 - decimal(n).len()
    } else {
        0
    }) as nat, |i: int| '0') + decimal(n)
}

/// The text with every line feed turned into a space.
pub open spec fn one_line(s: Seq<char>) -> Seq<char> {
    s.map_values(|c: char| if c == '\n' { ' ' } else { c })
}

fn digit_of(d: u64) -> (c: char)
    requires
        d < 10,
    ensures
        c == digit_char(d as nat),
{
    if d == 0 {
        '0'
    } else if d == 1 {
        '1'
    } else if d == 2 {
        '2'
    } else if d == 3 {
        '3'
    } else if d == 4 {
        '4'
    } else if d == 5 {
        '5'
    } else if d == 6 {
        '6'
    } else if d == 7 {
        '7'
    } else if d == 8 {
        '8'
    } else {
        '9'
    }
}

pub(crate) fn push_decimal(s: &mut String, n: u64)
    ensures
        final(s)@ == old(s)@ + decimal(n as nat),
    decreases n,
{
    if n >= 10 {
        push_decimal(s, n / 10);
    }
    push_char(s, digit_of(n % 10));
    proof {
        if n < 10 {
            assert(decimal(n as nat) == seq![digit_char(n as nat)]);
        }
    }
    assert(s@ =~= old(s)@ + decimal(n as nat));
}

fn push_decimal6(s: &mut String, n: u64)
    ensures
        final(s)@ == old(s)@ + decimal6(n as nat),
{
    let mut digits = String::new();
    push_decimal(&mut digits, n);
    let ghost d = decimal(n as nat);
    assert(digits@ =~= d);
    let len = digits.as_str().unicode_len();
    let pad: usize = if len < 6 {
        6 - len
    } else {
        0
    };
    let ghost start = s@;
    let mut i: usize = 0;
    while i < pad
        invariant
            i <= pad,
            s@ == start + Seq::new(i as nat, |k: int| '0'),
        decreases pad - i,
    {
        push_char(s, '0');
        i = i + 1;
        assert(s@ =~= start + Seq::new(i as nat, |k: int| '0'));
    }
    s.append(digits.as_str());
    assert(s@ =~= start + decimal6(n as nat));
}

fn push_one_line(s: &mut String, text: &str)
    ensures
        final(s)@ == old(s)@ + one_line(text@),
{
    let n = text.unicode_len();
    let ghost start = s@;
    let mut i: usize = 0;
    while i < n
        invariant
            n == text@.len(),
            i <= n,
            s@ == start + one_line(text@.subrange(0, i as int)),
        decreases n - i,
    {
        let c = text.get_char(i);
        push_char(s, if c == '\n' { ' ' } else { c });
        i = i + 1;
        assert(one_line(text@.subrange(0, i as int)) =~= one_line(
            text@.subrange(0, i - 1),
        ).push(if c == '\n' { ' ' } else { c }));
        assert(s@ =~= start + one_line(text@.subrange(0, i as int)));
    }
    assert(text@.subrange(0, n as int) =~= text@);
}

/// The log entry of a successful capture.
pub open spec fn capture_entry_text(
    index: u64,
    timestamp: Seq<char>,
    image: Seq<char>,
    summary: Seq<char>,
) -> Seq<char> {
    "## Capture "@ + decimal(index as nat) + " at "@ + timestamp + "\n- Image: "@ + image
        + "\n- Summary: "@ + one_line(summary) + "\n\n"@
}

/// The log entry of a tick that the privacy guard declined.
pub open spec fn skipped_entry_text(tick: u64, timestamp: Seq<char>, reason: Seq<char>) -> Seq<
    char,
> {
    "## Skipped tick "@ + decimal(tick as nat) + " at "@ + timestamp + "\n- Reason: "@ + one_line(
        reason,
    ) + "\n\n"@
}

/// The log entry of a session transition such as a pause.
pub open spec fn session_entry_text(
    timestamp: Seq<char>,
    state: Seq<char>,
    trigger: Seq<char>,
) -> Seq<char> {
    "## Session "@ + one_line(state) + " at "@ + timestamp + "\n- Trigger: "@ + one_line(trigger)
        + "\n\n"@
}

/// The name of a capture file: `<prefix>-<stamp>-<index, six digits>.png`.
pub open spec fn capture_file_name_text(prefix: Seq<char>, stamp: Seq<char>, index: u64) -> Seq<
    char,
> {
    prefix + "-"@ + stamp + "-"@ + decimal6(index as nat) + ".png"@
}

/// Formats the entry of capture `index` taken at `timestamp`; line feeds in
/// the summary become spaces.
pub fn capture_entry(index: u64, timestamp: &str, image: &str, summary: &str) -> (r: String)
    ensures
        r@ == capture_entry_text(index, timestamp@, image@, summary@),
{
    let mut s = String::from_str("## Capture ");
    push_decimal(&mut s, index);
    s.append(" at ");
    s.append(timestamp);
    s.append("\n- Image: ");
    s.append(image);
    s.append("\n- Summary: ");
    push_one_line(&mut s, summary);
    s.append("\n\n");
    assert(s@ =~= capture_entry_text(index, timestamp@, image@, summary@));
    s
}

/// Formats the entry of skipped tick `tick`; line feeds in the reason become spaces.
pub fn skipped_entry(tick: u64, timestamp: &str, reason: &str) -> (r: String)
    ensures
        r@ == skipped_entry_text(tick, timestamp@, reason@),
{
    let mut s = String::from_str("## Skipped tick ");
    push_decimal(&mut s, tick);
    s.append(" at ");
    s.append(timestamp);
    s.append("\n- Reason: ");
    push_one_line(&mut s, reason);
    s.append("\n\n");
    assert(s@ =~= skipped_entry_text(tick, timestamp@, reason@));
    s
}

/// Formats the entry of a session transition; line feeds become spaces.
pub fn session_entry(timestamp: &str, state: &str, trigger: &str) -> (r: String)
    ensures
        r@ == session_entry_text(timestamp@, state@, trigger@),
{
    let mut s = String::from_str("## Session ");
    push_one_line(&mut s, state);
    s.append(" at ");
    s.append(timestamp);
    s.append("\n- Trigger: ");
    push_one_line(&mut s, trigger);
    s.append("\n\n");
    assert(s@ =~= session_entry_text(timestamp@, state@, trigger@));
    s
}

/// The file name of capture `index`.
pub fn capture_file_name(prefix: &str, stamp: &str, index: u64) -> (r: String)
    ensures
        r@ == capture_file_name_text(prefix@, stamp@, index),
{
    let mut s = String::from_str(prefix);
    s.append("-");
    s.append(stamp);
    s.append("-");
    push_decimal6(&mut s, index);
    s.append(".png");
    assert(s@ =~= capture_file_name_text(prefix@, stamp@, index));
    s
}

} // verus!
