//! The privacy decision taken before each capture attempt.

use vstd::prelude::*;
use crate::context_log::{decimal, push_decimal};
use crate::text::{ascii_ci_eq, ascii_ci_matches, trim, trimmed};

verus! {

/// Whether a due tick may be captured.
#[derive(Debug, Clone, PartialEq, Eq)]
pub enum CaptureDecision {
    Allow,
    /// The reason never holds window titles or URLs.
    Skip { reason: String },
}

/// What the privacy guard reports about itself.
#[derive(Debug, Clone)]
pub struct PrivacyStatus {
    pub config_path: String,
    pub enabled: bool,
    pub rule_summary: String,
}

/// A guard that allows every capture.
#[derive(Debug, Default)]
pub struct AllowAllPrivacyGuard {
    config_path: String,
}

impl AllowAllPrivacyGuard {
    /// A guard that reports `config_path` as its (unused) configuration.
    pub fn new(config_path: String) -> (r: AllowAllPrivacyGuard)
        ensures
            r.config_path() == config_path,
    {
        AllowAllPrivacyGuard { config_path }
    }

    /// The configuration path given at construction.
    pub closed spec fn config_path(&self) -> String {
        self.config_path
    }

    /// Always `Allow`.
    pub fn decision(&self) -> (r: CaptureDecision)
        ensures
            r == CaptureDecision::Allow,
    {
        CaptureDecision::Allow
    }

    /// Disabled, with no rules.
    pub fn status(&self) -> (r: PrivacyStatus)
        ensures
            r.config_path == self.config_path(),
            !r.enabled,
            r.rule_summary@ == "disabled"@,
    {
        PrivacyStatus {
            config_path: self.config_path.clone(),
            enabled: false,
            rule_summary: String::from_str("disabled"),
        }
    }
}

/// The application in the foreground.
#[derive(Debug, Clone)]
pub struct ForegroundAppSnapshot {
    pub app_name: String,
    pub bundle_id: Option<String>,
    pub browser_private_window: Option<bool>,
}

/// Reads the foreground application through the system's scripting bridge.
#[derive(Debug, Clone, Copy, Default)]
pub struct MacOsForegroundAppProvider;

/// An ASCII upper-case letter.
pub open spec fn is_upper(c: char) -> bool {
    'A' <= c && c <= 'Z'
}

/// The two characters agree once ASCII upper-case letters are lowered.
pub open spec fn same_char_ignoring_case(c: char, d: char) -> bool {
    c == d || (is_upper(c) && (c as u32) + 32 == d as u32) || (is_upper(d) && (d as u32) + 32
        == c as u32)
}

/// The two strings agree once ASCII upper-case letters are lowered.
pub open spec fn same_ignoring_case(a: Seq<char>, b: Seq<char>) -> bool {
    a.len() == b.len() && forall|i: int| 0 <= i < a.len() ==> same_char_ignoring_case(a[i], b[i])
}

/// A rule names the app: an empty rule (after trimming) names nothing, a rule
/// with a dot is a bundle identifier, any other rule is an application name;
/// the comparison ignores ASCII case.
pub open spec fn rule_matches(rule: Seq<char>, app_name: Seq<char>, bundle: Seq<char>) -> bool {
    let r = trimmed(rule);
    r.len() > 0 && if r.contains('.') {
        same_ignoring_case(r, bundle)
    } else {
        same_ignoring_case(r, app_name)
    }
}

/// Some rule names the app.
pub open spec fn any_rule_matches(rules: Seq<String>, app_name: Seq<char>, bundle: Seq<char>) -> bool {
    exists|i: int| 0 <= i < rules.len() && rule_matches(#[trigger] rules[i]@, app_name, bundle)
}

fn same_ignoring_ascii_case(a: &str, b: &str) -> (r: bool)
    ensures
        r == same_ignoring_case(a@, b@),
{
    let n = a.unicode_len();
    if n != b.unicode_len() {
        return false;
    }
    let mut i: usize = 0;
    while i < n
        invariant
            n == a@.len(),
            n == b@.len(),
            i <= n,
            forall|j: int| 0 <= j < i ==> same_char_ignoring_case(a@[j], b@[j]),
        decreases n - i,
    {
        let c = a.get_char(i);
        let d = b.get_char(i);
        let c_up = 'A' <= c && c <= 'Z';
        let d_up = 'A' <= d && d <= 'Z';
        if !(c == d || (c_up && (c as u32) + 32 == d as u32) || (d_up && (d as u32) + 32
            == c as u32)) {
            return false;
        }
        i = i + 1;
    }
    true
}

fn contains_dot(s: &str) -> (r: bool)
    ensures
        r == s@.contains('.'),
{
    let n = s.unicode_len();
    let mut i: usize = 0;
    while i < n
        invariant
            n == s@.len(),
            i <= n,
            forall|j: int| 0 <= j < i ==> s@[j] != '.',
        decreases n - i,
    {
        if s.get_char(i) == '.' {
            return true;
        }
        i = i + 1;
    }
    false
}

/// Whether any rule names the app by name or bundle identifier.
fn matches_any(app_name: &str, bundle: &str, rules: &Vec<String>) -> (r: bool)
    ensures
        r == any_rule_matches(rules@, app_name@, bundle@),
{
    let mut i: usize = 0;
    while i < rules.len()
        invariant
            i <= rules@.len(),
            forall|j: int| 0 <= j < i ==> !rule_matches(#[trigger] rules@[j]@, app_name@, bundle@),
        decreases rules@.len() - i,
    {
        let rule = trim(rules[i].as_str());
        if rule.unicode_len() > 0 {
            let hit = if contains_dot(rule) {
                same_ignoring_ascii_case(rule, bundle)
            } else {
                same_ignoring_ascii_case(rule, app_name)
            };
            if hit {
                return true;
            }
        }
        i = i + 1;
    }
    false
}

/// Deny and allow rules of the privacy configuration.
#[derive(Debug, Clone, Default)]
pub struct PrivacyPolicy {
    pub deny_apps: Vec<String>,
    pub allow_override: Vec<String>,
    pub deny_browser_private_windows: bool,
}

/// The bundle identifier, or the empty text when there is none.
pub open spec fn bundle_text(f: ForegroundAppSnapshot) -> Seq<char> {
    match f.bundle_id {
        Some(b) => b@,
        None => Seq::empty(),
    }
}

/// The decision for a foreground app: an allow rule wins, then a deny rule,
/// then the private-window rule; otherwise capture is allowed.
pub open spec fn decision_spec(p: PrivacyPolicy, f: ForegroundAppSnapshot) -> Option<Seq<char>> {
    if any_rule_matches(p.allow_override@, f.app_name@, bundle_text(f)) {
        None
    } else if any_rule_matches(p.deny_apps@, f.app_name@, bundle_text(f)) {
        Some("privacy: denied foreground app"@)
    } else if p.deny_browser_private_windows && f.browser_private_window == Some(true) {
        Some("privacy: browser private window"@)
    } else {
        None
    }
}

/// The one-line summary of a policy's rules.
pub open spec fn rule_summary_text(deny_rules: nat, private_windows: bool) -> Seq<char> {
    if deny_rules > 0 && private_windows {
        decimal(deny_rules) + " denied app rules, private windows excluded"@
    } else if deny_rules > 0 {
        decimal(deny_rules) + " denied app rules"@
    } else if private_windows {
        "private windows excluded"@
    } else {
        "disabled"@
    }
}

impl PrivacyPolicy {
    /// What a guard following this policy, configured at `config_path`,
    /// reports: enabled when any rule is active, and a summary of the rules.
    pub fn status(&self, config_path: String) -> (r: PrivacyStatus)
        ensures
            r.config_path == config_path,
            r.enabled == (self.deny_apps@.len() > 0 || self.deny_browser_private_windows),
            r.rule_summary@ == rule_summary_text(
                self.deny_apps@.len(),
                self.deny_browser_private_windows,
            ),
    {
        let n = self.deny_apps.len();
        let summary = if n > 0 {
            let mut s = String::new();
            push_decimal(&mut s, n as u64);
            if self.deny_browser_private_windows {
                s.append(" denied app rules, private windows excluded");
            } else {
                s.append(" denied app rules");
            }
            s
        } else if self.deny_browser_private_windows {
            String::from_str("private windows excluded")
        } else {
            String::from_str("disabled")
        };
        PrivacyStatus {
            config_path,
            enabled: n > 0 || self.deny_browser_private_windows,
            rule_summary: summary,
        }
    }

    /// Decides whether the foreground app may be captured.
    ///
    /// `Skip` carries the reason of `decision_spec`; `None` there means `Allow`.
    pub fn decision_for(&self, foreground: &ForegroundAppSnapshot) -> (r: CaptureDecision)
        ensures
            decision_spec(*self, *foreground) is None ==> r == CaptureDecision::Allow,
            decision_spec(*self, *foreground) is Some ==> r is Skip && r->reason@
                == decision_spec(*self, *foreground)->Some_0,
    {
        let bundle: &str = match &foreground.bundle_id {
            Some(b) => b.as_str(),
            None => "",
        };
        proof {
            reveal_strlit("");
            assert(bundle@ == bundle_text(*foreground));
        }
        if matches_any(foreground.app_name.as_str(), bundle, &self.allow_override) {
            return CaptureDecision::Allow;
        }
        if matches_any(foreground.app_name.as_str(), bundle, &self.deny_apps) {
            return CaptureDecision::Skip { reason: String::from_str("privacy: denied foreground app") };
        }
        let private = match foreground.browser_private_window {
            Some(v) => v,
            None => false,
        };
        if self.deny_browser_private_windows && private {
            return CaptureDecision::Skip { reason: String::from_str("privacy: browser private window") };
        }
        CaptureDecision::Allow
    }
}

/// Index of the first line feed of `s` at or after `from`, or the length of `s`.
pub open spec fn line_end(s: Seq<char>, from: int) -> int
    decreases s.len() - from,
{
    if from >= s.len() {
        s.len() as int
    } else if s[from] == '\n' {
        from
    } else {
        line_end(s, from + 1)
    }
}

/// Where line `k` (from zero) of `s` starts.
pub open spec fn line_start(s: Seq<char>, k: nat) -> int
    decreases k,
{
    if k == 0 {
        0
    } else {
        line_end(s, line_start(s, (k - 1) as nat)) + 1
    }
}

/// Line `k` of `s` without its line feed, if `s` has that many lines.
pub open spec fn line_of(s: Seq<char>, k: nat) -> Option<Seq<char>> {
    let a = line_start(s, k);
    if a < s.len() {
        Some(s.subrange(a, line_end(s, a)))
    } else {
        None
    }
}

/// A trimmed line that is not empty.
pub open spec fn non_empty_trimmed(line: Option<Seq<char>>) -> Option<Seq<char>> {
    match line {
        Some(l) => if trimmed(l).len() > 0 {
            Some(trimmed(l))
        } else {
            None
        },
        None => None,
    }
}

/// The private-window flag that a browser mode names.
pub open spec fn private_mode_of(mode: Option<Seq<char>>) -> Option<bool> {
    match mode {
        Some(m) => if ascii_ci_eq(m, "incognito"@) {
            Some(true)
        } else if ascii_ci_eq(m, "normal"@) {
            Some(false)
        } else {
            None
        },
        None => None,
    }
}

proof fn lemma_line_end_bounds(s: Seq<char>, from: int)
    requires
        0 <= from,
    ensures
        from <= line_end(s, from) || from > s.len(),
        line_end(s, from) <= s.len(),
        line_end(s, from) < s.len() ==> s[line_end(s, from)] == '\n',
        forall|j: int| from <= j < line_end(s, from) ==> s[j] != '\n',
    decreases s.len() - from,
{
    if from < s.len() && s[from] != '\n' {
        lemma_line_end_bounds(s, from + 1);
    }
}

fn find_line_end(s: &str, from: usize) -> (r: usize)
    requires
        from <= s@.len(),
    ensures
        r as int == line_end(s@, from as int),
{
    let n = s.unicode_len();
    let mut i = from;
    while i < n
        invariant
            n == s@.len(),
            from <= i <= n,
            line_end(s@, from as int) == line_end(s@, i as int),
        decreases n - i,
    {
        if s.get_char(i) == '\n' {
            return i;
        }
        i = i + 1;
    }
    i
}

/// Reads the three-line report of the foreground application: its name
/// (`Unknown` when absent), its bundle identifier and the browser's window
/// mode (`incognito` or `normal`); every line is trimmed and empty lines
/// count as absent.
pub fn parse_foreground_report(report: &str) -> (r: ForegroundAppSnapshot)
    ensures
        r.app_name@ == (match line_of(report@, 0) {
            Some(l) => trimmed(l),
            None => "Unknown"@,
        }),
        r.bundle_id is Some <==> non_empty_trimmed(line_of(report@, 1)) is Some,
        r.bundle_id is Some ==> r.bundle_id->Some_0@ == non_empty_trimmed(line_of(report@, 1))->Some_0,
        r.browser_private_window == private_mode_of(non_empty_trimmed(line_of(report@, 2))),
{
    let n = report.unicode_len();
    let mut lines: Vec<&str> = Vec::new();
    let mut start: usize = 0;
    let mut k: usize = 0;
    let mut exhausted = n == 0;
    while k < 3 && !exhausted
        invariant
            n == report@.len(),
            k <= 3,
            lines@.len() == k,
            !exhausted ==> start as int == line_start(report@, k as nat) && start < n,
            exhausted ==> line_start(report@, k as nat) >= n,
            forall|j: int| 0 <= j < k ==> line_of(report@, j as nat) == Some(#[trigger] lines@[j]@),
        decreases 3 - k,
    {
        let end = find_line_end(report, start);
        proof {
            lemma_line_end_bounds(report@, start as int);
        }
        lines.push(report.substring_char(start, end));
        k = k + 1;
        if end < n {
            start = end + 1;
            exhausted = start >= n;
        } else {
            exhausted = true;
        }
    }
    proof {
        assert forall|j: nat| k <= j < 3 implies line_of(report@, j) is None by {
            lemma_line_start_grows(report@, k as nat, j);
        }
    }
    let app_name = if lines.len() > 0 {
        String::from_str(trim(lines[0]))
    } else {
        String::from_str("Unknown")
    };
    let bundle_id = if lines.len() > 1 {
        let t = trim(lines[1]);
        if t.unicode_len() > 0 {
            Some(String::from_str(t))
        } else {
            None
        }
    } else {
        None
    };
    let browser_private_window = if lines.len() > 2 {
        let t = trim(lines[2]);
        if t.unicode_len() == 0 {
            None
        } else if ascii_ci_matches(t, "incognito") {
            Some(true)
        } else if ascii_ci_matches(t, "normal") {
            Some(false)
        } else {
            None
        }
    } else {
        None
    };
    ForegroundAppSnapshot { app_name, bundle_id, browser_private_window }
}

proof fn lemma_line_start_grows(s: Seq<char>, k: nat, j: nat)
    requires
        k <= j,
        line_start(s, k) >= s.len(),
    ensures
        line_start(s, j) >= s.len(),
    decreases j - k,
{
    if k < j {
        lemma_line_start_grows(s, k, (j - 1) as nat);
        let a = line_start(s, (j - 1) as nat);
        assert(line_end(s, a) == s.len());
    }
}

} // verus!
