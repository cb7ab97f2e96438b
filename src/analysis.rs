//! Results of analysing a captured artifact, and the request and retry rules
//! of the model-backed analyzer. Sending requests is left to the caller.

use vstd::prelude::*;
use base64::Engine as _;
use crate::text::{trim, trimmed};

verus! {

/// A textual summary of one capture.
#[derive(Debug, Clone)]
pub struct AnalysisResult {
    pub summary: String,
}

/// Summarises a capture from its file metadata alone.
#[derive(Debug, Clone)]
pub struct MetadataAnalyzer;

/// Retries after a failed response or transport error, by default.
pub const DEFAULT_MAX_RETRIES: u32 = 2;

/// First retry delay, in milliseconds; it doubles with each retry.
pub const DEFAULT_RETRY_BASE_DELAY_MS: u64 = 500;

/// Delay used when doubling would overflow, in milliseconds.
pub const FALLBACK_RETRY_DELAY_MS: u64 = 30000;

/// Longest error body quoted in a message, in characters.
pub const MAX_ERROR_BODY_CHARS: usize = 500;

/// The standard base64 alphabet.
pub open spec fn base64_alphabet() -> Seq<char> {
    "ABCDEFGHIJKLMNOPQRSTUVWXYZabcdefghijklmnopqrstuvwxyz0123456789+/"@
}

/// The character for six bits.
pub open spec fn base64_digit(v: int) -> char {
    base64_alphabet()[v % 64]
}

/// Standard base64 with padding: each group of three bytes becomes four
/// characters, six bits each, most significant first; a final group of one or
/// two bytes is padded with `=`.
pub open spec fn base64_standard(b: Seq<u8>) -> Seq<char>
    decreases b.len(),
{
    if b.len() == 0 {
        Seq::empty()
    } else {
        let n = b[0] as int * 65536 + (if b.len() > 1 {
            b[1] as int * 256
        } else {
            0
        }) + (if b.len() > 2 {
            b[2] as int
        } else {
            0
        });
        let head = seq![
            base64_digit(n / 262144),
            base64_digit(n / 4096),
            if b.len() > 1 {
                base64_digit(n / 64)
            } else {
                '='
            },
            if b.len() > 2 {
                base64_digit(n)
            } else {
                '='
            },
        ];
        if b.len() > 3 {
            head + base64_standard(b.subrange(3, b.len() as int))
        } else {
            head
        }
    }
}

#[verifier::external_body]
fn encode_base64(bytes: &[u8]) -> (r: String)
    requires
        4 * ((bytes@.len() + 2) / 3) <= usize::MAX,
    ensures
        r@ == base64_standard(bytes@),
{
    base64::engine::general_purpose::STANDARD.encode(bytes)
}

/// The data URL of a PNG image, or `None` when its encoding would not fit in memory.
pub fn image_data_url(png: &[u8]) -> (r: Option<String>)
    ensures
        r is Some <==> 4 * ((png@.len() + 2) / 3) <= usize::MAX,
        r is Some ==> r->Some_0@ == "data:image/png;base64,"@ + base64_standard(png@),
{
    let needed: u128 = 4 * ((png.len() as u128 + 2) / 3);
    if needed > usize::MAX as u128 {
        return None;
    }
    let mut s = String::from_str("data:image/png;base64,");
    let encoded = encode_base64(png);
    s.append(encoded.as_str());
    Some(s)
}

/// The text without its trailing `/` characters.
pub open spec fn strip_trailing_slashes(s: Seq<char>) -> Seq<char>
    decreases s.len(),
{
    if s.len() > 0 && s.last() == '/' {
        strip_trailing_slashes(s.drop_last())
    } else {
        s
    }
}

/// The responses endpoint under an API base URL.
pub fn responses_endpoint(api_base_url: &str) -> (r: String)
    ensures
        r@ == strip_trailing_slashes(api_base_url@) + "/v1/responses"@,
{
    let mut end = api_base_url.unicode_len();
    assert(api_base_url@.subrange(0, end as int) =~= api_base_url@);
    while end > 0 && api_base_url.get_char(end - 1) == '/'
        invariant
            end <= api_base_url@.len(),
            strip_trailing_slashes(api_base_url@) == strip_trailing_slashes(
                api_base_url@.subrange(0, end as int),
            ),
        decreases end,
    {
        assert(api_base_url@.subrange(0, end as int).drop_last() =~= api_base_url@.subrange(
            0,
            end - 1,
        ));
        end = end - 1;
    }
    let mut s = String::from_str(api_base_url.substring_char(0, end));
    s.append("/v1/responses");
    s
}

/// A status worth retrying: too many requests, request timeout, conflict, or a server error.
pub open spec fn retryable_status(status: u16) -> bool {
    status == 429 || status == 408 || status == 409 || (500 <= status && status <= 599)
}

/// Whether a failed response with this status may be retried.
pub fn should_retry_status(status: u16) -> (r: bool)
    ensures
        r == retryable_status(status),
{
    status == 429 || status == 408 || status == 409 || (500 <= status && status <= 599)
}

/// Two to the power `n`.
pub open spec fn pow2(n: nat) -> nat
    decreases n,
{
    if n == 0 {
        1
    } else {
        2 * pow2((n - 1) as nat)
    }
}

/// The delay before retry `attempt` (from zero): the base doubled once per
/// earlier attempt, at most 64 times the base, or the fallback on overflow.
pub open spec fn retry_delay_ms(base_ms: u64, attempt: u32) -> u64 {
    let factor = pow2(if attempt <= 6 {
        attempt as nat
    } else {
        6
    });
    if base_ms * factor <= u64::MAX {
        (base_ms * factor) as u64
    } else {
        FALLBACK_RETRY_DELAY_MS
    }
}

/// The delay before retry `attempt`, in milliseconds.
pub fn retry_delay(base_ms: u64, attempt: u32) -> (r: u64)
    ensures
        r == retry_delay_ms(base_ms, attempt),
{
    let capped: u32 = if attempt <= 6 {
        attempt
    } else {
        6
    };
    let mut factor: u64 = 1;
    let mut i: u32 = 0;
    while i < capped
        invariant
            i <= capped <= 6,
            factor as nat == pow2(i as nat),
            factor <= 64,
        decreases capped - i,
    {
        assert(pow2((i + 1) as nat) == 2 * pow2(i as nat));
        assert(pow2(i as nat) <= 32) by {
            if i == 0 {
            } else if i == 1 {
                assert(pow2(1) == 2 * pow2(0));
            } else if i == 2 {
                assert(pow2(2) == 2 * pow2(1));
                assert(pow2(1) == 2 * pow2(0));
            } else if i == 3 {
                assert(pow2(3) == 2 * pow2(2));
                assert(pow2(2) == 2 * pow2(1));
                assert(pow2(1) == 2 * pow2(0));
            } else if i == 4 {
                assert(pow2(4) == 2 * pow2(3));
                assert(pow2(3) == 2 * pow2(2));
                assert(pow2(2) == 2 * pow2(1));
                assert(pow2(1) == 2 * pow2(0));
            } else {
                assert(pow2(5) == 2 * pow2(4));
                assert(pow2(4) == 2 * pow2(3));
                assert(pow2(3) == 2 * pow2(2));
                assert(pow2(2) == 2 * pow2(1));
                assert(pow2(1) == 2 * pow2(0));
            }
        }
        factor = factor * 2;
        i = i + 1;
    }
    match base_ms.checked_mul(factor) {
        Some(d) => d,
        None => FALLBACK_RETRY_DELAY_MS,
    }
}

/// What to do with a response from the model.
#[derive(Debug, Clone, Copy, PartialEq, Eq, Structural)]
pub enum ResponseAction {
    /// Success: read the summary from the body.
    Accept,
    /// Wait this many milliseconds, then send the request again.
    RetryAfter { delay_ms: u64 },
    /// Give up and report the error.
    Fail,
}

/// Decides on a response with `status` after `attempt` earlier retries.
pub fn on_response(status: u16, attempt: u32, max_retries: u32, base_delay_ms: u64) -> (r:
    ResponseAction)
    ensures
        200 <= status <= 299 ==> r == ResponseAction::Accept,
        !(200 <= status <= 299) && retryable_status(status) && attempt < max_retries ==> r
            == (ResponseAction::RetryAfter { delay_ms: retry_delay_ms(base_delay_ms, attempt) }),
        !(200 <= status <= 299) && !(retryable_status(status) && attempt < max_retries) ==> r
            == ResponseAction::Fail,
{
    if 200 <= status && status <= 299 {
        ResponseAction::Accept
    } else if should_retry_status(status) && attempt < max_retries {
        ResponseAction::RetryAfter { delay_ms: retry_delay(base_delay_ms, attempt) }
    } else {
        ResponseAction::Fail
    }
}

/// Decides on a transport error (`retryable` for a timeout or a failed
/// connection) after `attempt` earlier retries: the delay before retrying, or
/// `None` to give up.
pub fn on_transport_error(retryable: bool, attempt: u32, max_retries: u32, base_delay_ms: u64) -> (r:
    Option<u64>)
    ensures
        r == (if retryable && attempt < max_retries {
            Some(retry_delay_ms(base_delay_ms, attempt))
        } else {
            None::<u64>
        }),
{
    if retryable && attempt < max_retries {
        Some(retry_delay(base_delay_ms, attempt))
    } else {
        None
    }
}

/// Bytes that UTF-8 takes for one character.
pub open spec fn utf8_width(c: char) -> nat {
    let v = c as u32;
    if v < 0x80 {
        1
    } else if v < 0x800 {
        2
    } else if v < 0x10000 {
        3
    } else {
        4
    }
}

/// Bytes that UTF-8 takes for a text.
pub open spec fn utf8_len(s: Seq<char>) -> nat
    decreases s.len(),
{
    if s.len() == 0 {
        0
    } else {
        utf8_len(s.drop_last()) + utf8_width(s.last())
    }
}

/// How many leading characters of `s`, counting from `k`, fit in `limit` bytes.
pub open spec fn fitting_chars(s: Seq<char>, k: int, limit: nat) -> int
    decreases s.len() - k,
{
    if 0 <= k < s.len() && utf8_len(s.subrange(0, k + 1)) <= limit {
        fitting_chars(s, k + 1, limit)
    } else {
        k
    }
}

/// An error body as quoted in a message: trimmed; when its UTF-8 form is
/// longer than `limit` bytes, cut to its first `limit` bytes (to the last
/// character boundary before them when `limit` falls inside a character)
/// followed by `...`; a placeholder when empty.
pub open spec fn quoted_body(body: Seq<char>, limit: usize) -> Seq<char> {
    let t = trimmed(body);
    if utf8_len(t) > limit {
        t.subrange(0, fitting_chars(t, 0, limit as nat)) + "..."@
    } else if t.len() == 0 {
        "<empty response body>"@
    } else {
        t
    }
}

fn utf8_width_of(c: char) -> (w: usize)
    ensures
        w as nat == utf8_width(c),
{
    let v = c as u32;
    if v < 0x80 {
        1
    } else if v < 0x800 {
        2
    } else if v < 0x10000 {
        3
    } else {
        4
    }
}

proof fn lemma_utf8_len_prefix(s: Seq<char>, j: int)
    requires
        0 <= j <= s.len(),
    ensures
        utf8_len(s.subrange(0, j)) <= utf8_len(s),
    decreases s.len(),
{
    if j < s.len() {
        assert(s.drop_last().subrange(0, j) =~= s.subrange(0, j));
        lemma_utf8_len_prefix(s.drop_last(), j);
    } else {
        assert(s.subrange(0, j) =~= s);
    }
}

/// Quotes an error body for a message.
pub fn truncate_error_body(body: &str, limit: usize) -> (r: String)
    ensures
        r@ == quoted_body(body@, limit),
{
    let t = trim(body);
    let n = t.unicode_len();
    let mut k: usize = 0;
    let mut used: usize = 0;
    while k < n
        invariant
            n == t@.len(),
            k <= n,
            used as nat == utf8_len(t@.subrange(0, k as int)),
            used <= limit,
            fitting_chars(t@, 0, limit as nat) == fitting_chars(t@, k as int, limit as nat),
        ensures
            n == t@.len(),
            k <= n,
            used as nat == utf8_len(t@.subrange(0, k as int)),
            fitting_chars(t@, 0, limit as nat) == fitting_chars(t@, k as int, limit as nat),
            k < n ==> utf8_len(t@.subrange(0, k + 1)) > limit,
        decreases n - k,
    {
        let w = utf8_width_of(t.get_char(k));
        assert(t@.subrange(0, k + 1).drop_last() =~= t@.subrange(0, k as int));
        if w > limit - used {
            break;
        }
        used = used + w;
        k = k + 1;
    }
    if k < n {
        proof {
            assert(t@.subrange(0, k + 1).drop_last() =~= t@.subrange(0, k as int));
            lemma_utf8_len_prefix(t@, k + 1);
        }
        let mut s = String::from_str(t.substring_char(0, k));
        s.append("...");
        s
    } else {
        assert(t@.subrange(0, n as int) =~= t@);
        if n == 0 {
            String::from_str("<empty response body>")
        } else {
            String::from_str(t)
        }
    }
}

} // verus!
