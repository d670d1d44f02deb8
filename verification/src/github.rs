//! The GitHub OAuth device flow: reading the flat JSON replies of the
//! device-code and token endpoints, and deciding what to do after each
//! poll of the token endpoint.
use vstd::prelude::*;
use crate::text::{
    find, find_char, find_char_from, find_from, is_ascii_digit, ascii_digit, opt_view,
    string_of_range, to_chars, trim_start_pos, trimmed, trimmed_start, trim_end_len,
};

verus! {

broadcast use vstd::string::group_string_axioms;

/// `"key"`: the key in double quotes, as it stands in the JSON text.
pub open spec fn quoted(key: Seq<char>) -> Seq<char> {
    seq!['"'] + key + seq!['"']
}

/// The text after the first `:` that follows the first occurrence of
/// `"key"`, with leading white space removed.
pub open spec fn value_text(json: Seq<char>, key: Seq<char>) -> Option<Seq<char>> {
    let needle = quoted(key);
    match find_from(json, needle, 0) {
        None => None,
        Some(i) => {
            let rest = json.skip(i + needle.len());
            match find_char_from(rest, ':', 0) {
                None => None,
                Some(c) => Some(trimmed_start(rest.skip(c + 1))),
            }
        },
    }
}

/// The string value of `key`: the characters between the opening quote
/// that must start the value and the next quote.
pub open spec fn spec_json_str(json: Seq<char>, key: Seq<char>) -> Option<Seq<char>> {
    match value_text(json, key) {
        None => None,
        Some(after) => if after.len() > 0 && after[0] == '"' {
            let body = after.skip(1);
            match find_char_from(body, '"', 0) {
                None => None,
                Some(e) => Some(body.take(e)),
            }
        } else {
            None
        },
    }
}

/// Length of the run of ASCII digits that starts `s` at `i`.
pub open spec fn digit_run_end(s: Seq<char>, i: int) -> int
    decreases s.len() - i,
{
    if i < 0 || i >= s.len() || !ascii_digit(s[i]) {
        i
    } else {
        digit_run_end(s, i + 1)
    }
}

/// The number written by a string of decimal digits.
pub open spec fn digits_value(s: Seq<char>) -> nat
    decreases s.len(),
{
    if s.len() == 0 {
        0
    } else {
        digits_value(s.drop_last()) * 10 + ((s.last() as u32) - ('0' as u32)) as nat
    }
}

/// The number value of `key`: the leading run of ASCII digits of its value,
/// when it is not empty and fits in a `u64`.
pub open spec fn spec_json_num(json: Seq<char>, key: Seq<char>) -> Option<u64> {
    match value_text(json, key) {
        None => None,
        Some(after) => {
            let digits = after.take(digit_run_end(after, 0));
            if digits.len() > 0 && digits_value(digits) <= u64::MAX {
                Some(digits_value(digits) as u64)
            } else {
                None
            }
        },
    }
}

/// The needle `"key"` and the position in `v` just after the first
/// `:` that follows it, past white space.
fn value_start(v: &Vec<char>, key: &str) -> (r: Option<usize>)
    ensures
        match r {
            Some(p) => p <= v.len() && value_text(v@, key@) == Some(v@.skip(p as int)),
            None => value_text(v@, key@) is None,
        },
{
    let k = to_chars(key);
    let mut needle: Vec<char> = Vec::new();
    needle.push('"');
    let mut j: usize = 0;
    while j < k.len()
        invariant
            j <= k.len(),
            needle@ == seq!['"'] + k@.take(j as int),
        decreases k.len() - j,
    {
        needle.push(k[j]);
        j += 1;
        assert(needle@ =~= seq!['"'] + k@.take(j as int));
    }
    needle.push('"');
    assert(k@.take(k.len() as int) == k@);
    assert(needle@ =~= quoted(key@));
    let start = match find(v, &needle, 0) {
        None => {
            return None;
        },
        Some(i) => i,
    };
    proof {
        crate::text::lemma_find_from_sound(v@, needle@, 0);
        assert(find_from(v@, needle@, 0) == Some(start as int));
        assert(crate::text::occurs_at(v@, needle@, start as int));
        assert(start + needle@.len() <= v@.len());
    }
    assert(start + needle.len() <= v.len());
    let rest_start = start + needle.len();
    let ghost rest = v@.skip(rest_start as int);
    let colon = match find_char(v, ':', rest_start) {
        None => {
            proof {
                lemma_find_char_shift(v@, ':', rest_start as int);
            }
            return None;
        },
        Some(c) => c,
    };
    proof {
        lemma_find_char_shift(v@, ':', rest_start as int);
        crate::text::lemma_find_char_from_sound(v@, ':', rest_start as int);
        assert(find_char_from(v@, ':', rest_start as int) == Some(colon as int));
        assert(colon < v.len());
        assert(rest.skip(colon - rest_start + 1) =~= v@.skip(colon + 1));
    }
    let p = trim_start_pos(v, colon + 1);
    Some(p)
}

/// Finding a character in a suffix is finding it in the whole sequence from
/// the suffix's start.
pub proof fn lemma_find_char_shift(s: Seq<char>, c: char, base: int)
    requires
        0 <= base <= s.len(),
    ensures
        match find_char_from(s.skip(base), c, 0) {
            Some(k) => find_char_from(s, c, base) == Some(k + base),
            None => find_char_from(s, c, base) is None,
        },
{
    lemma_find_char_shift_from(s, c, base, 0);
}

proof fn lemma_find_char_shift_from(s: Seq<char>, c: char, base: int, j: int)
    requires
        0 <= base <= s.len(),
        0 <= j,
    ensures
        match find_char_from(s.skip(base), c, j) {
            Some(k) => find_char_from(s, c, base + j) == Some(k + base),
            None => find_char_from(s, c, base + j) is None,
        },
    decreases s.len() - base - j,
{
    if j < s.len() - base {
        assert(s.skip(base)[j] == s[base + j]);
        if s[base + j] != c {
            lemma_find_char_shift_from(s, c, base, j + 1);
        }
    }
}

/// Tiny JSON string-value extractor for flat objects with plain keys: the
/// value of the first `"key"` when it is a string without escaped quotes.
pub fn json_str(json: &str, key: &str) -> (r: Option<String>)
    ensures
        opt_view(r) == spec_json_str(json@, key@),
{
    let v = to_chars(json);
    let p = match value_start(&v, key) {
        None => {
            return None;
        },
        Some(p) => p,
    };
    if p >= v.len() || v[p] != '"' {
        return None;
    }
    let ghost body = v@.skip(p + 1);
    match find_char(&v, '"', p + 1) {
        None => {
            proof {
                lemma_find_char_shift(v@, '"', p + 1);
                assert(v@.skip(p as int).skip(1) =~= body);
            }
            None
        },
        Some(e) => {
            proof {
                lemma_find_char_shift(v@, '"', p + 1);
                crate::text::lemma_find_char_from_sound(v@, '"', p + 1);
                assert(v@.skip(p as int).skip(1) =~= body);
                assert(v@.subrange(p + 1, e as int) =~= body.take(e - p - 1));
            }
            Some(string_of_range(&v, p + 1, e))
        },
    }
}

/// The leading decimal number of the value of the first `"key"`.
pub fn json_num(json: &str, key: &str) -> (r: Option<u64>)
    ensures
        r == spec_json_num(json@, key@),
{
    let v = to_chars(json);
    let p = match value_start(&v, key) {
        None => {
            return None;
        },
        Some(p) => p,
    };
    let ghost after = v@.skip(p as int);
    let mut i = p;
    let mut acc: u64 = 0;
    let mut overflow = false;
    while i < v.len() && is_ascii_digit(v[i])
        invariant
            p <= i <= v.len(),
            after == v@.skip(p as int),
            digit_run_end(after, 0) == digit_run_end(after, i - p),
            forall|k: int| 0 <= k < i - p ==> ascii_digit(#[trigger] after[k]),
            !overflow ==> acc == digits_value(after.take(i - p)),
            overflow ==> digits_value(after.take(i - p)) > u64::MAX,
        decreases v.len() - i,
    {
        let d = (v[i] as u32 - '0' as u32) as u64;
        assert(after.take(i + 1 - p).drop_last() =~= after.take(i - p));
        assert(after.take(i + 1 - p).last() == v@[i as int]);
        if !overflow {
            if acc > (u64::MAX - d) / 10 {
                overflow = true;
                assert(acc * 10 + d > u64::MAX) by (nonlinear_arith)
                    requires
                        acc > (u64::MAX - d) / 10,
                        d <= 9,
                ;
            } else {
                assert(acc * 10 + d <= u64::MAX) by (nonlinear_arith)
                    requires
                        acc <= (u64::MAX - d) / 10,
                        d <= 9,
                ;
                acc = acc * 10 + d;
            }
        } else {
            assert(digits_value(after.take(i + 1 - p)) >= digits_value(after.take(i - p)) * 10);
            assert(digits_value(after.take(i - p)) * 10 > u64::MAX) by (nonlinear_arith)
                requires
                    digits_value(after.take(i - p)) > u64::MAX,
            ;
        }
        i += 1;
    }
    assert(digit_run_end(after, i - p) == i - p);
    if i == p || overflow {
        None
    } else {
        Some(acc)
    }
}

/// What the device-code endpoint grants.
pub struct DeviceCode {
    pub device_code: String,
    pub user_code: String,
    pub verification_uri: String,
    /// Seconds to wait between polls.
    pub interval: u64,
    /// Seconds until the code expires.
    pub expires_in: u64,
}

/// Reading the device-code reply: the three codes must be present; the
/// poll interval defaults to 5 s and the lifetime to 900 s. The error names
/// the first missing field.
pub fn parse_device_code(json: &str) -> (r: Result<DeviceCode, String>)
    ensures
        match r {
            Ok(d) => {
                &&& spec_json_str(json@, "device_code"@) == Some(d.device_code@)
                &&& spec_json_str(json@, "user_code"@) == Some(d.user_code@)
                &&& spec_json_str(json@, "verification_uri"@) == Some(d.verification_uri@)
                &&& d.interval == (match spec_json_num(json@, "interval"@) {
                    Some(n) => n,
                    None => 5,
                })
                &&& d.expires_in == (match spec_json_num(json@, "expires_in"@) {
                    Some(n) => n,
                    None => 900,
                })
            },
            Err(e) => {
                ||| spec_json_str(json@, "device_code"@) is None && e@ == "missing device_code"@
                ||| spec_json_str(json@, "device_code"@) is Some && spec_json_str(
                    json@,
                    "user_code"@,
                ) is None && e@ == "missing user_code"@
                ||| spec_json_str(json@, "device_code"@) is Some && spec_json_str(
                    json@,
                    "user_code"@,
                ) is Some && spec_json_str(json@, "verification_uri"@) is None && e@
                    == "missing verification_uri"@
            },
        },
        r is Ok <==> (spec_json_str(json@, "device_code"@) is Some && spec_json_str(
            json@,
            "user_code"@,
        ) is Some && spec_json_str(json@, "verification_uri"@) is Some),
{
    let device_code = match json_str(json, "device_code") {
        Some(s) => s,
        None => {
            return Err("missing device_code".to_string());
        },
    };
    let user_code = match json_str(json, "user_code") {
        Some(s) => s,
        None => {
            return Err("missing user_code".to_string());
        },
    };
    let verification_uri = match json_str(json, "verification_uri") {
        Some(s) => s,
        None => {
            return Err("missing verification_uri".to_string());
        },
    };
    let interval = match json_num(json, "interval") {
        Some(n) => n,
        None => 5,
    };
    let expires_in = match json_num(json, "expires_in") {
        Some(n) => n,
        None => 900,
    };
    Ok(DeviceCode { device_code, user_code, verification_uri, interval, expires_in })
}

/// What to do after one poll of the token endpoint.
pub enum PollOutcome {
    /// Authorized: the access token.
    Token(String),
    /// Not yet: poll again after this many seconds.
    Wait(u64),
    /// Give up with this message.
    Fail(String),
}

pub enum PollOutcomeView {
    Token(Seq<char>),
    Wait(u64),
    Fail(Seq<char>),
}

impl View for PollOutcome {
    type V = PollOutcomeView;

    open spec fn view(&self) -> PollOutcomeView {
        match self {
            PollOutcome::Token(s) => PollOutcomeView::Token(s@),
            PollOutcome::Wait(n) => PollOutcomeView::Wait(*n),
            PollOutcome::Fail(s) => PollOutcomeView::Fail(s@),
        }
    }
}

/// The decision after a poll reply: an access token ends the flow;
/// `authorization_pending` keeps the wait, `slow_down` lengthens it by
/// five seconds; any other error, or a reply with neither field, fails.
pub open spec fn spec_poll_outcome(json: Seq<char>, wait: u64) -> PollOutcomeView {
    match spec_json_str(json, "access_token"@) {
        Some(t) => PollOutcomeView::Token(t),
        None => match spec_json_str(json, "error"@) {
            Some(e) => if e == "authorization_pending"@ {
                PollOutcomeView::Wait(wait)
            } else if e == "slow_down"@ {
                PollOutcomeView::Wait((wait + 5) as u64)
            } else if e == "expired_token"@ {
                PollOutcomeView::Fail("device code expired"@)
            } else if e == "access_denied"@ {
                PollOutcomeView::Fail("authorization denied"@)
            } else {
                PollOutcomeView::Fail("oauth error: "@ + e)
            },
            None => PollOutcomeView::Fail("unexpected response: "@ + trimmed(json)),
        },
    }
}

/// Whether the reply asks to slow down (the only case where the wait grows).
pub open spec fn asks_slow_down(json: Seq<char>) -> bool {
    spec_json_str(json, "access_token"@) is None && spec_json_str(json, "error"@) == Some(
        "slow_down"@,
    )
}

/// The decision after one poll of the token endpoint, given the current
/// wait between polls in seconds.
pub fn poll_outcome(json: &str, wait: u64) -> (r: PollOutcome)
    requires
        asks_slow_down(json@) ==> wait + 5 <= u64::MAX,
    ensures
        r@ == spec_poll_outcome(json@, wait),
{
    if let Some(token) = json_str(json, "access_token") {
        return PollOutcome::Token(token);
    }
    match json_str(json, "error") {
        Some(e) => {
            if crate::text::same_text(e.as_str(), "authorization_pending") {
                PollOutcome::Wait(wait)
            } else if crate::text::same_text(e.as_str(), "slow_down") {
                PollOutcome::Wait(wait + 5)
            } else if crate::text::same_text(e.as_str(), "expired_token") {
                PollOutcome::Fail("device code expired".to_string())
            } else if crate::text::same_text(e.as_str(), "access_denied") {
                PollOutcome::Fail("authorization denied".to_string())
            } else {
                PollOutcome::Fail(crate::text::concat("oauth error: ", e.as_str()))
            }
        },
        None => {
            let t = crate::text::trim(json);
            PollOutcome::Fail(crate::text::concat("unexpected response: ", t.as_str()))
        },
    }
}

/// The first wait between polls: the granted interval, at least one second.
pub fn first_wait(interval: u64) -> (w: u64)
    ensures
        w == if interval >= 1 {
            interval
        } else {
            1
        },
{
    if interval >= 1 {
        interval
    } else {
        1
    }
}

proof fn lemma_find_char_at(s: Seq<char>, c: char, j: int, n: int)
    requires
        0 <= j <= n < s.len(),
        s[n] == c,
        forall|k: int| j <= k < n ==> s[k] != c,
    ensures
        find_char_from(s, c, j) == Some(n),
    decreases n - j,
{
    if j < n {
        lemma_find_char_at(s, c, j + 1, n);
    }
}

/// A one-field JSON object `{"key":"value"}`.
pub open spec fn one_field_object(key: Seq<char>, value: Seq<char>) -> Seq<char> {
    seq!['{'] + quoted(key) + seq![':'] + quoted(value) + seq!['}']
}

/// Law: the string value of a key is read back from a one-field object,
/// for any value without a double quote.
pub proof fn law_json_str_reads_field(key: Seq<char>, value: Seq<char>)
    requires
        !value.contains('"'),
    ensures
        spec_json_str(one_field_object(key, value), key) == Some(value),
{
    let j = one_field_object(key, value);
    let needle = quoted(key);
    assert(!crate::text::occurs_at(j, needle, 0)) by {
        if crate::text::occurs_at(j, needle, 0) {
            assert(j.subrange(0, needle.len() as int)[0] == needle[0]);
        }
    }
    assert(j.subrange(1, 1 + needle.len() as int) =~= needle);
    assert(crate::text::occurs_at(j, needle, 1));
    assert(find_from(j, needle, 1) == Some(1int));
    assert(find_from(j, needle, 0) == Some(1int));
    let rest = j.skip(1 + needle.len() as int);
    assert(rest =~= seq![':'] + quoted(value) + seq!['}']);
    assert(find_char_from(rest, ':', 0) == Some(0int));
    let tail = rest.skip(1);
    assert(tail =~= quoted(value) + seq!['}']);
    assert(!crate::text::white_space(tail[0])) by {
        assert(tail[0] == '"');
        assert(('"' as u32) == 34);
    }
    assert(trimmed_start(tail) == tail);
    let body = tail.skip(1);
    assert(body =~= value + seq!['"', '}']);
    assert forall|k: int| 0 <= k < value.len() implies body[k] != '"' by {
        assert(body[k] == value[k]);
        if value[k] == '"' {
            assert(value.contains('"'));
        }
    }
    lemma_find_char_at(body, '"', 0, value.len() as int);
    assert(body.take(value.len() as int) =~= value);
}

proof fn lemma_digit_run_end_at(s: Seq<char>, j: int, m: int)
    requires
        0 <= j <= m <= s.len(),
        forall|k: int| j <= k < m ==> ascii_digit(#[trigger] s[k]),
        m < s.len() ==> !ascii_digit(s[m]),
    ensures
        digit_run_end(s, j) == m,
    decreases m - j,
{
    if j < m {
        lemma_digit_run_end_at(s, j + 1, m);
    }
}

/// A one-field JSON object whose value is the number written `digits`.
pub open spec fn one_number_object(key: Seq<char>, digits: Seq<char>) -> Seq<char> {
    seq!['{'] + quoted(key) + seq![':'] + digits + seq!['}']
}

/// Law: a number written in decimal as the value of a key is read back as
/// that number.
pub proof fn law_json_num_reads_field(key: Seq<char>, n: u64)
    ensures
        spec_json_num(one_number_object(key, crate::config::decimal(n as nat)), key) == Some(n),
{
    let dn = crate::config::decimal(n as nat);
    crate::config::law_decimal_round_trip(n as nat);
    let j = one_number_object(key, dn);
    let needle = quoted(key);
    assert(!crate::text::occurs_at(j, needle, 0)) by {
        if crate::text::occurs_at(j, needle, 0) {
            assert(j.subrange(0, needle.len() as int)[0] == needle[0]);
        }
    }
    assert(j.subrange(1, 1 + needle.len() as int) =~= needle);
    assert(crate::text::occurs_at(j, needle, 1));
    assert(find_from(j, needle, 1) == Some(1int));
    assert(find_from(j, needle, 0) == Some(1int));
    let rest = j.skip(1 + needle.len() as int);
    assert(rest =~= seq![':'] + dn + seq!['}']);
    assert(find_char_from(rest, ':', 0) == Some(0int));
    let tail = rest.skip(1);
    assert(tail =~= dn + seq!['}']);
    assert(tail[0] == dn[0]);
    assert(ascii_digit(dn[0]));
    assert(!crate::text::white_space(tail[0]));
    assert(trimmed_start(tail) == tail);
    assert forall|k: int| 0 <= k < dn.len() implies ascii_digit(#[trigger] tail[k]) by {
        assert(tail[k] == dn[k]);
    }
    assert(tail[dn.len() as int] == '}');
    assert(!ascii_digit('}'));
    lemma_digit_run_end_at(tail, 0, dn.len() as int);
    assert(tail.take(dn.len() as int) =~= dn);
}

/// Law: a reply with an access token ends the flow with that token; while
/// authorization is pending the wait stays as it was; a request to slow down
/// lengthens it by exactly five seconds; the wait between polls never
/// shrinks; an expired code or a denial ends the flow with its message.
pub proof fn law_poll_waits(json: Seq<char>, wait: u64)
    requires
        asks_slow_down(json) ==> wait + 5 <= u64::MAX,
    ensures
        spec_json_str(json, "access_token"@) matches Some(t) ==> spec_poll_outcome(json, wait)
            == PollOutcomeView::Token(t),
        spec_json_str(json, "access_token"@) is None && spec_json_str(json, "error"@) == Some(
            "authorization_pending"@,
        ) ==> spec_poll_outcome(json, wait) == PollOutcomeView::Wait(wait),
        asks_slow_down(json) ==> spec_poll_outcome(json, wait) == PollOutcomeView::Wait(
            (wait + 5) as u64,
        ),
        spec_poll_outcome(json, wait) matches PollOutcomeView::Wait(w) ==> w >= wait && (w > wait
            <==> asks_slow_down(json)),
        spec_json_str(json, "access_token"@) is None && spec_json_str(json, "error"@) == Some(
            "expired_token"@,
        ) ==> spec_poll_outcome(json, wait) == PollOutcomeView::Fail("device code expired"@),
        spec_json_str(json, "access_token"@) is None && spec_json_str(json, "error"@) == Some(
            "access_denied"@,
        ) ==> spec_poll_outcome(json, wait) == PollOutcomeView::Fail("authorization denied"@),
{
    reveal_strlit("authorization_pending");
    reveal_strlit("slow_down");
    reveal_strlit("expired_token");
    reveal_strlit("access_denied");
    assert("authorization_pending"@ != "slow_down"@) by {
        assert("authorization_pending"@.len() != "slow_down"@.len());
    }
    assert("expired_token"@ != "authorization_pending"@) by {
        assert("expired_token"@.len() != "authorization_pending"@.len());
    }
    assert("expired_token"@ != "slow_down"@) by {
        assert("expired_token"@.len() != "slow_down"@.len());
    }
    assert("access_denied"@ != "authorization_pending"@) by {
        assert("access_denied"@.len() != "authorization_pending"@.len());
    }
    assert("access_denied"@ != "slow_down"@) by {
        assert("access_denied"@.len() != "slow_down"@.len());
    }
    assert("access_denied"@ != "expired_token"@) by {
        assert("access_denied"@[0] != "expired_token"@[0]);
    }
}

} // verus!
