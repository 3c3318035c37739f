//! The sidecar protocol: a time-set request and response exchanged as
//! single datagrams of JSON text on a loopback port. The schema is tiny
//! and versionless, so the codec is written out here and verified; the
//! sockets live outside the crate. The datagram payload is the UTF-8 of
//! the strings built and parsed here, which are all ASCII.

use vstd::prelude::*;

use crate::text::{
    digit_char, digits_value, is_digit_char, leading_digit_count, lemma_dec_chars_digits,
    lemma_dec_chars_len, lemma_digits_value_of_dec, lemma_leading_digit_count, match_at,
    push_char, push_dec_u64, spec_dec_chars, spec_digit_char,
};
use crate::MAX_UNIX_US;

verus! {

/// A request to set the clock to an absolute time. The wire field is
/// named `unix_ms`; the value here is kept in microseconds and rendered
/// as milliseconds with three fraction digits.
pub struct SetTimeRequest {
    pub unix_us: i64,
}

impl SetTimeRequest {
    /// A representable target time.
    pub open spec fn wf(self) -> bool {
        0 <= self.unix_us <= MAX_UNIX_US
    }
}

/// The value of the first up-to-three fraction digits, in thousandths.
pub open spec fn frac3_value(s: Seq<char>) -> int {
    (if s.len() > 0 {
        crate::text::digit_val(s[0]) * 100
    } else {
        0
    }) + (if s.len() > 1 {
        crate::text::digit_val(s[1]) * 10
    } else {
        0
    }) + (if s.len() > 2 {
        crate::text::digit_val(s[2])
    } else {
        0
    })
}

/// Three fraction digits for a value in thousandths.
pub open spec fn spec_frac3_chars(f: int) -> Seq<char>
    recommends
        0 <= f < 1000,
{
    seq![
        spec_digit_char(f / 100),
        spec_digit_char((f / 10) % 10),
        spec_digit_char(f % 10),
    ]
}

/// Whether every character of a sequence is an ASCII digit.
pub open spec fn all_digits(s: Seq<char>) -> bool {
    forall|j: int| 0 <= j < s.len() ==> is_digit_char(#[trigger] s[j])
}

/// The milliseconds number of a request body: leading digits, optionally
/// followed by a dot and at least one fraction digit. The value is in
/// microseconds; fraction digits beyond the third are ignored. A number
/// of more than sixteen integer digits is rejected.
pub open spec fn spec_parse_number_us(t: Seq<char>) -> Option<int> {
    let k = leading_digit_count(t);
    if k == 0 || k > 16 {
        None
    } else {
        let ip = digits_value(t.take(k));
        if k == t.len() {
            Some(ip * 1000)
        } else if t[k] == '.' && t.len() > k + 1 && all_digits(t.subrange(k + 1, t.len() as int)) {
            Some(ip * 1000 + frac3_value(t.subrange(k + 1, t.len() as int)))
        } else {
            None
        }
    }
}

/// The canonical rendering of a request: the one JSON object
/// `{"unix_ms":<ms>.<three fraction digits>}`.
pub open spec fn spec_encode_request(unix_us: int) -> Seq<char> {
    "{\"unix_ms\":"@ + spec_dec_chars(unix_us / 1000) + seq!['.'] + spec_frac3_chars(
        unix_us % 1000,
    ) + seq!['}']
}

/// What a datagram parses to: the microsecond value of the one `unix_ms`
/// field, for exactly the texts of the shape
/// `{"unix_ms":<digits>[.<digits>]}` whose value is representable.
pub open spec fn spec_parse_request(s: Seq<char>) -> Option<int> {
    let p = "{\"unix_ms\":"@;
    if s.len() >= p.len() + 2 && s.take(p.len() as int) == p && s.last() == '}' {
        match spec_parse_number_us(s.subrange(p.len() as int, s.len() - 1)) {
            Some(v) => if v <= MAX_UNIX_US {
                Some(v)
            } else {
                None
            },
            None => None,
        }
    } else {
        None
    }
}

/// Renders a request as its canonical datagram text.
pub fn encode_time_set_request(req: &SetTimeRequest) -> (r: String)
    requires
        req.wf(),
    ensures
        r@ == spec_encode_request(req.unix_us as int),
{
    let mut out = String::from_str("{\"unix_ms\":");
    let total = req.unix_us as u64;
    let ms = total / 1000;
    let frac = total % 1000;
    push_dec_u64(&mut out, ms);
    push_char(&mut out, '.');
    push_char(&mut out, digit_char((frac / 100) as u8));
    push_char(&mut out, digit_char(((frac / 10) % 10) as u8));
    push_char(&mut out, digit_char((frac % 10) as u8));
    push_char(&mut out, '}');
    proof {
        assert(out@ =~= spec_encode_request(req.unix_us as int));
    }
    out
}

/// A string whose first `c` characters are digits starts with at least
/// `c` digits.
proof fn lemma_leading_digit_count_at_least(s: Seq<char>, c: int)
    requires
        0 <= c <= s.len(),
        forall|j: int| 0 <= j < c ==> is_digit_char(#[trigger] s[j]),
    ensures
        leading_digit_count(s) >= c,
    decreases s.len(),
{
    if c > 0 {
        assert(is_digit_char(s[0]));
        assert forall|j: int| 0 <= j < c - 1 implies is_digit_char(
            #[trigger] s.drop_first()[j],
        ) by {
            assert(s.drop_first()[j] == s[j + 1]);
        }
        lemma_leading_digit_count_at_least(s.drop_first(), c - 1);
    } else if s.len() > 0 {
        lemma_leading_digit_count_at_least(s.drop_first(), 0);
    }
}

/// Parses a datagram text as a time-set request. Exactly the texts of
/// the shape `{"unix_ms":<digits>[.<digits>]}` with a representable value
/// are accepted; anything else — other keys, signs, spaces, an
/// unrepresentable value — is rejected.
pub fn parse_time_set_request(s: &str) -> (r: Option<SetTimeRequest>)
    ensures
        r is Some <==> spec_parse_request(s@) is Some,
        r matches Some(q) ==> spec_parse_request(s@) == Some(q.unix_us as int) && q.wf(),
{
    proof {
        reveal_strlit("{\"unix_ms\":");
    }
    let p = "{\"unix_ms\":";
    let n = s.unicode_len();
    if n < 13 {
        return None;
    }
    // the fixed prefix
    let mut i: usize = 0;
    while i < 11
        invariant
            0 <= i <= 11,
            n == s@.len(),
            n >= 13,
            p@ == "{\"unix_ms\":"@,
            p@.len() == 11,
            forall|j: int| 0 <= j < i ==> s@[j] == p@[j],
        decreases 11 - i,
    {
        if s.get_char(i) != p.get_char(i) {
            proof {
                assert(s@.take(11)[i as int] != p@[i as int]);
            }
            return None;
        }
        i = i + 1;
    }
    proof {
        assert(s@.take(11) =~= p@);
    }
    // the closing brace
    if s.get_char(n - 1) != '}' {
        proof {
            assert(s@.last() == s@[n as int - 1]);
        }
        return None;
    }
    proof {
        assert(s@.last() == s@[n as int - 1]);
    }
    let ghost t = s@.subrange(11, n as int - 1);
    // the integer digits
    let mut ms: u64 = 0;
    let mut pos: usize = 11;
    loop
        invariant_except_break
            11 <= pos <= n - 1,
            n == s@.len(),
            n >= 13,
            "{\"unix_ms\":"@.len() == 11,
            s@.take(11) == "{\"unix_ms\":"@,
            s@.last() == '}',
            t == s@.subrange(11, n as int - 1),
            forall|j: int| 0 <= j < pos - 11 ==> is_digit_char(#[trigger] t[j]),
            ms == digits_value(t.take(pos - 11)),
            pos - 11 <= 16,
            ms < 10_000_000_000_000_000,
        ensures
            11 <= pos <= n - 1,
            n == s@.len(),
            forall|j: int| 0 <= j < pos - 11 ==> is_digit_char(#[trigger] t[j]),
            ms == digits_value(t.take(pos - 11)),
            pos - 11 <= 16,
            ms < 10_000_000_000_000_000,
            pos == n - 1 || !is_digit_char(t[pos - 11]),
        decreases n - 1 - pos,
    {
        if pos == n - 1 {
            break;
        }
        let c = s.get_char(pos);
        proof {
            assert(t[pos - 11] == s@[pos as int]);
        }
        match crate::text::char_digit(c) {
            None => {
                break;
            },
            Some(d) => {
                if pos - 11 >= 16 {
                    // a seventeenth integer digit: the number is rejected
                    proof {
                        assert(t.len() >= 17);
                        assert forall|j: int| 0 <= j < 17 implies is_digit_char(
                            #[trigger] t[j],
                        ) by {
                            if j == 16 {
                                assert(t[j] == s@[pos as int]);
                            }
                        }
                        lemma_leading_digit_count_at_least(t, 17);
                    }
                    return None;
                }
                proof {
                    let c1 = pos - 11 + 1;
                    assert(t.take(c1).drop_last() =~= t.take(pos - 11));
                    assert(t.take(c1).last() == t[pos - 11]);
                    assert forall|j: int| 0 <= j < c1 implies is_digit_char(
                        #[trigger] t.take(c1)[j],
                    ) by {
                        assert(t.take(c1)[j] == t[j]);
                        if j == pos - 11 {
                            assert(t[j] == s@[pos as int]);
                        }
                    }
                    crate::text::lemma_digits_value_bound(t.take(c1));
                    assert(crate::text::spec_pow10(16) == 10_000_000_000_000_000) by {
                        reveal_with_fuel(crate::text::spec_pow10, 18);
                    }
                    crate::text::lemma_pow10_le(c1, 16);
                }
                ms = ms * 10 + d as u64;
                pos = pos + 1;
            },
        }
    }
    let count = pos - 11;
    proof {
        lemma_leading_digit_count(t, count as int);
    }
    if count == 0 {
        return None;
    }
    // the optional fraction
    let value: u64;
    if pos == n - 1 {
        proof {
            assert(t.take(count as int) =~= t);
        }
        value = ms * 1000;
    } else {
        let c = s.get_char(pos);
        proof {
            assert(t[pos - 11] == s@[pos as int]);
        }
        if c != '.' {
            return None;
        }
        pos = pos + 1;
        if pos == n - 1 {
            // a dot with no fraction digit
            return None;
        }
        let ghost fr = t.subrange(count as int + 1, t.len() as int);
        let fr_start = pos;
        let mut f: u64 = 0;
        while pos < n - 1
            invariant
                fr_start <= pos <= n - 1,
                n == s@.len(),
                n >= 13,
                "{\"unix_ms\":"@.len() == 11,
                s@.take(11) == "{\"unix_ms\":"@,
                s@.last() == '}',
                fr_start == 11 + count + 1,
                fr_start < n - 1,
                1 <= count <= 16,
                leading_digit_count(t) == count,
                t[count as int] == '.',
                t == s@.subrange(11, n as int - 1),
                fr == t.subrange(count as int + 1, t.len() as int),
                fr.len() == n - 1 - fr_start,
                forall|j: int| 0 <= j < pos - fr_start ==> is_digit_char(#[trigger] fr[j]),
                (pos - fr_start == 0 ==> f == 0),
                (pos - fr_start == 1 ==> f == crate::text::digit_val(fr[0])),
                (pos - fr_start == 2 ==> f == crate::text::digit_val(fr[0]) * 10
                    + crate::text::digit_val(fr[1])),
                (pos - fr_start >= 3 ==> f == crate::text::digit_val(fr[0]) * 100
                    + crate::text::digit_val(fr[1]) * 10 + crate::text::digit_val(fr[2])),
                0 <= f < 1000,
            decreases n - 1 - pos,
        {
            let c2 = s.get_char(pos);
            proof {
                assert(fr[pos - fr_start] == s@[pos as int]);
            }
            match crate::text::char_digit(c2) {
                None => {
                    proof {
                        assert(!is_digit_char(fr[pos - fr_start]));
                        assert(!all_digits(fr));
                    }
                    return None;
                },
                Some(d) => {
                    if pos - fr_start < 3 {
                        f = f * 10 + d as u64;
                    }
                    pos = pos + 1;
                },
            }
        }
        let fr_len = (n - 1) - fr_start;
        if fr_len == 1 {
            f = f * 100;
        } else if fr_len == 2 {
            f = f * 10;
        }
        proof {
            assert(all_digits(fr));
            assert(f == frac3_value(fr));
        }
        value = ms * 1000 + f;
    }
    // the representable range
    if value > MAX_UNIX_US as u64 {
        return None;
    }
    Some(SetTimeRequest { unix_us: value as i64 })
}

/// Reading the canonical rendering of any representable request back
/// gives exactly that request: the codec round-trips.
#[verifier::rlimit(60)]
pub proof fn lemma_request_round_trip(unix_us: int)
    requires
        0 <= unix_us <= MAX_UNIX_US,
    ensures
        spec_parse_request(spec_encode_request(unix_us)) == Some(unix_us),
{
    let p = "{\"unix_ms\":"@;
    let ms = unix_us / 1000;
    let f = unix_us % 1000;
    let a = spec_dec_chars(ms);
    let b = seq!['.'] + spec_frac3_chars(f) + seq!['}'];
    let s = spec_encode_request(unix_us);
    lemma_dec_chars_digits(ms);
    lemma_dec_chars_len(ms);
    assert(s =~= p + a + b);
    assert(s.len() == p.len() + a.len() + 5);
    assert(s.take(p.len() as int) =~= p);
    assert(s.last() == '}');
    let t = s.subrange(p.len() as int, s.len() - 1);
    assert(t =~= a + seq!['.'] + spec_frac3_chars(f));
    let k = a.len() as int;
    assert(!is_digit_char('.'));
    lemma_leading_digit_count(t, k);
    assert(1 <= k <= 15);
    assert(t.take(k) =~= a);
    lemma_digits_value_of_dec(ms);
    assert(t[k] == '.');
    let fr = t.subrange(k + 1, t.len() as int);
    assert(fr =~= spec_frac3_chars(f));
    assert(all_digits(fr));
    assert(frac3_value(fr) == f);
    assert(spec_parse_number_us(t) == Some(ms * 1000 + f));
    assert(ms * 1000 + f == unix_us);
}

/// A character that may stand unescaped inside a JSON string: printable
/// ASCII other than the quote and the backslash.
pub open spec fn json_plain(c: char) -> bool {
    ' ' <= c <= '~' && c != '"' && c != '\\'
}

/// A text of such characters only.
pub open spec fn plain_text(s: Seq<char>) -> bool {
    forall|j: int| 0 <= j < s.len() ==> json_plain(#[trigger] s[j])
}

/// The sidecar's reply: whether the privileged write succeeded, a
/// description, and the OS error when it failed.
pub struct SetTimeResponse {
    pub success: bool,
    pub message: String,
    pub error: Option<String>,
}

impl SetTimeResponse {
    /// A response whose texts render without escaping.
    pub open spec fn wf(self) -> bool {
        &&& plain_text(self.message@)
        &&& (self.error matches Some(e) ==> plain_text(e@))
    }

    /// The response as the plain values its rendering is defined over.
    pub open spec fn view_parts(self) -> (bool, Seq<char>, Option<Seq<char>>) {
        (
            self.success,
            self.message@,
            match self.error {
                Some(e) => Some(e@),
                None => None,
            },
        )
    }
}

/// The canonical rendering of a response:
/// `{"success":<bool>,"message":"<text>"}`, with an `,"error":"<text>"`
/// member before the brace when an error is carried.
pub open spec fn spec_encode_response(
    success: bool,
    message: Seq<char>,
    error: Option<Seq<char>>,
) -> Seq<char> {
    let head = "{\"success\":"@ + (if success {
        "true"@
    } else {
        "false"@
    }) + ",\"message\":\""@ + message;
    match error {
        None => head + "\"}"@,
        Some(e) => head + "\",\"error\":\""@ + e + "\"}"@,
    }
}

/// The position of the first quote of a text, or its length if it has
/// none.
pub open spec fn quote_pos(s: Seq<char>) -> int
    decreases s.len(),
{
    if s.len() == 0 {
        0
    } else if s[0] == '"' {
        0
    } else {
        1 + quote_pos(s.drop_first())
    }
}

/// A text whose first `c` characters are not quotes, and whose character
/// `c` (if any) is one, has its first quote at exactly `c`.
proof fn lemma_quote_pos(s: Seq<char>, c: int)
    requires
        0 <= c <= s.len(),
        forall|j: int| 0 <= j < c ==> (#[trigger] s[j]) != '"',
        c < s.len() ==> s[c] == '"',
    ensures
        quote_pos(s) == c,
    decreases s.len(),
{
    if s.len() == 0 || c == 0 {
    } else {
        assert forall|j: int| 0 <= j < c - 1 implies (#[trigger] s.drop_first()[j]) != '"' by {
            assert(s.drop_first()[j] == s[j + 1]);
        }
        lemma_quote_pos(s.drop_first(), c - 1);
    }
}

/// What a datagram parses to as a response: the success flag, the
/// message text, and the error text if one is present — for exactly the
/// texts of the canonical rendering's shape.
pub open spec fn spec_parse_response(s: Seq<char>) -> Option<(bool, Seq<char>, Option<Seq<char>>)> {
    let p = "{\"success\":"@;
    if s.len() < p.len() || s.take(p.len() as int) != p {
        None
    } else {
        let rest = s.subrange(p.len() as int, s.len() as int);
        let succ: Option<bool> = if rest.len() >= 4 && rest.take(4) == "true"@ {
            Some(true)
        } else if rest.len() >= 5 && rest.take(5) == "false"@ {
            Some(false)
        } else {
            None
        };
        match succ {
            None => None,
            Some(b) => {
                let rest2 = if b {
                    rest.subrange(4, rest.len() as int)
                } else {
                    rest.subrange(5, rest.len() as int)
                };
                let q = ",\"message\":\""@;
                if rest2.len() < q.len() || rest2.take(q.len() as int) != q {
                    None
                } else {
                    let body = rest2.subrange(q.len() as int, rest2.len() as int);
                    let m = quote_pos(body);
                    if m >= body.len() {
                        None
                    } else {
                        let message = body.take(m);
                        let tail = body.subrange(m + 1, body.len() as int);
                        if tail == "}"@ {
                            Some((b, message, None))
                        } else {
                            let e = ",\"error\":\""@;
                            if tail.len() < e.len() || tail.take(e.len() as int) != e {
                                None
                            } else {
                                let body2 = tail.subrange(e.len() as int, tail.len() as int);
                                let m2 = quote_pos(body2);
                                if body2.len() >= 2 && m2 == body2.len() - 2 && body2.last()
                                    == '}' {
                                    Some((b, message, Some(body2.take(m2))))
                                } else {
                                    None
                                }
                            }
                        }
                    }
                }
            },
        }
    }
}

/// Renders a response as its canonical datagram text.
pub fn encode_time_set_response(resp: &SetTimeResponse) -> (r: String)
    requires
        resp.wf(),
    ensures
        r@ == spec_encode_response(
            resp.success,
            resp.message@,
            match resp.error {
                Some(e) => Some(e@),
                None => None,
            },
        ),
{
    let mut out = String::from_str("{\"success\":");
    if resp.success {
        out.append("true");
    } else {
        out.append("false");
    }
    out.append(",\"message\":\"");
    out.append(resp.message.as_str());
    match &resp.error {
        None => {
            out.append("\"}");
        },
        Some(e) => {
            out.append("\",\"error\":\"");
            out.append(e.as_str());
            out.append("\"}");
        },
    }
    proof {
        assert(out@ =~= spec_encode_response(
            resp.success,
            resp.message@,
            match resp.error {
                Some(e) => Some(e@),
                None => None,
            },
        ));
    }
    out
}


/// Scans to the first quote at or after `start`, building the text up to
/// it; reports the quote's position, or the text's length if none.
fn scan_to_quote(s: &str, start: usize) -> (r: (String, usize))
    requires
        start <= s@.len(),
    ensures
        start <= r.1 <= s@.len(),
        r.0@ == s@.subrange(start as int, r.1 as int),
        forall|j: int| start <= j < r.1 ==> s@[j] != '"',
        r.1 < s@.len() ==> s@[r.1 as int] == '"',
{
    let n = s.unicode_len();
    let mut j = start;
    let mut text = String::new();
    loop
        invariant_except_break
            start <= j <= n,
            n == s@.len(),
            text@ == s@.subrange(start as int, j as int),
            forall|t: int| start <= t < j ==> s@[t] != '"',
        ensures
            start <= j <= n,
            n == s@.len(),
            text@ == s@.subrange(start as int, j as int),
            forall|t: int| start <= t < j ==> s@[t] != '"',
            j == n || s@[j as int] == '"',
        decreases n - j,
    {
        if j == n {
            break;
        }
        let c = s.get_char(j);
        if c == '"' {
            break;
        }
        push_char(&mut text, c);
        proof {
            assert(s@.subrange(start as int, j as int + 1) =~= s@.subrange(
                start as int,
                j as int,
            ).push(c));
        }
        j = j + 1;
    }
    (text, j)
}

/// Parses a datagram text as a response. Exactly the texts of the
/// canonical rendering's shape are accepted; escapes, other members and
/// trailing bytes are rejected.
#[verifier::rlimit(100)]
pub fn parse_time_set_response(s: &str) -> (r: Option<SetTimeResponse>)
    ensures
        r is Some <==> spec_parse_response(s@) is Some,
        r matches Some(resp) ==> spec_parse_response(s@) == Some(resp.view_parts()),
{
    proof {
        reveal_strlit("{\"success\":");
        reveal_strlit("true");
        reveal_strlit("false");
        reveal_strlit(",\"message\":\"");
        reveal_strlit(",\"error\":\"");
        reveal_strlit("}");
    }
    let n = s.unicode_len();
    let ghost p = "{\"success\":"@;
    if !match_at(s, 0, "{\"success\":") {
        proof {
            if s@.len() >= p.len() {
                assert(s@.take(p.len() as int) =~= s@.subrange(0, p.len() as int));
            }
        }
        return None;
    }
    proof {
        assert(s@.take(p.len() as int) =~= s@.subrange(0, p.len() as int));
    }
    let ghost rest = s@.subrange(11, n as int);
    let success: bool;
    let q_start: usize;
    if match_at(s, 11, "true") {
        success = true;
        q_start = 15;
        proof {
            assert(rest.take(4) =~= s@.subrange(11, 15));
        }
    } else if match_at(s, 11, "false") {
        success = false;
        q_start = 16;
        proof {
            assert(rest.len() < 4 || rest.take(4) =~= s@.subrange(11, 15));
            assert(rest.len() < 5 || rest.take(5) =~= s@.subrange(11, 16));
        }
    } else {
        proof {
            assert(rest.len() < 4 || rest.take(4) =~= s@.subrange(11, 15));
            assert(rest.len() < 5 || rest.take(5) =~= s@.subrange(11, 16));
        }
        return None;
    }
    let ghost rest2 = s@.subrange(q_start as int, n as int);
    proof {
        if success {
            assert(rest2 =~= rest.subrange(4, rest.len() as int));
        } else {
            assert(rest2 =~= rest.subrange(5, rest.len() as int));
        }
    }
    if !match_at(s, q_start, ",\"message\":\"") {
        proof {
            if rest2.len() >= 12 {
                assert(rest2.take(12) =~= s@.subrange(q_start as int, q_start as int + 12));
            }
        }
        return None;
    }
    proof {
        assert(rest2.take(12) =~= s@.subrange(q_start as int, q_start as int + 12));
    }
    let body_start = q_start + 12;
    let ghost body = rest2.subrange(12, rest2.len() as int);
    proof {
        assert(body =~= s@.subrange(body_start as int, n as int));
    }
    let (message, mq) = scan_to_quote(s, body_start);
    proof {
        assert forall|j: int| 0 <= j < mq - body_start implies (#[trigger] body[j]) != '"' by {
            assert(body[j] == s@[body_start + j]);
        }
        if mq < n {
            assert(body[mq - body_start] == s@[mq as int]);
        }
        lemma_quote_pos(body, mq - body_start);
        assert(message@ =~= body.take(mq - body_start));
    }
    if mq == n {
        return None;
    }
    let tail_start = mq + 1;
    let ghost tail = body.subrange(mq - body_start + 1, body.len() as int);
    proof {
        assert(tail =~= s@.subrange(tail_start as int, n as int));
    }
    // the closing form without an error member
    if n - tail_start == 1 && s.get_char(tail_start) == '}' {
        proof {
            assert(tail =~= "}"@);
        }
        return Some(SetTimeResponse { success, message, error: None });
    }
    proof {
        // past this point the bare closing form is ruled out
        assert("}"@.len() == 1);
        if tail == "}"@ {
            assert(tail.len() == 1 && tail[0] == '}');
            assert(s@[tail_start as int] == '}');
        }
    }
    // the closing form with an error member
    if !match_at(s, tail_start, ",\"error\":\"") {
        proof {
            if tail.len() >= 10 {
                assert(tail.take(10) =~= s@.subrange(tail_start as int, tail_start as int + 10));
            }
        }
        return None;
    }
    proof {
        assert(tail.take(10) =~= s@.subrange(tail_start as int, tail_start as int + 10));
    }
    let err_start = tail_start + 10;
    let ghost body2 = tail.subrange(10, tail.len() as int);
    proof {
        assert(body2 =~= s@.subrange(err_start as int, n as int));
    }
    let (error_text, eq) = scan_to_quote(s, err_start);
    proof {
        assert forall|j: int| 0 <= j < eq - err_start implies (#[trigger] body2[j]) != '"' by {
            assert(body2[j] == s@[err_start + j]);
        }
        if eq < n {
            assert(body2[eq - err_start] == s@[eq as int]);
        }
        lemma_quote_pos(body2, eq - err_start);
        assert(error_text@ =~= body2.take(eq - err_start));
    }
    if eq == n {
        return None;
    }
    if n - eq == 2 && s.get_char(n - 1) == '}' {
        proof {
            assert(body2.last() == s@[n as int - 1]);
        }
        return Some(SetTimeResponse { success, message, error: Some(error_text) });
    }
    proof {
        if body2.len() >= 2 && quote_pos(body2) == body2.len() - 2 && body2.last() == '}' {
            assert(eq - err_start == body2.len() - 2);
            assert(eq + 2 == n);
            assert(s@[n as int - 1] == body2.last());
        }
    }
    None
}

/// Reading the canonical rendering of any well-formed response back gives
/// exactly that response: the codec round-trips.
#[verifier::rlimit(100)]
pub proof fn lemma_response_round_trip(
    success: bool,
    message: Seq<char>,
    error: Option<Seq<char>>,
)
    requires
        forall|j: int| 0 <= j < message.len() ==> json_plain(#[trigger] message[j]),
        error matches Some(e) ==> forall|j: int| 0 <= j < e.len() ==> json_plain(#[trigger] e[j]),
    ensures
        spec_parse_response(spec_encode_response(success, message, error)) == Some(
            (success, message, error),
        ),
{
    reveal_strlit("{\"success\":");
    reveal_strlit("true");
    reveal_strlit("false");
    reveal_strlit(",\"message\":\"");
    reveal_strlit("\"}");
    reveal_strlit("\",\"error\":\"");
    reveal_strlit(",\"error\":\"");
    reveal_strlit("}");
    let p = "{\"success\":"@;
    let b = if success {
        "true"@
    } else {
        "false"@
    };
    let q = ",\"message\":\""@;
    let s = spec_encode_response(success, message, error);
    let t_none = "\"}"@;
    match error {
        None => {
            assert(s =~= p + b + q + message + t_none);
        },
        Some(e) => {
            assert(s =~= p + b + q + message + "\",\"error\":\""@ + e + t_none);
        },
    }
    assert(s.take(p.len() as int) =~= p);
    let rest = s.subrange(p.len() as int, s.len() as int);
    if success {
        assert(rest.take(4) =~= "true"@);
    } else {
        assert(rest.take(5) =~= "false"@);
        assert(rest.take(4)[0] == 'f');
        assert("true"@[0] == 't');
        assert(rest.len() < 4 || rest.take(4) != "true"@);
    }
    let rest2 = if success {
        rest.subrange(4, rest.len() as int)
    } else {
        rest.subrange(5, rest.len() as int)
    };
    match error {
        None => {
            assert(rest2 =~= q + message + t_none);
        },
        Some(e) => {
            assert(rest2 =~= q + message + "\",\"error\":\""@ + e + t_none);
        },
    }
    assert(rest2.take(q.len() as int) =~= q);
    let body = rest2.subrange(q.len() as int, rest2.len() as int);
    match error {
        None => {
            assert(body =~= message + t_none);
            assert forall|j: int| 0 <= j < message.len() implies (#[trigger] body[j]) != '"' by {
                assert(body[j] == message[j]);
            }
            assert(body[message.len() as int] == '"');
            lemma_quote_pos(body, message.len() as int);
            assert(body.take(message.len() as int) =~= message);
            let tail = body.subrange(message.len() as int + 1, body.len() as int);
            assert(tail =~= "}"@);
        },
        Some(e) => {
            assert(body =~= message + "\",\"error\":\""@ + e + t_none);
            assert forall|j: int| 0 <= j < message.len() implies (#[trigger] body[j]) != '"' by {
                assert(body[j] == message[j]);
            }
            assert(body[message.len() as int] == '"');
            lemma_quote_pos(body, message.len() as int);
            assert(body.take(message.len() as int) =~= message);
            let tail = body.subrange(message.len() as int + 1, body.len() as int);
            assert(tail =~= ",\"error\":\""@ + e + t_none);
            assert(tail.len() >= 12);
            assert("}"@.len() == 1);
            assert(tail != "}"@);
            assert(tail.take(10) =~= ",\"error\":\""@);
            let body2 = tail.subrange(10, tail.len() as int);
            assert(body2 =~= e + t_none);
            assert forall|j: int| 0 <= j < e.len() implies (#[trigger] body2[j]) != '"' by {
                assert(body2[j] == e[j]);
            }
            assert(body2[e.len() as int] == '"');
            lemma_quote_pos(body2, e.len() as int);
            assert(body2.len() == e.len() + 2);
            assert(body2.last() == '}');
            assert(body2.take(e.len() as int) =~= e);
        },
    }
}

/// The response the service returns for a datagram it could not parse:
/// the loop answers rather than crashing, and must never exit on one bad
/// request.
pub fn response_for_parse_failure() -> (r: SetTimeResponse)
    ensures
        !r.success,
        r.message@ == "invalid request"@,
        r.error matches Some(e) && e@ == "unparseable datagram"@,
        r.wf(),
{
    let resp = SetTimeResponse {
        success: false,
        message: String::from_str("invalid request"),
        error: Some(String::from_str("unparseable datagram")),
    };
    proof {
        reveal_strlit("invalid request");
        reveal_strlit("unparseable datagram");
    }
    resp
}

/// The response the service returns after attempting the privileged
/// write: success is reported as such; failure carries the OS error
/// number.
pub fn response_for_write(ok: bool, errno: u64) -> (r: SetTimeResponse)
    ensures
        r.success == ok,
        ok ==> r.message@ == "system time set"@ && r.error is None,
        !ok ==> r.message@ == "settimeofday failed"@ && (r.error matches Some(e) && e@
            == "errno "@ + spec_dec_chars(errno as int)),
        r.wf(),
{
    proof {
        reveal_strlit("system time set");
        reveal_strlit("settimeofday failed");
        reveal_strlit("errno ");
    }
    if ok {
        SetTimeResponse {
            success: true,
            message: String::from_str("system time set"),
            error: None,
        }
    } else {
        let mut detail = String::from_str("errno ");
        push_dec_u64(&mut detail, errno);
        proof {
            lemma_dec_chars_digits(errno as int);
            assert forall|j: int| 0 <= j < detail@.len() implies json_plain(
                #[trigger] detail@[j],
            ) by {
                if j >= "errno "@.len() {
                    let c = spec_dec_chars(errno as int)[j - "errno "@.len()];
                    assert(is_digit_char(c));
                }
            }
        }
        SetTimeResponse {
            success: false,
            message: String::from_str("settimeofday failed"),
            error: Some(detail),
        }
    }
}

/// Judges the sidecar's reply on the client side: a reply reporting
/// failure surfaces the remote error text, as a remote failure.
pub fn sidecar_reply_verdict(resp: SetTimeResponse) -> (r: Result<
    String,
    (crate::setter::SidecarFailureKind, String),
>)
    ensures
        r is Ok <==> resp.success,
        r matches Ok(m) ==> m == resp.message,
        r matches Err((k, d)) ==> k == crate::setter::SidecarFailureKind::Remote && d == (
        match resp.error {
            Some(e) => e,
            None => resp.message,
        }),
{
    if resp.success {
        Ok(resp.message)
    } else {
        match resp.error {
            Some(e) => Err((crate::setter::SidecarFailureKind::Remote, e)),
            None => Err((crate::setter::SidecarFailureKind::Remote, resp.message)),
        }
    }
}

/// One shell command's view of the sidecar lifecycle.
pub struct SidecarResult {
    pub success: bool,
    pub message: String,
}

/// What the status probes amount to.
pub struct SidecarStatus {
    pub installed: bool,
    pub running: bool,
    pub message: String,
}

/// Composes the status report from the three probes: the installed
/// artifacts, the service manager's word, and whether the port accepted a
/// datagram. The service counts as running only when the port does.
pub fn sidecar_status(installed: bool, running: bool, udp_ok: bool) -> (r: SidecarStatus)
    ensures
        r.installed == installed,
        r.running == (running && udp_ok),
        installed && running && udp_ok ==> r.message@ == "sidecar installed and running"@,
        installed && !(running && udp_ok) ==> r.message@ == "sidecar installed but not running"@,
        !installed ==> r.message@ == "sidecar not installed"@,
{
    let message = if installed && running && udp_ok {
        String::from_str("sidecar installed and running")
    } else if installed {
        String::from_str("sidecar installed but not running")
    } else {
        String::from_str("sidecar not installed")
    };
    SidecarStatus { installed, running: running && udp_ok, message }
}

} // verus!
