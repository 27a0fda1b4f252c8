//! Session discovery on the local network: the mDNS instance name of a
//! session and the payload that describes a discovered session to the UI.
use crate::names::{decimal, decimal_chars, decimal_value};
use crate::text::{char_utf8_len, chars_of, string_from_chars, utf8_len, utf8_width};
use vstd::prelude::*;
use vstd::string::StringExecFns;

verus! {

/// Longest mDNS instance name, in UTF-8 bytes.
pub const MAX_INSTANCE_NAME_BYTES: usize = 63;

/// A discovered session, as shown to the UI.
#[derive(Clone, Debug)]
pub struct DiscoveredSessionPayload {
    pub session_name: String,
    pub host_name: String,
    pub address: String,
    pub peer_count: u8,
    pub max_peers: u8,
}

/// `s` with every '.' replaced by '-'.
pub open spec fn dash_for_dot(s: Seq<char>) -> Seq<char> {
    s.map_values(|c: char| if c == '.' { '-' } else { c })
}

proof fn lemma_utf8_len_take_step(s: Seq<char>, i: int)
    requires
        0 <= i < s.len(),
    ensures
        utf8_len(s.take(i + 1)) == utf8_len(s.take(i)) + char_utf8_len(s[i]),
{
    assert(s.take(i + 1).drop_last() =~= s.take(i));
}

proof fn lemma_utf8_len_monotonic(s: Seq<char>, a: int, b: int)
    requires
        0 <= a <= b <= s.len(),
    ensures
        utf8_len(s.take(a)) <= utf8_len(s.take(b)),
    decreases b - a,
{
    if a < b {
        lemma_utf8_len_take_step(s, b - 1);
        lemma_utf8_len_monotonic(s, a, b - 1);
    }
}

/// Sanitize a session name for use as an mDNS instance name: dots become
/// dashes, and a name longer than 63 UTF-8 bytes is cut to its longest
/// prefix of whole characters that fits in 63 bytes.
pub fn sanitize_instance_name(name: &str) -> (r: String)
    ensures
        r@.len() <= dash_for_dot(name@).len(),
        r@ == dash_for_dot(name@).take(r@.len() as int),
        utf8_len(r@) <= MAX_INSTANCE_NAME_BYTES,
        utf8_len(dash_for_dot(name@)) <= MAX_INSTANCE_NAME_BYTES ==> r@ == dash_for_dot(name@),
        r@.len() < dash_for_dot(name@).len() ==> utf8_len(
            dash_for_dot(name@).take(r@.len() as int + 1),
        ) > MAX_INSTANCE_NAME_BYTES,
{
    let chars = chars_of(name);
    let ghost cleaned = dash_for_dot(name@);
    let n = chars.len();
    let mut out: Vec<char> = Vec::new();
    let mut bytes: usize = 0;
    let mut i: usize = 0;
    let mut full = false;
    while i < n && !full
        invariant
            n == chars@.len(),
            chars@ == name@,
            cleaned == dash_for_dot(name@),
            i <= n,
            out@ == cleaned.take(i as int),
            bytes == utf8_len(cleaned.take(i as int)),
            bytes <= MAX_INSTANCE_NAME_BYTES,
            full ==> i < n && utf8_len(cleaned.take(i + 1)) > MAX_INSTANCE_NAME_BYTES,
        decreases n - i, if full { 0int } else { 1int },
    {
        let c = if chars[i] == '.' {
            '-'
        } else {
            chars[i]
        };
        assert(c == cleaned[i as int]);
        let w = utf8_width(c);
        proof {
            lemma_utf8_len_take_step(cleaned, i as int);
        }
        if bytes + w > MAX_INSTANCE_NAME_BYTES {
            full = true;
        } else {
            out.push(c);
            assert(out@ =~= cleaned.take(i + 1));
            bytes = bytes + w;
            i = i + 1;
        }
    }
    proof {
        if !full {
            assert(cleaned.take(n as int) =~= cleaned);
        } else {
            lemma_utf8_len_monotonic(cleaned, i + 1, cleaned.len() as int);
            assert(cleaned.take(cleaned.len() as int) =~= cleaned);
        }
    }
    string_from_chars(&out)
}

/// The TXT properties a host advertises for its session, in order.
pub open spec fn txt_properties(
    session_name: Seq<char>,
    host_name: Seq<char>,
    peer_count: u8,
    max_peers: u8,
) -> Seq<(Seq<char>, Seq<char>)> {
    seq![
        ("name"@, session_name),
        ("host"@, host_name),
        ("peers"@, decimal(peer_count as nat)),
        ("max_peers"@, decimal(max_peers as nat)),
    ]
}

/// The TXT records of an advertised session: its name, its host's name,
/// the number of peers and the peer limit, the counts in decimal.
pub fn session_txt_records(session_name: &str, host_name: &str, peer_count: u8, max_peers: u8) -> (r:
    Vec<(String, String)>)
    ensures
        r@.map_values(|p: (String, String)| (p.0@, p.1@)) == txt_properties(
            session_name@,
            host_name@,
            peer_count,
            max_peers,
        ),
{
    let mut r: Vec<(String, String)> = Vec::new();
    r.push((String::from_str("name"), session_name.to_string()));
    r.push((String::from_str("host"), host_name.to_string()));
    let pc = string_from_chars(&decimal_chars(peer_count as u32));
    r.push((String::from_str("peers"), pc));
    let mp = string_from_chars(&decimal_chars(max_peers as u32));
    r.push((String::from_str("max_peers"), mp));
    assert(r@.map_values(|p: (String, String)| (p.0@, p.1@)) =~= txt_properties(
        session_name@,
        host_name@,
        peer_count,
        max_peers,
    ));
    r
}

/// Whether `c` is an ASCII decimal digit.
pub open spec fn is_digit(c: char) -> bool {
    '0' <= c <= '9'
}

/// `s` without a leading '+'.
pub open spec fn unsigned_digits(s: Seq<char>) -> Seq<char> {
    if s.len() > 0 && s[0] == '+' {
        s.drop_first()
    } else {
        s
    }
}

/// The value of the text `s` read as an unsigned 8-bit number: an
/// optional '+' and one or more decimal digits, at most 255.
pub open spec fn u8_text_value(s: Seq<char>) -> Option<u8> {
    let digits = unsigned_digits(s);
    if digits.len() > 0 && (forall|i: int| 0 <= i < digits.len() ==> is_digit(#[trigger] digits[i]))
        && decimal_value(digits) <= 255 {
        Some(decimal_value(digits) as u8)
    } else {
        None
    }
}

proof fn lemma_decimal_value_step(s: Seq<char>, i: int)
    requires
        0 <= i < s.len(),
    ensures
        decimal_value(s.take(i + 1)) == decimal_value(s.take(i)) * 10 + crate::names::digit_value(
            s[i],
        ),
{
    assert(s.take(i + 1).drop_last() =~= s.take(i));
}

proof fn lemma_decimal_value_grows(s: Seq<char>, a: int, b: int)
    requires
        0 <= a <= b <= s.len(),
    ensures
        decimal_value(s.take(a)) <= decimal_value(s.take(b)),
    decreases b - a,
{
    if a < b {
        lemma_decimal_value_step(s, b - 1);
        lemma_decimal_value_grows(s, a, b - 1);
        assert(crate::names::digit_value(s[b - 1]) >= 0);
        assert(decimal_value(s.take(b - 1)) >= 0) by {
            lemma_decimal_value_nonneg(s.take(b - 1));
        }
    }
}

proof fn lemma_decimal_value_nonneg(s: Seq<char>)
    ensures
        decimal_value(s) >= 0,
    decreases s.len(),
{
    if s.len() > 0 {
        lemma_decimal_value_nonneg(s.drop_last());
    }
}

/// `s` read as an unsigned 8-bit number (an optional '+' and decimal
/// digits, at most 255), or `None`.
pub fn parse_u8(s: &str) -> (r: Option<u8>)
    ensures
        r == u8_text_value(s@),
{
    let c = chars_of(s);
    let n = c.len();
    let start: usize = if n > 0 && c[0] == '+' {
        1
    } else {
        0
    };
    let ghost digits = unsigned_digits(s@);
    assert(digits =~= s@.subrange(start as int, n as int));
    if start == n {
        return None;
    }
    let mut value: u32 = 0;
    let mut i: usize = start;
    while i < n
        invariant
            n == c@.len(),
            c@ == s@,
            digits == s@.subrange(start as int, n as int),
            digits == unsigned_digits(s@),
            start <= i <= n,
            start < n,
            forall|j: int| start <= j < i ==> is_digit(c@[j]),
            value == decimal_value(digits.take(i - start)),
            value <= 255,
        decreases n - i,
    {
        let ch = c[i];
        assert(digits[i - start] == ch);
        if !('0' <= ch && ch <= '9') {
            assert(!is_digit(digits[i - start]));
            assert(!(forall|j: int| 0 <= j < digits.len() ==> is_digit(#[trigger] digits[j])));
            assert(u8_text_value(s@) is None);
            return None;
        }
        let d: u32 = if ch == '1' {
            1
        } else if ch == '2' {
            2
        } else if ch == '3' {
            3
        } else if ch == '4' {
            4
        } else if ch == '5' {
            5
        } else if ch == '6' {
            6
        } else if ch == '7' {
            7
        } else if ch == '8' {
            8
        } else if ch == '9' {
            9
        } else {
            0
        };
        proof {
            lemma_decimal_value_step(digits, i - start);
        }
        let next: u32 = value * 10 + d;
        if next > 255 {
            proof {
                assert(next == decimal_value(digits.take(i - start + 1)));
                lemma_decimal_value_grows(digits, i - start + 1, digits.len() as int);
                assert(digits.take(digits.len() as int) =~= digits);
                assert(decimal_value(digits) > 255);
                assert(u8_text_value(s@) is None);
            }
            return None;
        }
        value = next;
        i = i + 1;
    }
    assert(digits.take(n - start) =~= digits);
    Some(value as u8)
}

/// The peer count and peer limit advertised in a session's TXT records;
/// a missing or unreadable count reads as 0 and a missing or unreadable
/// limit as 5.
pub fn peer_counts_from_txt(peers: Option<&str>, max_peers: Option<&str>) -> (r: (u8, u8))
    ensures
        r.0 == match peers {
            Some(p) => match u8_text_value(p@) {
                Some(v) => v,
                None => 0u8,
            },
            None => 0u8,
        },
        r.1 == match max_peers {
            Some(m) => match u8_text_value(m@) {
                Some(v) => v,
                None => 5u8,
            },
            None => 5u8,
        },
{
    let pc = match peers {
        Some(p) => match parse_u8(p) {
            Some(v) => v,
            None => 0,
        },
        None => 0,
    };
    let mp = match max_peers {
        Some(m) => match parse_u8(m) {
            Some(v) => v,
            None => 5,
        },
        None => 5,
    };
    (pc, mp)
}

} // verus!
