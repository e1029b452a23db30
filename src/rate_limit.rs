use vstd::prelude::*;
use reqwest::header::{HeaderMap, HeaderValue};

verus! {

#[verifier::external_type_specification]
#[verifier::external_body]
#[verifier::reject_recursive_types(T)]
pub struct ExHeaderMap<T>(HeaderMap<T>);

#[verifier::external_type_specification]
#[verifier::external_body]
pub struct ExHeaderValue(HeaderValue);

/// Name of the response header that carries the request limit.
pub const LIMIT_HEADER: &'static str = "X-RateLimit-Limit";

/// Name of the response header that carries the requests left.
pub const REMAINING_HEADER: &'static str = "X-RateLimit-Remaining";

/// Name of the response header that carries when the window resets.
pub const RESET_HEADER: &'static str = "X-RateLimit-Reset";

/// The rate-limit window that the tracker last reported. Each field is absent
/// where the response did not carry it, or carried it in a form that does not
/// read.
#[derive(Debug, Clone)]
pub struct RateLimitInfo {
    pub limit: Option<i64>,
    pub remaining: Option<i64>,
    pub reset: Option<String>,
}

pub open spec fn is_digit(c: char) -> bool {
    48 <= c as u32 <= 57
}

/// The value of a run of decimal digits.
pub open spec fn digits_value(d: Seq<char>) -> int
    decreases d.len(),
{
    if d.len() == 0 {
        0
    } else {
        digits_value(d.drop_last()) * 10 + (d.last() as u32 - 48)
    }
}

/// Whether a text starts with a sign.
pub open spec fn has_sign(s: Seq<char>) -> bool {
    s.len() > 0 && (s[0] == '-' || s[0] == '+')
}

/// The digits of a text after an optional sign.
pub open spec fn unsigned_part(s: Seq<char>) -> Seq<char> {
    if has_sign(s) {
        s.skip(1)
    } else {
        s
    }
}

/// A decimal integer as `i64` reads it: an optional `+` or `-`, then one or
/// more ASCII digits, with a value in the range of `i64`.
pub open spec fn decimal_i64(s: Seq<char>) -> Option<i64> {
    let d = unsigned_part(s);
    let v = if s.len() > 0 && s[0] == '-' {
        -digits_value(d)
    } else {
        digits_value(d)
    };
    if d.len() > 0 && (forall|i: int| 0 <= i < d.len() ==> is_digit(#[trigger] d[i])) && i64::MIN
        <= v <= i64::MAX {
        Some(v as i64)
    } else {
        None
    }
}

/// What a header holds as text, by header name; `None` where the header is
/// missing or its value is not visible ASCII.
pub uninterp spec fn header_text_of(headers: HeaderMap, name: Seq<char>) -> Option<Seq<char>>;

/// The window that a response with these optional header texts describes.
pub open spec fn window_of(
    limit: Option<Seq<char>>,
    remaining: Option<Seq<char>>,
    reset: Option<Seq<char>>,
    r: RateLimitInfo,
) -> bool {
    &&& r.limit == match limit {
        Some(t) => decimal_i64(t),
        None => None,
    }
    &&& r.remaining == match remaining {
        Some(t) => decimal_i64(t),
        None => None,
    }
    &&& match (reset, r.reset) {
        (Some(t), Some(v)) => v@ == t,
        (None, None) => true,
        _ => false,
    }
}

/// Relies on `HeaderMap::get` and `HeaderValue::to_str`: the text of the header
/// named `name`, where it is present and visible ASCII.
#[verifier::external_body]
fn header_text(headers: &HeaderMap, name: &str) -> (r: Option<String>)
    ensures
        match r {
            Some(t) => header_text_of(*headers, name@) == Some(t@),
            None => header_text_of(*headers, name@).is_none(),
        },
{
    headers.get(name).and_then(|v| v.to_str().ok()).map(|v| v.to_string())
}

proof fn lemma_digits_prefix(d: Seq<char>, k: int)
    requires
        0 <= k <= d.len(),
        forall|i: int| 0 <= i < d.len() ==> is_digit(#[trigger] d[i]),
    ensures
        0 <= digits_value(d.subrange(0, k)) <= digits_value(d),
    decreases d.len(),
{
    if d.len() > 0 {
        let p = d.drop_last();
        if k < d.len() {
            lemma_digits_prefix(p, k);
            assert(p.subrange(0, k) =~= d.subrange(0, k));
        } else {
            lemma_digits_prefix(p, 0);
            assert(d.subrange(0, k) =~= d);
        }
    } else {
        assert(d.subrange(0, k) =~= d);
    }
}

/// Reads a decimal `i64` as `str::parse` does.
pub fn parse_i64(s: &str) -> (r: Option<i64>)
    ensures
        r == decimal_i64(s@),
{
    let n = s.unicode_len();
    let negative = n > 0 && s.get_char(0) == '-';
    let start: usize = if n > 0 && (s.get_char(0) == '-' || s.get_char(0) == '+') {
        1
    } else {
        0
    };
    let ghost d = unsigned_part(s@);
    assert(d =~= s@.subrange(start as int, n as int));
    if start == n {
        return None;
    }
    let mut acc: i128 = 0;
    let mut i: usize = start;
    while i < n
        invariant
            n == s@.len(),
            start <= i <= n,
            d == s@.subrange(start as int, n as int),
            d == unsigned_part(s@),
            forall|j: int| 0 <= j < i - start ==> is_digit(#[trigger] d[j]),
            acc == digits_value(d.subrange(0, i - start)),
            0 <= acc <= 9_223_372_036_854_775_808,
        decreases n - i,
    {
        let c = s.get_char(i);
        let u = c as u32;
        if !(48 <= u && u <= 57) {
            assert(!is_digit(d[i - start]));
            return None;
        }
        let ghost prev = d.subrange(0, i - start);
        acc = acc * 10 + (u - 48) as i128;
        assert(d.subrange(0, i - start + 1).drop_last() =~= prev);
        assert(acc == digits_value(d.subrange(0, i - start + 1)));
        if acc > 9_223_372_036_854_775_808 {
            proof {
                if forall|j: int| 0 <= j < d.len() ==> is_digit(#[trigger] d[j]) {
                    lemma_digits_prefix(d, i - start + 1);
                }
            }
            return None;
        }
        i = i + 1;
    }
    assert(d.subrange(0, n - start) =~= d);
    if negative {
        Some((-acc) as i64)
    } else if acc <= 9_223_372_036_854_775_807 {
        Some(acc as i64)
    } else {
        None
    }
}

impl RateLimitInfo {
    /// A copy equal to `self`.
    pub fn duplicate(&self) -> (r: Self)
        ensures
            r == *self,
    {
        RateLimitInfo {
            limit: self.limit,
            remaining: self.remaining,
            reset: crate::model::copy_text(&self.reset),
        }
    }

    /// A window with nothing known.
    pub fn empty() -> (r: Self)
        ensures
            r.limit.is_none(),
            r.remaining.is_none(),
            r.reset.is_none(),
    {
        RateLimitInfo { limit: None, remaining: None, reset: None }
    }

    /// The window described by the texts of the three rate-limit headers: the
    /// limit and the remaining count where they read as integers, the reset
    /// marker as it stands.
    pub fn from_header_values(
        limit: Option<String>,
        remaining: Option<String>,
        reset: Option<String>,
    ) -> (r: Self)
        ensures
            window_of(
                match limit {
                    Some(t) => Some(t@),
                    None => None,
                },
                match remaining {
                    Some(t) => Some(t@),
                    None => None,
                },
                match reset {
                    Some(t) => Some(t@),
                    None => None,
                },
                r,
            ),
    {
        let limit = match &limit {
            Some(t) => parse_i64(t.as_str()),
            None => None,
        };
        let remaining = match &remaining {
            Some(t) => parse_i64(t.as_str()),
            None => None,
        };
        RateLimitInfo { limit, remaining, reset }
    }

    /// The window that a response's headers describe.
    pub fn from_headers(headers: &HeaderMap) -> (r: Self)
        ensures
            window_of(
                header_text_of(*headers, LIMIT_HEADER@),
                header_text_of(*headers, REMAINING_HEADER@),
                header_text_of(*headers, RESET_HEADER@),
                r,
            ),
    {
        let limit = header_text(headers, LIMIT_HEADER);
        let remaining = header_text(headers, REMAINING_HEADER);
        let reset = header_text(headers, RESET_HEADER);
        Self::from_header_values(limit, remaining, reset)
    }
}

} // verus!
