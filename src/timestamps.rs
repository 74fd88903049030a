use vstd::prelude::*;

verus! {

/// The RFC 3339 text, with millisecond precision and a `Z` suffix, of the UTC
/// instant `ms` milliseconds after the Unix epoch.
pub uninterp spec fn rfc3339_millis_text(ms: i64) -> Seq<char>;

/// The instant, in milliseconds since the Unix epoch, that the RFC 3339 text
/// `s` denotes, or `None` when `s` is not valid RFC 3339.
pub uninterp spec fn rfc3339_millis_value(s: Seq<char>) -> Option<i64>;

/// The first millisecond that chrono represents: -262143-01-01T00:00:00Z.
pub const MIN_REPRESENTABLE_MS: i64 = -8334601228800000;

/// The last millisecond that chrono represents: 262142-12-31T23:59:59.999Z.
pub const MAX_REPRESENTABLE_MS: i64 = 8210266876799999;

/// Relies on chrono's `DateTime::<Utc>::from_timestamp_millis` and
/// `DateTime::to_rfc3339_opts(SecondsFormat::Millis, true)`: the text of an
/// instant depends on the instant alone. `from_timestamp_millis` succeeds
/// exactly for the days of years -262143 to 262142 (chrono's `MIN_YEAR` and
/// `MAX_YEAR`), that is for the instants between the two bounds above.
#[verifier::external_body]
fn format_rfc3339_millis(ms: i64) -> (r: Option<String>)
    ensures
        r is Some <==> MIN_REPRESENTABLE_MS <= ms <= MAX_REPRESENTABLE_MS,
        r is Some ==> r->0@ == rfc3339_millis_text(ms),
{
    chrono::DateTime::<chrono::Utc>::from_timestamp_millis(ms).map(
        |d| d.to_rfc3339_opts(chrono::SecondsFormat::Millis, true),
    )
}

/// Relies on chrono's `DateTime::parse_from_rfc3339` and
/// `DateTime::timestamp_millis`: the result depends on the text alone.
#[verifier::external_body]
fn parse_rfc3339_millis(s: &str) -> (r: Option<i64>)
    ensures
        r == rfc3339_millis_value(s@),
{
    chrono::DateTime::parse_from_rfc3339(s).ok().map(|d| d.timestamp_millis())
}

pub open spec fn is_ascii_digit(c: char) -> bool {
    '0' <= c && c <= '9'
}

/// The value of a string of decimal digits.
pub open spec fn digits_value(s: Seq<char>) -> int
    decreases s.len(),
{
    if s.len() == 0 {
        0
    } else {
        digits_value(s.drop_last()) * 10 + (s.last() as int - '0' as int)
    }
}

/// The length of the optional sign that starts `s`.
pub open spec fn sign_len(s: Seq<char>) -> int {
    if s.len() > 0 && (s[0] == '-' || s[0] == '+') {
        1
    } else {
        0
    }
}

pub open spec fn all_digits(d: Seq<char>) -> bool {
    forall|i: int| 0 <= i < d.len() ==> is_ascii_digit(#[trigger] d[i])
}

/// A nonempty string of decimal digits, after an optional sign, and its value.
pub open spec fn signed_decimal(s: Seq<char>) -> Option<int> {
    let digits = s.skip(sign_len(s));
    if digits.len() > 0 && all_digits(digits) {
        Some(if s[0] == '-' { -digits_value(digits) } else { digits_value(digits) })
    } else {
        None
    }
}

/// What `str::parse::<i64>` yields on `s`.
pub open spec fn decimal_i64(s: Seq<char>) -> Option<i64> {
    match signed_decimal(s) {
        Some(v) => if i64::MIN <= v <= i64::MAX {
            Some(v as i64)
        } else {
            None
        },
        None => None,
    }
}

proof fn lemma_digits_nonneg(s: Seq<char>)
    requires
        forall|i: int| 0 <= i < s.len() ==> is_ascii_digit(#[trigger] s[i]),
    ensures
        digits_value(s) >= 0,
    decreases s.len(),
{
    if s.len() > 0 {
        lemma_digits_nonneg(s.drop_last());
    }
}

/// `s` read as `str::parse::<i64>` reads it: an optional `+` or `-` sign
/// followed by one or more ASCII digits, whose value fits in `i64`.
pub fn parse_i64(s: &str) -> (r: Option<i64>)
    ensures
        r == decimal_i64(s@),
{
    let n = s.unicode_len();
    if n == 0 {
        return None;
    }
    let first = s.get_char(0);
    let negative = first == '-';
    let start: usize = if first == '-' || first == '+' { 1 } else { 0 };
    let ghost digits = s@.skip(sign_len(s@));
    if start >= n {
        return None;
    }
    let limit: u64 = if negative { 9223372036854775808 } else { 9223372036854775807 };
    let mut mag: u64 = 0;
    let mut overflow = false;
    let mut i: usize = start;
    while i < n
        invariant
            n == s@.len(),
            start <= i <= n,
            digits == s@.skip(start as int),
            limit == (if negative { 9223372036854775808u64 } else { 9223372036854775807u64 }),
            negative == (s@[0] == '-'),
            s@.len() > 0,
            start == (if s@[0] == '-' || s@[0] == '+' { 1usize } else { 0usize }),
            forall|k: int| 0 <= k < i - start ==> is_ascii_digit(#[trigger] digits[k]),
            !overflow ==> mag as int == digits_value(digits.take(i - start)) && mag <= limit,
            overflow ==> digits_value(digits.take(i - start)) > limit,
        decreases n - i,
    {
        let c = s.get_char(i);
        proof {
            assert(digits[i - start] == c);
        }
        if !('0' <= c && c <= '9') {
            proof {
                assert(!is_ascii_digit(digits[i - start]));
                assert(!all_digits(digits));
            }
            return None;
        }
        proof {
            assert((c as u32) >= 48 && (c as u32) <= 57);
        }
        let d: u64 = (c as u32 - 48) as u64;
        assert(d <= 9);
        let ghost prev = digits.take(i - start);
        proof {
            assert(digits.take(i - start + 1).drop_last() =~= prev);
            assert(digits.take(i - start + 1).last() == c);
            assert(forall|k: int| 0 <= k < prev.len() ==> #[trigger] prev[k] == digits[k]);
            lemma_digits_nonneg(prev);
        }
        if !overflow {
            if mag > (limit - d) / 10 {
                proof {
                    assert(mag * 10 + d > limit) by (nonlinear_arith)
                        requires
                            mag > (limit - d) / 10,
                            d <= limit,
                    ;
                }
                overflow = true;
            } else {
                proof {
                    assert(mag * 10 + d <= limit) by (nonlinear_arith)
                        requires
                            mag <= (limit - d) / 10,
                            d <= limit,
                    ;
                }
                mag = mag * 10 + d;
            }
        } else {
            proof {
                let v = digits_value(prev);
                assert(v * 10 + d >= v) by (nonlinear_arith)
                    requires
                        v >= 0,
                ;
            }
        }
        i = i + 1;
    }
    proof {
        assert(digits.take(n - start) =~= digits);
    }
    if overflow {
        None
    } else if negative {
        if mag == 9223372036854775808 {
            Some(i64::MIN)
        } else {
            Some(-(mag as i64))
        }
    } else {
        Some(mag as i64)
    }
}

/// The ordering value of a raised hand whose attribute text is `raw`, given
/// what RFC 3339 parsing made of it: the parsed instant; failing that, the
/// text read as a decimal integer; failing both, zero.
pub open spec fn raise_order(parsed: Option<i64>, raw: Seq<char>) -> i64 {
    match parsed {
        Some(ms) => ms,
        None => match decimal_i64(raw) {
            Some(v) => v,
            None => 0,
        },
    }
}

/// The ordering value of a hand-raise attribute text, given the result of
/// parsing it as RFC 3339.
pub fn order_value_from(parsed: Option<i64>, raw: &str) -> (r: i64)
    ensures
        r == raise_order(parsed, raw@),
{
    match parsed {
        Some(ms) => ms,
        None => match parse_i64(raw) {
            Some(v) => v,
            None => 0,
        },
    }
}

/// The ordering value of a hand-raise attribute text: RFC 3339 first, then a
/// legacy integer of epoch milliseconds, else zero. Never fails.
pub fn raise_timestamp_millis(raw: &str) -> (r: i64)
    ensures
        r == raise_order(rfc3339_millis_value(raw@), raw@),
{
    let parsed = parse_rfc3339_millis(raw);
    order_value_from(parsed, raw)
}

/// The attribute text that announces a hand raised at `now_ms`; `None` when
/// the instant lies outside the years -262143 to 262142.
pub fn raise_attribute_text(now_ms: i64) -> (r: Option<String>)
    ensures
        r is Some <==> MIN_REPRESENTABLE_MS <= now_ms <= MAX_REPRESENTABLE_MS,
        r is Some ==> r->0@ == rfc3339_millis_text(now_ms),
{
    format_rfc3339_millis(now_ms)
}

} // verus!
