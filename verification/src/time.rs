//! Instants as signed nanoseconds since the Unix epoch (UTC), the duration
//! arithmetic the monitor performs on them, and the chrono calls that parse
//! and render RFC 3339 text.

use vstd::prelude::*;

verus! {

pub const NANOS_PER_MILLI: i128 = 1_000_000;
pub const NANOS_PER_SEC: i128 = 1_000_000_000;
pub const NANOS_PER_MINUTE: i128 = 60_000_000_000;
pub const NANOS_PER_HOUR: i128 = 3_600_000_000_000;
pub const NANOS_PER_DAY: i128 = 86_400_000_000_000;

/// First second (since the epoch) that chrono's `DateTime<Utc>` can hold:
/// -262143-01-01T00:00:00Z.
pub const MIN_UTC_SECS: i64 = -8_334_601_315_200;
/// Last second that chrono's `DateTime<Utc>` can hold: +262142-12-31T23:59:59Z.
pub const MAX_UTC_SECS: i64 = 8_210_266_876_799;

/// 0000-01-01T00:00:00Z: the first second RFC 3339 text writes with a
/// four-digit year.
pub const FIRST_FOUR_DIGIT_YEAR_SECS: i64 = -62_167_219_200;
/// 9999-12-31T23:59:59Z: the last second RFC 3339 text writes with a
/// four-digit year.
pub const LAST_FOUR_DIGIT_YEAR_SECS: i64 = 253_402_300_799;

/// The second falls in the years 0000 to 9999, which RFC 3339 text writes
/// with four digits and so reads back.
pub open spec fn four_digit_year(secs: int) -> bool {
    FIRST_FOUR_DIGIT_YEAR_SECS <= secs <= LAST_FOUR_DIGIT_YEAR_SECS
}

/// `t` (nanoseconds since the epoch) lies within chrono's `DateTime<Utc>` range.
pub open spec fn instant_ok(t: int) -> bool {
    MIN_UTC_SECS * NANOS_PER_SEC <= t <= MAX_UTC_SECS * NANOS_PER_SEC + 999_999_999
}

/// A magnitude bound (2^96 nanoseconds) that every parsed or in-range
/// instant meets, so differences of two instants never overflow.
pub open spec fn time_bounded(t: int) -> bool {
    -0x1_0000_0000_0000_0000_0000_0000 < t < 0x1_0000_0000_0000_0000_0000_0000
}

/// Division rounding toward zero, as Rust's integer `/` and chrono's
/// `num_*` accessors do.
pub open spec fn trunc_div(a: int, b: int) -> int
    recommends
        b > 0,
{
    if a >= 0 {
        a / b
    } else {
        -((-a) / b)
    }
}

/// Whole minutes in `later - earlier`, rounded toward zero
/// (`signed_duration_since(..).num_minutes()`).
pub open spec fn minutes_between(later: int, earlier: int) -> int {
    trunc_div(later - earlier, NANOS_PER_MINUTE as int)
}

/// `a / b` rounded toward zero, for `b > 0`.
pub fn div_toward_zero(a: i128, b: i128) -> (q: i128)
    requires
        b > 0,
        a > i128::MIN,
    ensures
        q == trunc_div(a as int, b as int),
{
    if a >= 0 {
        a / b
    } else {
        let m: i128 = -a;
        -(m / b)
    }
}

/// Whole minutes between two instants, as chrono's `num_minutes` gives them.
pub fn minutes_since(later: i128, earlier: i128) -> (m: i128)
    requires
        time_bounded(later as int),
        time_bounded(earlier as int),
    ensures
        m == minutes_between(later as int, earlier as int),
{
    div_toward_zero(later - earlier, NANOS_PER_MINUTE)
}

/// The instant `secs` seconds and `nanos` nanoseconds after the epoch.
pub open spec fn from_parts(secs: int, nanos: int) -> int {
    secs * NANOS_PER_SEC + nanos
}

/// Seconds and sub-second nanoseconds of an instant (Euclidean split).
pub fn to_parts(t: i128) -> (r: (i64, u32))
    requires
        instant_ok(t as int),
    ensures
        from_parts(r.0 as int, r.1 as int) == t,
        r.1 < 1_000_000_000,
        MIN_UTC_SECS <= r.0 <= MAX_UTC_SECS,
{
    let q: i128;
    let rem: i128;
    if t >= 0 {
        q = t / NANOS_PER_SEC;
        rem = t % NANOS_PER_SEC;
        proof {
            vstd::arithmetic::div_mod::lemma_fundamental_div_mod(t as int, NANOS_PER_SEC as int);
        }
    } else {
        let m: i128 = -t;
        let mq = m / NANOS_PER_SEC;
        let mr = m % NANOS_PER_SEC;
        proof {
            vstd::arithmetic::div_mod::lemma_fundamental_div_mod(m as int, NANOS_PER_SEC as int);
        }
        if mr == 0 {
            q = -mq;
            rem = 0;
        } else {
            q = -mq - 1;
            rem = NANOS_PER_SEC - mr;
        }
    }
    assert(q * NANOS_PER_SEC + rem == t);
    assert(MIN_UTC_SECS <= q <= MAX_UTC_SECS);
    (q as i64, rem as u32)
}

/// Combines seconds and sub-second nanoseconds into one instant.
pub fn from_secs_nanos(secs: i64, nanos: u32) -> (t: i128)
    ensures
        t == from_parts(secs as int, nanos as int),
{
    (secs as i128) * NANOS_PER_SEC + (nanos as i128)
}

/// What `DateTime::parse_from_rfc3339` yields for a text: the instant's
/// whole seconds since the epoch and its sub-second nanoseconds, or `None`
/// when the text is not RFC 3339.
pub uninterp spec fn rfc3339_parse(s: Seq<char>) -> Option<(i64, u32)>;

/// Calls chrono's `DateTime::parse_from_rfc3339` and reads the parsed
/// instant's `timestamp()` and `timestamp_subsec_nanos()`. The contract
/// claims that the result depends on the text alone, and that the
/// sub-second part is below two seconds' worth of nanoseconds (chrono keeps a
/// leap second in the range 1e9..2e9).
#[verifier::external_body]
fn parse_rfc3339_parts(s: &str) -> (r: Option<(i64, u32)>)
    ensures
        r == rfc3339_parse(s@),
        r matches Some(p) ==> p.1 < 2_000_000_000,
{
    match chrono::DateTime::parse_from_rfc3339(s) {
        Ok(t) => Some((t.timestamp(), t.timestamp_subsec_nanos())),
        Err(_) => None,
    }
}

/// The instant an RFC 3339 text names, in nanoseconds since the epoch.
pub open spec fn parsed_instant(s: Seq<char>) -> Option<int> {
    match rfc3339_parse(s) {
        Some(p) => Some(from_parts(p.0 as int, p.1 as int)),
        None => None,
    }
}

/// Parses an RFC 3339 timestamp (any offset) into nanoseconds since the epoch.
pub fn parse_timestamp_nanos(s: &str) -> (r: Option<i128>)
    ensures
        match r {
            Some(t) => parsed_instant(s@) == Some(t as int),
            None => parsed_instant(s@) is None,
        },
        r matches Some(t) ==> time_bounded(t as int),
{
    match parse_rfc3339_parts(s) {
        Some((secs, nanos)) => {
            let t = from_secs_nanos(secs, nanos);
            assert(time_bounded(t as int)) by (nonlinear_arith)
                requires
                    t == secs * 1_000_000_000int + nanos,
                    i64::MIN <= secs <= i64::MAX,
                    0 <= nanos < 2_000_000_000,
            ;
            Some(t)
        },
        None => None,
    }
}

/// `DateTime::<Utc>::to_rfc3339()` of the instant (`+00:00` suffix, as many
/// sub-second digits as needed).
pub uninterp spec fn rfc3339_auto(secs: i64, nanos: u32) -> Seq<char>;

/// `DateTime::<Utc>::to_rfc3339_opts(format, true)`, where the format is
/// `SecondsFormat::Millis` when `millis` holds and `SecondsFormat::Secs`
/// otherwise (`Z` suffix).
pub uninterp spec fn rfc3339_opts(secs: i64, nanos: u32, millis: bool) -> Seq<char>;

/// The text with three sub-second digits.
pub open spec fn rfc3339_millis(secs: i64, nanos: u32) -> Seq<char> {
    rfc3339_opts(secs, nanos, true)
}

/// The text in whole seconds.
pub open spec fn rfc3339_secs(secs: i64) -> Seq<char> {
    rfc3339_opts(secs, 0, false)
}

/// `DateTime::<Utc>::format("%Y-%m-%d %H:%M UTC")`.
pub uninterp spec fn minute_stamp(secs: i64, nanos: u32) -> Seq<char>;

/// Calls chrono's `DateTime::to_rfc3339` on `DateTime::from_timestamp(secs,
/// nanos)`. `from_timestamp` returns a value for every second inside chrono's
/// range with fewer than 1e9 nanoseconds, which the requires ensures; the
/// contract names the text as a function of the two numbers, and claims
/// that for a year 0000–9999 (four year digits, every sub-second digit
/// written) `parse_from_rfc3339` reads the text back as the same instant.
#[verifier::external_body]
fn format_rfc3339_auto(secs: i64, nanos: u32) -> (r: String)
    requires
        MIN_UTC_SECS <= secs <= MAX_UTC_SECS,
        nanos < 1_000_000_000,
    ensures
        r@ == rfc3339_auto(secs, nanos),
        four_digit_year(secs as int) ==> rfc3339_parse(r@) == Some((secs, nanos)),
{
    chrono::DateTime::from_timestamp(secs, nanos).expect("in range").to_rfc3339()
}

/// Calls chrono's `to_rfc3339_opts(format, true)` on
/// `DateTime::from_timestamp(secs, nanos)`, with `SecondsFormat::Millis` when
/// `millis` holds and `SecondsFormat::Secs` otherwise; see
/// `format_rfc3339_auto` for the range. For a year 0000–9999 the text reads
/// back, through `parse_from_rfc3339`, as the instant cut to the digits
/// written: whole milliseconds, or whole seconds.
#[verifier::external_body]
fn format_rfc3339_opts(secs: i64, nanos: u32, millis: bool) -> (r: String)
    requires
        MIN_UTC_SECS <= secs <= MAX_UTC_SECS,
        nanos < 1_000_000_000,
    ensures
        r@ == rfc3339_opts(secs, nanos, millis),
        four_digit_year(secs as int) ==> rfc3339_parse(r@) == Some(
            (
                secs,
                if millis {
                    (nanos - nanos % 1_000_000) as u32
                } else {
                    0u32
                },
            ),
        ),
{
    let format = if millis {
        chrono::SecondsFormat::Millis
    } else {
        chrono::SecondsFormat::Secs
    };
    chrono::DateTime::from_timestamp(secs, nanos).expect("in range").to_rfc3339_opts(format, true)
}

/// Calls chrono's `format("%Y-%m-%d %H:%M UTC")` on
/// `DateTime::from_timestamp(secs, nanos)` and renders it to a string; see
/// `format_rfc3339_auto` for the range.
#[verifier::external_body]
fn format_minute_stamp(secs: i64, nanos: u32) -> (r: String)
    requires
        MIN_UTC_SECS <= secs <= MAX_UTC_SECS,
        nanos < 1_000_000_000,
    ensures
        r@ == minute_stamp(secs, nanos),
{
    chrono::DateTime::from_timestamp(secs, nanos).expect("in range").format(
        "%Y-%m-%d %H:%M UTC",
    ).to_string()
}

/// The seconds part of an instant (Euclidean).
pub open spec fn secs_of(t: int) -> int {
    t / (NANOS_PER_SEC as int)
}

/// The sub-second nanoseconds of an instant (Euclidean).
pub open spec fn nanos_of(t: int) -> int {
    t % (NANOS_PER_SEC as int)
}

proof fn lemma_parts_unique(t: int, s: int, n: int)
    requires
        from_parts(s, n) == t,
        0 <= n < NANOS_PER_SEC,
    ensures
        s == secs_of(t),
        n == nanos_of(t),
{
    vstd::arithmetic::div_mod::lemma_fundamental_div_mod_converse(
        t,
        NANOS_PER_SEC as int,
        s,
        n,
    );
}

/// `to_rfc3339()` text of an instant.
pub open spec fn rfc3339_text(t: int) -> Seq<char> {
    rfc3339_auto(secs_of(t) as i64, nanos_of(t) as u32)
}

/// `to_rfc3339_opts(Millis, true)` text of an instant.
pub open spec fn millis_text(t: int) -> Seq<char> {
    rfc3339_millis(secs_of(t) as i64, nanos_of(t) as u32)
}

/// `format("%Y-%m-%d %H:%M UTC")` text of an instant.
pub open spec fn minute_text(t: int) -> Seq<char> {
    minute_stamp(secs_of(t) as i64, nanos_of(t) as u32)
}

/// The instant's year has four digits, so its RFC 3339 text reads back.
pub open spec fn readable_instant(t: int) -> bool {
    four_digit_year(secs_of(t))
}

/// Renders an instant with `to_rfc3339()`; in the years 0000–9999 the text
/// parses back to the same instant.
pub fn to_rfc3339(t: i128) -> (r: String)
    requires
        instant_ok(t as int),
    ensures
        r@ == rfc3339_text(t as int),
        readable_instant(t as int) ==> parsed_instant(r@) == Some(t as int),
{
    let (secs, nanos) = to_parts(t);
    proof {
        lemma_parts_unique(t as int, secs as int, nanos as int);
    }
    format_rfc3339_auto(secs, nanos)
}

/// `t` cut down to a whole millisecond.
pub open spec fn whole_millis(t: int) -> int {
    t - t % (NANOS_PER_MILLI as int)
}

proof fn lemma_millis_cut(t: int, s: int, n: int)
    requires
        from_parts(s, n) == t,
        0 <= n < NANOS_PER_SEC,
    ensures
        from_parts(s, n - n % 1_000_000) == whole_millis(t),
{
    vstd::arithmetic::div_mod::lemma_fundamental_div_mod(n, 1_000_000);
    let q = n / 1_000_000;
    assert(t == (s * 1000 + q) * 1_000_000 + n % 1_000_000) by (nonlinear_arith)
        requires
            t == s * 1_000_000_000 + n,
            n == 1_000_000 * q + n % 1_000_000,
    ;
    vstd::arithmetic::div_mod::lemma_mod_pos_bound(n, 1_000_000);
    vstd::arithmetic::div_mod::lemma_fundamental_div_mod_converse(
        t,
        1_000_000,
        s * 1000 + q,
        n % 1_000_000,
    );
}

/// Renders an instant with millisecond precision and a `Z` suffix — the one
/// time format stored in the database. In the years 0000–9999 the text
/// parses back to the instant cut to a whole millisecond.
pub fn format_timestamp(t: i128) -> (r: String)
    requires
        instant_ok(t as int),
    ensures
        r@ == millis_text(t as int),
        readable_instant(t as int) ==> parsed_instant(r@) == Some(whole_millis(t as int)),
{
    let (secs, nanos) = to_parts(t);
    proof {
        lemma_parts_unique(t as int, secs as int, nanos as int);
        lemma_millis_cut(t as int, secs as int, nanos as int);
    }
    format_rfc3339_opts(secs, nanos, true)
}

/// Renders an instant as `YYYY-MM-DD HH:MM UTC`.
pub fn format_minute(t: i128) -> (r: String)
    requires
        instant_ok(t as int),
    ensures
        r@ == minute_text(t as int),
{
    let (secs, nanos) = to_parts(t);
    proof {
        lemma_parts_unique(t as int, secs as int, nanos as int);
    }
    format_minute_stamp(secs, nanos)
}

/// `Utc.timestamp_opt(secs, 0).single()` followed by
/// `to_rfc3339_opts(SecondsFormat::Secs, true)`: `None` exactly when the
/// second lies outside chrono's range.
pub fn utc_seconds_text(secs: i64) -> (r: Option<String>)
    ensures
        match r {
            Some(text) => MIN_UTC_SECS <= secs <= MAX_UTC_SECS && text@ == rfc3339_secs(secs),
            None => !(MIN_UTC_SECS <= secs <= MAX_UTC_SECS),
        },
{
    if MIN_UTC_SECS <= secs && secs <= MAX_UTC_SECS {
        Some(format_rfc3339_opts(secs, 0, false))
    } else {
        None
    }
}

/// Parses an RFC 3339 timestamp (the inverse direction of
/// `format_timestamp`), in nanoseconds since the epoch.
pub fn parse_timestamp(s: &str) -> (r: Option<i128>)
    ensures
        match r {
            Some(t) => parsed_instant(s@) == Some(t as int),
            None => parsed_instant(s@) is None,
        },
        r matches Some(t) ==> time_bounded(t as int),
{
    parse_timestamp_nanos(s)
}

} // verus!
